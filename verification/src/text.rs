//! Comma-separated word lists, as they are written in settings.
use vstd::prelude::*;

verus! {

/// White space in the sense of Unicode.
pub open spec fn is_space(c: char) -> bool {
    let n = c as u32;
    ||| 0x9 <= n <= 0xd
    ||| n == 0x20
    ||| n == 0x85
    ||| n == 0xa0
    ||| n == 0x1680
    ||| 0x2000 <= n <= 0x200a
    ||| n == 0x2028
    ||| n == 0x2029
    ||| n == 0x202f
    ||| n == 0x205f
    ||| n == 0x3000
}

/// The code of a character once ASCII capitals are made small.
pub open spec fn folded(c: char) -> int {
    let n = c as u32 as int;
    if 0x41 <= n <= 0x5a {
        n + 0x20
    } else {
        n
    }
}

/// Equal up to the case of ASCII letters.
pub open spec fn same_ignoring_case(a: Seq<char>, b: Seq<char>) -> bool {
    &&& a.len() == b.len()
    &&& forall|i: int| 0 <= i < a.len() ==> folded(#[trigger] a[i]) == folded(b[i])
}

/// What is left once white space is cut off the front.
pub open spec fn trim_start(s: Seq<char>) -> Seq<char>
    decreases s.len(),
{
    if s.len() > 0 && is_space(s[0]) {
        trim_start(s.drop_first())
    } else {
        s
    }
}

/// What is left once white space is cut off the back.
pub open spec fn trim_end(s: Seq<char>) -> Seq<char>
    decreases s.len(),
{
    if s.len() > 0 && is_space(s.last()) {
        trim_end(s.drop_last())
    } else {
        s
    }
}

/// What is left once white space is cut off both ends.
pub open spec fn trim(s: Seq<char>) -> Seq<char> {
    trim_end(trim_start(s))
}

/// `list[i..j]` is one of the entries that the commas of `list` separate.
pub open spec fn is_entry(list: Seq<char>, i: int, j: int) -> bool {
    &&& 0 <= i <= j <= list.len()
    &&& i == 0 || list[i - 1] == ','
    &&& j == list.len() || list[j] == ','
    &&& forall|k: int| i <= k < j ==> list[k] != ','
}

/// Some entry of the comma-separated `list` is the word `key`, up to white space
/// around it and to case.
pub open spec fn lists_word(list: Seq<char>, key: Seq<char>) -> bool {
    exists|i: int, j: int|
        #[trigger] is_entry(list, i, j) && same_ignoring_case(trim(list.subrange(i, j)), key)
}

/// The characters of a string.
pub fn chars_of(s: &str) -> (r: Vec<char>)
    ensures
        r@ == s@,
{
    let n: usize = s.unicode_len();
    let mut r: Vec<char> = Vec::new();
    let mut i: usize = 0;
    while i < n
        invariant
            i <= n,
            n == s@.len(),
            r@ == s@.take(i as int),
        decreases n - i,
    {
        r.push(s.get_char(i));
        assert(s@.take(i + 1) =~= s@.take(i as int).push(s@[i as int]));
        i += 1;
    }
    assert(s@.take(n as int) =~= s@);
    r
}

fn space(c: char) -> (r: bool)
    ensures
        r == is_space(c),
{
    let n: u32 = c as u32;
    (0x9 <= n && n <= 0xd) || n == 0x20 || n == 0x85 || n == 0xa0 || n == 0x1680 || (0x2000 <= n
        && n <= 0x200a) || n == 0x2028 || n == 0x2029 || n == 0x202f || n == 0x205f || n == 0x3000
}

fn fold(c: char) -> (r: u32)
    ensures
        r == folded(c),
{
    let n: u32 = c as u32;
    if 0x41 <= n && n <= 0x5a {
        n + 0x20
    } else {
        n
    }
}

proof fn lemma_trim_start(s: Seq<char>, l: int)
    requires
        0 <= l <= s.len(),
        forall|k: int| 0 <= k < l ==> is_space(#[trigger] s[k]),
        l == s.len() || !is_space(s[l]),
    ensures
        trim_start(s) == s.subrange(l, s.len() as int),
    decreases l,
{
    if l == 0 {
        assert(s.subrange(0, s.len() as int) =~= s);
    } else {
        assert forall|k: int| 0 <= k < l - 1 implies is_space(#[trigger] s.drop_first()[k]) by {
            assert(is_space(s[k + 1]));
        }
        assert(is_space(s[0]));
        lemma_trim_start(s.drop_first(), l - 1);
        assert(s.drop_first().subrange(l - 1, s.len() - 1) =~= s.subrange(l, s.len() as int));
    }
}

proof fn lemma_trim_end(s: Seq<char>, r: int)
    requires
        0 <= r <= s.len(),
        forall|k: int| r <= k < s.len() ==> is_space(#[trigger] s[k]),
        r == 0 || !is_space(s[r - 1]),
    ensures
        trim_end(s) == s.subrange(0, r),
    decreases s.len() - r,
{
    if r == s.len() {
        assert(s.subrange(0, r) =~= s);
    } else {
        assert(is_space(s[s.len() - 1]));
        assert forall|k: int| r <= k < s.len() - 1 implies is_space(#[trigger] s.drop_last()[k]) by {
            assert(is_space(s[k]));
        }
        lemma_trim_end(s.drop_last(), r);
        assert(s.drop_last().subrange(0, r) =~= s.subrange(0, r));
    }
}

/// Whether the trimmed entry `list[from..to]` is `key` up to case.
fn entry_is(list: &Vec<char>, from: usize, to: usize, key: &Vec<char>) -> (r: bool)
    requires
        from <= to <= list@.len(),
    ensures
        r == same_ignoring_case(trim(list@.subrange(from as int, to as int)), key@),
{
    let ghost entry = list@.subrange(from as int, to as int);
    let mut l: usize = from;
    while l < to && space(list[l])
        invariant
            from <= l <= to <= list@.len(),
            forall|k: int| from <= k < l ==> is_space(#[trigger] list@[k]),
        ensures
            from <= l <= to,
            forall|k: int| from <= k < l ==> is_space(#[trigger] list@[k]),
            l == to || !is_space(list@[l as int]),
        decreases to - l,
    {
        l += 1;
    }
    let mut r: usize = to;
    while r > l && space(list[r - 1])
        invariant
            l <= r <= to <= list@.len(),
            forall|k: int| r <= k < to ==> is_space(#[trigger] list@[k]),
        ensures
            l <= r <= to,
            forall|k: int| r <= k < to ==> is_space(#[trigger] list@[k]),
            r == l || !is_space(list@[r - 1]),
        decreases r - l,
    {
        r -= 1;
    }
    proof {
        assert forall|k: int| 0 <= k < l - from implies is_space(#[trigger] entry[k]) by {
            assert(is_space(list@[from + k]));
        }
        lemma_trim_start(entry, l - from);
        let rest = entry.subrange(l - from, entry.len() as int);
        assert forall|k: int| r - l <= k < rest.len() implies is_space(#[trigger] rest[k]) by {
            assert(is_space(list@[l + k]));
        }
        lemma_trim_end(rest, r - l);
        assert(rest.subrange(0, r - l) =~= list@.subrange(l as int, r as int));
    }
    let ghost word = list@.subrange(l as int, r as int);
    if r - l != key.len() {
        return false;
    }
    let mut i: usize = 0;
    while i < key.len()
        invariant
            i <= key@.len(),
            l + key@.len() == r,
            r <= list@.len(),
            word == list@.subrange(l as int, r as int),
            word == trim(list@.subrange(from as int, to as int)),
            forall|k: int| 0 <= k < i ==> folded(#[trigger] word[k]) == folded(key@[k]),
        decreases key@.len() - i,
    {
        if fold(list[l + i]) != fold(key[i]) {
            assert(folded(word[i as int]) != folded(key@[i as int]));
            return false;
        }
        i += 1;
    }
    true
}

/// Whether two strings are the same.
pub fn same_text(a: &str, b: &str) -> (r: bool)
    ensures
        r == (a@ == b@),
{
    let x = chars_of(a);
    let y = chars_of(b);
    if x.len() != y.len() {
        return false;
    }
    let mut i: usize = 0;
    while i < x.len()
        invariant
            x@.len() == y@.len(),
            x@ == a@,
            y@ == b@,
            i <= x@.len(),
            forall|k: int| 0 <= k < i ==> x@[k] == y@[k],
        decreases x@.len() - i,
    {
        if x[i] != y[i] {
            return false;
        }
        i += 1;
    }
    assert(a@ =~= b@);
    true
}

/// Whether two strings are the same up to the case of ASCII letters.
pub fn same_word(a: &str, b: &str) -> (r: bool)
    ensures
        r == same_ignoring_case(a@, b@),
{
    let x = chars_of(a);
    let y = chars_of(b);
    if x.len() != y.len() {
        return false;
    }
    let mut i: usize = 0;
    while i < x.len()
        invariant
            x@.len() == y@.len(),
            x@ == a@,
            y@ == b@,
            i <= x@.len(),
            forall|k: int| 0 <= k < i ==> folded(#[trigger] x@[k]) == folded(y@[k]),
        decreases x@.len() - i,
    {
        if fold(x[i]) != fold(y[i]) {
            assert(folded(x@[i as int]) != folded(y@[i as int]));
            return false;
        }
        i += 1;
    }
    true
}

/// Whether some entry of the comma-separated `list` is the word `key`, up to
/// white space around it and to the case of ASCII letters.
pub fn lists(list: &str, key: &str) -> (r: bool)
    ensures
        r == lists_word(list@, key@),
{
    let text = chars_of(list);
    let word = chars_of(key);
    let mut start: usize = 0;
    loop
        invariant
            text@ == list@,
            word@ == key@,
            start <= text@.len(),
            start == 0 || text@[start - 1] == ',',
            forall|i: int, j: int|
                #[trigger] is_entry(text@, i, j) && i < start ==> !same_ignoring_case(
                    trim(text@.subrange(i, j)),
                    word@,
                ),
        decreases text@.len() - start,
    {
        let mut end: usize = start;
        while end < text.len() && text[end] != ','
            invariant
                start <= end <= text@.len(),
                forall|k: int| start <= k < end ==> text@[k] != ',',
            ensures
                start <= end <= text@.len(),
                forall|k: int| start <= k < end ==> text@[k] != ',',
                end == text@.len() || text@[end as int] == ',',
            decreases text@.len() - end,
        {
            end += 1;
        }
        assert(is_entry(text@, start as int, end as int));
        if entry_is(&text, start, end, &word) {
            return true;
        }
        assert forall|i: int, j: int|
            #[trigger] is_entry(text@, i, j) && i <= end implies !same_ignoring_case(
            trim(text@.subrange(i, j)),
            word@,
        ) by {
            if i > start {
                assert(text@[i - 1] == ',');
            }
            if i == start {
                if j < end {
                    assert(text@[j] == ',');
                } else if j > end {
                    assert(text@[end as int] != ',');
                }
            }
        }
        if end == text.len() {
            return false;
        }
        start = end + 1;
    }
}

/// A comma parts two lists: a word is named by both together if and only if one of them
/// names it.
pub proof fn law_commas_part_lists(a: Seq<char>, b: Seq<char>, key: Seq<char>)
    ensures
        lists_word(a + seq![','] + b, key) <==> lists_word(a, key) || lists_word(b, key),
{
    let n = a.len() as int;
    let list = a + seq![','] + b;
    if lists_word(list, key) {
        let (i, j) = choose|i: int, j: int|
            #[trigger] is_entry(list, i, j) && same_ignoring_case(trim(list.subrange(i, j)), key);
        assert(list[n] == ',');
        if j <= n {
            assert(a.subrange(i, j) =~= list.subrange(i, j));
            assert forall|k: int| i <= k < j implies a[k] != ',' by {
                assert(list[k] == a[k]);
            }
            if i > 0 {
                assert(list[i - 1] == a[i - 1]);
            }
            if j < n {
                assert(list[j] == a[j]);
            }
            assert(is_entry(a, i, j));
        } else {
            assert(i > n);
            let (x, y) = (i - n - 1, j - n - 1);
            assert(b.subrange(x, y) =~= list.subrange(i, j));
            assert forall|k: int| x <= k < y implies b[k] != ',' by {
                assert(list[k + n + 1] == b[k]);
            }
            if x > 0 {
                assert(list[i - 1] == b[x - 1]);
            }
            if y < b.len() {
                assert(list[j] == b[y]);
            }
            assert(is_entry(b, x, y));
        }
    }
    if lists_word(a, key) {
        let (i, j) = choose|i: int, j: int|
            #[trigger] is_entry(a, i, j) && same_ignoring_case(trim(a.subrange(i, j)), key);
        assert(a.subrange(i, j) =~= list.subrange(i, j));
        assert forall|k: int| i <= k < j implies list[k] != ',' by {
            assert(list[k] == a[k]);
        }
        assert(is_entry(list, i, j));
    }
    if lists_word(b, key) {
        let (x, y) = choose|i: int, j: int|
            #[trigger] is_entry(b, i, j) && same_ignoring_case(trim(b.subrange(i, j)), key);
        let (i, j) = (x + n + 1, y + n + 1);
        assert(b.subrange(x, y) =~= list.subrange(i, j));
        assert forall|k: int| i <= k < j implies list[k] != ',' by {
            assert(list[k] == b[k - n - 1]);
        }
        if x > 0 {
            assert(list[i - 1] == b[x - 1]);
        } else {
            assert(list[i - 1] == ',');
        }
        if y < b.len() {
            assert(list[j] == b[y]);
        }
        assert(is_entry(list, i, j));
    }
}

/// A list without a comma names one word at most: what is left of it without the white
/// space around, whatever the case of its letters.
pub proof fn law_lists_without_a_comma_name_one_word(a: Seq<char>, key: Seq<char>)
    requires
        !a.contains(','),
    ensures
        lists_word(a, key) <==> same_ignoring_case(trim(a), key),
{
    assert(forall|k: int| 0 <= k < a.len() ==> a[k] != ',') by {
        assert forall|k: int| 0 <= k < a.len() implies a[k] != ',' by {
            if a[k] == ',' {
                assert(a.contains(','));
            }
        }
    }
    assert(a.subrange(0, a.len() as int) =~= a);
    assert(is_entry(a, 0, a.len() as int));
    if lists_word(a, key) {
        let (i, j) = choose|i: int, j: int|
            #[trigger] is_entry(a, i, j) && same_ignoring_case(trim(a.subrange(i, j)), key);
        assert(i == 0 && j == a.len());
    }
}

/// White space in front of an entry and behind it plays no part.
pub proof fn law_white_space_around_words_plays_no_part(s: Seq<char>)
    ensures
        trim_start(seq![' '] + s) == trim_start(s),
        trim_end(s.push(' ')) == trim_end(s),
{
    assert((seq![' '] + s).drop_first() =~= s);
    assert(s.push(' ').drop_last() =~= s);
}

/// A capital letter counts as the small one, 32 places further on, and every other
/// character as itself.
pub proof fn law_capitals_count_as_small_letters(a: Seq<char>, b: Seq<char>)
    requires
        a.len() == b.len(),
        forall|i: int|
            0 <= i < a.len() ==> {
                ||| (#[trigger] a[i]) == b[i]
                ||| 65 <= a[i] as int <= 90 && b[i] as int == a[i] as int + 32
            },
    ensures
        same_ignoring_case(a, b),
        same_ignoring_case(b, a),
{
    assert forall|i: int| 0 <= i < a.len() implies folded(#[trigger] a[i]) == folded(b[i]) by {}
    assert forall|i: int| 0 <= i < b.len() implies folded(#[trigger] b[i]) == folded(a[i]) by {
        assert(folded(a[i]) == folded(b[i]));
    }
}

} // verus!
