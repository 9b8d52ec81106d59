//! The table of all moves.
use crate::state::Choice;
use crate::types::Choices;
use vstd::prelude::*;

verus! {

/// An entry of the table.
#[derive(Clone, Debug)]
pub struct MoveEntry {
    pub id: Choices,
    pub choice: Choice,
}

/// What every known move does.
#[derive(Clone, Debug)]
pub struct MoveTable {
    pub entries: Vec<MoveEntry>,
}

/// Where the table speaks of a move: at the first of its entries for it.
pub open spec fn entry_of(entries: Seq<MoveEntry>, id: Choices, n: int) -> Option<int>
    decreases n,
{
    if n <= 0 {
        None
    } else if entry_of(entries, id, n - 1) is Some {
        entry_of(entries, id, n - 1)
    } else if entries[n - 1].id == id {
        Some(n - 1)
    } else {
        None
    }
}

impl MoveTable {
    /// What the table says of a move.
    pub open spec fn lookup(self, id: Choices) -> Option<Choice> {
        match entry_of(self.entries@, id, self.entries@.len() as int) {
            Some(k) => Some(self.entries@[k].choice),
            None => None,
        }
    }

    /// What the table says of a move.
    pub fn get(&self, id: Choices) -> (r: Option<&Choice>)
        ensures
            r is Some <==> self.lookup(id) is Some,
            r matches Some(c) ==> self.lookup(id) == Some(*c),
    {
        let mut k: usize = 0;
        while k < self.entries.len()
            invariant
                k <= self.entries@.len(),
                entry_of(self.entries@, id, k as int) is None,
            decreases self.entries@.len() - k,
        {
            if self.entries[k].id == id {
                proof {
                    lemma_entry_kept(self.entries@, id, k + 1, self.entries@.len() as int);
                }
                return Some(&self.entries[k].choice);
            }
            k += 1;
        }
        None
    }
}

proof fn lemma_entry_kept(entries: Seq<MoveEntry>, id: Choices, m: int, n: int)
    requires
        0 <= m <= n,
        entry_of(entries, id, m) is Some,
    ensures
        entry_of(entries, id, n) == entry_of(entries, id, m),
    decreases n,
{
    if m < n {
        lemma_entry_kept(entries, id, m, n - 1);
    }
}

/// The table tells of a move what the first of its entries says, and nothing of a move
/// without one.
pub proof fn law_the_first_entry_counts(table: MoveTable, id: Choices, k: int)
    requires
        0 <= k < table.entries@.len(),
        table.entries@[k].id == id,
        forall|j: int| 0 <= j < k ==> (#[trigger] table.entries@[j]).id != id,
    ensures
        table.lookup(id) == Some(table.entries@[k].choice),
{
    lemma_no_entry(table.entries@, id, k);
    lemma_entry_kept(table.entries@, id, k + 1, table.entries@.len() as int);
}

/// The table tells nothing of a move without an entry.
pub proof fn law_moves_without_an_entry_are_unknown(table: MoveTable, id: Choices)
    requires
        forall|j: int| 0 <= j < table.entries@.len() ==> (#[trigger] table.entries@[j]).id != id,
    ensures
        table.lookup(id) is None,
{
    lemma_no_entry(table.entries@, id, table.entries@.len() as int);
}

proof fn lemma_no_entry(entries: Seq<MoveEntry>, id: Choices, n: int)
    requires
        0 <= n <= entries.len(),
        forall|j: int| 0 <= j < n ==> (#[trigger] entries[j]).id != id,
    ensures
        entry_of(entries, id, n) is None,
    decreases n,
{
    if n > 0 {
        lemma_no_entry(entries, id, n - 1);
        assert(entries[n - 1].id != id);
    }
}

} // verus!
