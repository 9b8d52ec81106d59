//! How long a search goes on, and which of several sampled positions each round
//! of iterations is played from.
use vstd::prelude::*;

verus! {

/// Iterations between two looks at the clock.
pub const ROUND: usize = 1000;

/// A search that has come to exactly this many visits at the end of a round has
/// seen enough.
pub const VISIT_CAP: u32 = 10_000_000;

/// What a search does next.
#[derive(Clone, Copy, Debug, PartialEq, Eq, Structural)]
pub enum Turn {
    /// One more iteration, or batch of iterations, from the sampled position of this
    /// number.
    Iterate(usize),
    Stop,
}

/// The progress of a search.
#[derive(Clone, Copy, Debug, PartialEq, Eq, Structural)]
pub struct Schedule {
    /// How many sampled positions take turns.
    pub n_states: usize,
    /// Iterations, or batches, in a round.
    pub per_round: usize,
    /// What is left of the current round.
    pub left: usize,
    pub state_idx: usize,
    pub started: bool,
}

/// How many iterations, or batches of the given size, make a round.
pub open spec fn round_length(batch_size: int) -> int {
    if batch_size > 1 {
        if ROUND as int / batch_size > 1 {
            ROUND as int / batch_size
        } else {
            1
        }
    } else {
        ROUND as int
    }
}

/// The position from which the next round is played.
pub open spec fn next_state(s: Schedule) -> int {
    if s.started {
        (s.state_idx + 1) % (s.n_states as int)
    } else {
        s.state_idx as int
    }
}

impl Schedule {
    /// Some round has an iteration in it, and the position exists.
    pub open spec fn wf(self) -> bool {
        &&& self.n_states > 0
        &&& self.per_round > 0
        &&& self.left < self.per_round
        &&& self.state_idx < self.n_states
    }

    /// What a search does next, and where that leaves it. Within a round it goes on
    /// from the same position. At the end of a round it stops when the time is up or
    /// it has seen enough, and else begins a round from the next position.
    pub open spec fn turns(
        self,
        time_is_up: bool,
        times_visited: u32,
        after: Schedule,
        r: Turn,
    ) -> bool {
        &&& after.n_states == self.n_states
        &&& after.per_round == self.per_round
        &&& if self.left > 0 {
            &&& r == Turn::Iterate(self.state_idx)
            &&& after.left == self.left - 1
            &&& after.state_idx == self.state_idx
            &&& after.started == self.started
        } else if time_is_up || (self.started && times_visited == VISIT_CAP) {
            r == Turn::Stop && after == self
        } else {
            &&& r == Turn::Iterate(next_state(self) as usize)
            &&& after.left == self.per_round - 1
            &&& after.state_idx == next_state(self)
            &&& after.started
        }
    }

    /// A search that has not begun, over `n_states` sampled positions.
    pub fn new(n_states: usize, batch_size: usize) -> (s: Schedule)
        requires
            n_states > 0,
        ensures
            s.wf(),
            s.n_states == n_states,
            s.per_round == round_length(batch_size as int),
            s.left == 0,
            s.state_idx == 0,
            !s.started,
    {
        let per_round: usize = if batch_size > 1 {
            if ROUND / batch_size > 1 {
                ROUND / batch_size
            } else {
                1
            }
        } else {
            ROUND
        };
        Schedule { n_states, per_round, left: 0, state_idx: 0, started: false }
    }

    /// What the search does next. The clock and the visits matter at the end of a
    /// round only.
    pub fn next(&mut self, time_is_up: bool, times_visited: u32) -> (r: Turn)
        requires
            old(self).wf(),
        ensures
            final(self).wf(),
            old(self).turns(time_is_up, times_visited, *final(self), r),
    {
        if self.left > 0 {
            self.left = self.left - 1;
            return Turn::Iterate(self.state_idx);
        }
        if time_is_up || (self.started && times_visited == VISIT_CAP) {
            return Turn::Stop;
        }
        if self.started {
            self.state_idx = (self.state_idx + 1) % self.n_states;
        }
        self.started = true;
        self.left = self.per_round - 1;
        Turn::Iterate(self.state_idx)
    }
}

/// The position from which round `r` is played, when the rounds follow one another
/// as in [`Schedule::next`].
pub open spec fn state_of_round(n_states: int, r: int) -> int
    decreases r,
{
    if r <= 0 {
        0
    } else {
        (state_of_round(n_states, r - 1) + 1) % n_states
    }
}

/// How many of the first `rounds` rounds are played from position `j`.
pub open spec fn rounds_from(n_states: int, rounds: int, j: int) -> int
    decreases rounds,
{
    if rounds <= 0 {
        0
    } else {
        rounds_from(n_states, rounds - 1, j) + if state_of_round(n_states, rounds - 1) == j {
            1int
        } else {
            0int
        }
    }
}

/// The rounds of a schedule are played from the positions that their numbers give.
pub proof fn law_rounds_follow_their_numbers(s: Schedule, r: int)
    requires
        s.wf(),
        r >= 0,
        s.state_idx == state_of_round(s.n_states as int, r),
    ensures
        s.started ==> next_state(s) == state_of_round(s.n_states as int, r + 1),
        !s.started ==> next_state(s) == state_of_round(s.n_states as int, r),
        state_of_round(s.n_states as int, 0) == 0,
{
}

proof fn lemma_state_of_round(n_states: int, r: int)
    requires
        n_states > 0,
        r >= 0,
    ensures
        state_of_round(n_states, r) == r % n_states,
    decreases r,
{
    if r > 0 {
        lemma_state_of_round(n_states, r - 1);
        vstd::arithmetic::div_mod::lemma_add_mod_noop(r - 1, 1, n_states);
        if n_states > 1 {
            vstd::arithmetic::div_mod::lemma_small_mod(1, n_states as nat);
        } else {
            vstd::arithmetic::div_mod::lemma_mod_bound((r - 1) % n_states + 1, n_states);
            vstd::arithmetic::div_mod::lemma_mod_bound(r, n_states);
        }
    } else {
        vstd::arithmetic::div_mod::lemma_small_mod(0, n_states as nat);
    }
}

/// How many visits an iteration, or a batch of the given size, adds.
pub open spec fn visits_per_turn(batch_size: int) -> int {
    if batch_size > 1 {
        batch_size
    } else {
        1
    }
}

/// The visits are where the schedule takes them to be: the current round will end on
/// a multiple of what a round adds, and single iterations will not have gone past
/// the cap by then.
pub open spec fn on_beat(s: Schedule, visits: int, batch_size: int) -> bool {
    let step = visits_per_turn(batch_size);
    &&& s.per_round == round_length(batch_size)
    &&& (visits + s.left * step) % (step * s.per_round) == 0
    &&& batch_size <= 1 ==> visits + s.left <= VISIT_CAP
    &&& !s.started ==> visits == 0 && s.left == 0
}

/// A search that has not begun is on its beat.
pub proof fn law_search_begins_on_its_beat(s: Schedule, batch_size: int)
    requires
        s.per_round == round_length(batch_size),
        s.left == 0,
        !s.started,
    ensures
        on_beat(s, 0, batch_size),
{
    let m = visits_per_turn(batch_size) * s.per_round;
    assert(m > 0) by (nonlinear_arith)
        requires
            m == visits_per_turn(batch_size) * s.per_round,
            visits_per_turn(batch_size) > 0,
            s.per_round > 0,
    ;
    assert(s.left * visits_per_turn(batch_size) == 0) by (nonlinear_arith)
        requires
            s.left == 0,
    ;
    vstd::arithmetic::div_mod::lemma_small_mod(0, m as nat);
}

/// A search keeps to its rounds: every turn that adds its visits leaves it on its
/// beat, so that it stops on a whole number of rounds, and single iterations never
/// visit the root more often than the cap allows.
pub proof fn law_visits_keep_to_rounds(
    before: Schedule,
    time_is_up: bool,
    times_visited: u32,
    after: Schedule,
    r: Turn,
    batch_size: int,
)
    requires
        before.wf(),
        on_beat(before, times_visited as int, batch_size),
        before.turns(time_is_up, times_visited, after, r),
    ensures
        r != Turn::Stop ==> on_beat(
            after,
            times_visited + visits_per_turn(batch_size),
            batch_size,
        ),
        r == Turn::Stop ==> times_visited as int % (visits_per_turn(batch_size)
            * before.per_round) == 0,
        batch_size <= 1 ==> times_visited <= VISIT_CAP,
{
    let step = visits_per_turn(batch_size);
    let m = step * before.per_round;
    let v = times_visited as int;
    if before.left > 0 {
        let left = before.left as int;
        assert(v + left * step == (v + step) + (left - 1) * step) by (nonlinear_arith);
    } else {
        assert(before.left * step == 0) by (nonlinear_arith)
            requires
                before.left == 0,
        ;
        let rest = before.per_round - 1;
        assert((v + step) + rest * step == v + m) by (nonlinear_arith)
            requires
                m == step * (rest + 1),
        ;
        assert(m > 0) by (nonlinear_arith)
            requires
                m == step * before.per_round,
                step > 0,
                before.per_round > 0,
        ;
        vstd::arithmetic::div_mod::lemma_mod_add_multiples_vanish(v, m);
        assert((v + m) % m == 0);
        if batch_size <= 1 {
            assert(m == ROUND);
            assert(v % 1000 == 0);
        }
        if r != Turn::Stop {
            assert(after.left * step == rest * step);
            assert(step * after.per_round == m);
        }
    }
}

/// The positions take turns, so all of them are covered equally: however many
/// rounds were played, no position had more than one round more than another.
pub proof fn law_positions_are_covered_equally(n_states: int, rounds: int, a: int, b: int)
    requires
        n_states > 0,
        rounds >= 0,
        0 <= a < n_states,
        0 <= b < n_states,
    ensures
        rounds_from(n_states, rounds, a) <= rounds_from(n_states, rounds, b) + 1,
        rounds % n_states == 0 ==> rounds_from(n_states, rounds, a) == rounds_from(
            n_states,
            rounds,
            b,
        ),
{
    lemma_rounds_from(n_states, rounds, a);
    lemma_rounds_from(n_states, rounds, b);
}

proof fn lemma_rounds_from(n_states: int, rounds: int, j: int)
    requires
        n_states > 0,
        rounds >= 0,
        0 <= j < n_states,
    ensures
        rounds_from(n_states, rounds, j) == rounds / n_states + if rounds % n_states > j {
            1int
        } else {
            0int
        },
    decreases rounds,
{
    if rounds == 0 {
        assert(0int / n_states == 0 && 0int % n_states == 0) by (nonlinear_arith)
            requires
                n_states > 0,
        ;
    } else {
        let m = rounds - 1;
        lemma_rounds_from(n_states, m, j);
        lemma_state_of_round(n_states, m);
        let q = m / n_states;
        let k = m % n_states;
        assert(m == q * n_states + k && 0 <= k < n_states) by (nonlinear_arith)
            requires
                n_states > 0,
                q == m / n_states,
                k == m % n_states,
        ;
        if k + 1 < n_states {
            vstd::arithmetic::div_mod::lemma_fundamental_div_mod_converse(
                rounds,
                n_states,
                q,
                k + 1,
            );
        } else {
            assert((q + 1) * n_states == q * n_states + n_states) by (nonlinear_arith);
            vstd::arithmetic::div_mod::lemma_fundamental_div_mod_converse(
                rounds,
                n_states,
                q + 1,
                0,
            );
        }
    }
}

} // verus!
