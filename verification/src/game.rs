//! Playing whole battles: when they end, which moves are played, which outcome
//! happens, and how many battles each player won.
use crate::mcts::leaf::Mixing;
use crate::mcts::node::{MctsSideResult, SCORE_ONE};
use crate::mcts::sampling::draw_bits;
#[allow(unused_imports)]
use crate::mcts::sampling::{random_bits, weight_sum};
use crate::state::MoveChoice;
use vstd::prelude::*;

verus! {

/// Result of a completed battle.
#[derive(Clone, Copy, Debug, PartialEq, Eq, Structural)]
pub struct GameResult {
    /// 1 = the first player won, -1 = the second player won, 0 = draw or timeout.
    pub winner: i8,
    /// Number of turns played.
    pub turns: u32,
}

/// Record of a single turn.
#[derive(Debug)]
pub struct TurnRecord {
    /// The position before the moves, written out.
    pub state_string: String,
    pub s1_move: String,
    /// How often the search visited each move of the first player.
    pub s1_visits: Vec<(String, u32)>,
    pub s2_move: String,
    /// How often the search visited each move of the second player.
    pub s2_visits: Vec<(String, u32)>,
}

/// Result of a recorded battle.
#[derive(Debug)]
pub struct RecordedGameResult {
    pub winner: i8,
    pub turns: Vec<TurnRecord>,
}

/// What a battle in progress is waiting for.
#[derive(Clone, Copy, Debug, PartialEq, Eq, Structural)]
pub enum GamePhase {
    /// Where the battle stands.
    Position,
    /// What both players found out in their searches.
    Search,
    /// The chances of the outcomes of the two moves.
    Outcomes,
    /// Nothing: the battle has ended.
    Over,
}

/// A battle in progress.
#[derive(Debug)]
pub struct Game {
    pub turn: u32,
    pub max_turns: u32,
    pub phase: GamePhase,
    /// What the players choose from this turn.
    pub s1_options: Vec<MoveChoice>,
    pub s2_options: Vec<MoveChoice>,
}

/// What happens in a battle.
#[derive(Debug)]
pub enum GameEvent {
    /// The winner, zero while there is none, and the moves that the players have.
    Position { battle_is_over: i8, s1_options: Vec<MoveChoice>, s2_options: Vec<MoveChoice> },
    /// What the search of each player found out about that player's moves.
    Searched { s1: Vec<MctsSideResult>, s2: Vec<MctsSideResult> },
    /// The chances of the outcomes of the two moves.
    Chances(Vec<u64>),
}

/// What is to be done next in a battle.
#[derive(Clone, Copy, Debug, PartialEq, Eq, Structural)]
pub enum GameAction {
    /// Let both players search.
    Search,
    /// Work out what can happen when these moves are played.
    Resolve { s1_move: MoveChoice, s2_move: MoveChoice },
    /// Let this outcome happen.
    Apply(usize),
    /// Stop.
    Finish(GameResult),
}

/// How a battle ends at the beginning of a turn, if it does: as a draw when all
/// turns are played, with its winner when it is over, and with what is known of the
/// winner when a player has nothing to choose from.
pub open spec fn ending(
    turn: u32,
    max_turns: u32,
    battle_is_over: i8,
    s1_options: int,
    s2_options: int,
) -> Option<GameResult> {
    if turn >= max_turns {
        Some(GameResult { winner: 0, turns: max_turns })
    } else if battle_is_over != 0 || s1_options == 0 || s2_options == 0 {
        Some(GameResult { winner: battle_is_over, turns: turn })
    } else {
        None
    }
}

/// The move of `results` that was visited most often, the last of them where
/// several were.
pub open spec fn most_visited(results: Seq<MctsSideResult>, r: int) -> bool {
    &&& 0 <= r < results.len()
    &&& forall|k: int|
        0 <= k < results.len() ==> (#[trigger] results[k]).visits <= results[r].visits
    &&& forall|k: int| r < k < results.len() ==> (#[trigger] results[k]).visits < results[r].visits
}

/// `m` is what a player plays: the most visited move, or the first of the options
/// where the search reports nothing.
pub open spec fn chosen(
    results: Seq<MctsSideResult>,
    options: Seq<MoveChoice>,
    m: MoveChoice,
) -> bool {
    if results.len() == 0 {
        m == options[0]
    } else {
        exists|k: int| #[trigger] most_visited(results, k) && m == results[k].move_choice
    }
}

/// Where the most visited move stands among the results.
fn most_visited_index(results: &Vec<MctsSideResult>) -> (r: usize)
    requires
        results@.len() > 0,
    ensures
        most_visited(results@, r as int),
{
    let mut best: usize = 0;
    let mut i: usize = 1;
    while i < results.len()
        invariant
            best < i <= results@.len(),
            forall|k: int|
                0 <= k < i ==> (#[trigger] results@[k]).visits <= results@[best as int].visits,
            forall|k: int|
                best < k < i ==> (#[trigger] results@[k]).visits < results@[best as int].visits,
        decreases results@.len() - i,
    {
        if results[i].visits >= results[best].visits {
            best = i;
        }
        i += 1;
    }
    best
}

/// The move that a player makes: the one that the search visited most often, the
/// last of them where several were. Where the search reports nothing, the first of
/// the options.
pub fn choose_move(results: &Vec<MctsSideResult>, options: &Vec<MoveChoice>) -> (r: MoveChoice)
    requires
        options@.len() > 0,
    ensures
        chosen(results@, options@, r),
{
    if results.len() == 0 {
        return options[0];
    }
    let best: usize = most_visited_index(results);
    results[best].move_choice
}

/// The chance of one of the first `n` outcomes.
pub open spec fn cumulative(chances: Seq<u64>, n: int) -> int {
    weight_sum(chances.take(n))
}

/// The outcome of a roll: the first one up to which the chances reach it. The roll
/// is `bits` parts in 2^24 of the whole.
pub open spec fn rolled(chances: Seq<u64>, bits: int, r: int) -> bool {
    &&& 0 <= r < chances.len()
    &&& bits * weight_sum(chances) <= cumulative(chances, r + 1) * 0x100_0000
    &&& forall|k: int|
        0 <= k < r ==> bits * weight_sum(chances) > #[trigger] cumulative(chances, k + 1)
            * 0x100_0000
}

/// Some roll has this outcome.
pub open spec fn can_be_rolled(chances: Seq<u64>, r: int) -> bool {
    exists|bits: int|
        0 <= bits && bits < 0x100_0000 && #[trigger] rolled(chances, bits, r)
}

/// A roll has this outcome whose 24 bits are the upper ones of 32 random bits.
pub open spec fn rolled_at_random(chances: Seq<u64>, r: int) -> bool {
    exists|word: u32| #[trigger] random_bits(word) && rolled(chances, (word / 256) as int, r)
}

proof fn lemma_weight_sum_grows(chances: Seq<u64>, n: int)
    requires
        0 <= n <= chances.len(),
    ensures
        0 <= cumulative(chances, n) <= weight_sum(chances),
        n < chances.len() ==> cumulative(chances, n + 1) == cumulative(chances, n) + chances[n],
    decreases chances.len() - n,
{
    lemma_weight_sum_nonneg(chances.take(n));
    if n < chances.len() {
        assert(chances.take(n + 1).drop_last() =~= chances.take(n));
        lemma_weight_sum_grows(chances, n + 1);
    } else {
        assert(chances.take(n) =~= chances);
    }
}

proof fn lemma_weight_sum_nonneg(chances: Seq<u64>)
    ensures
        weight_sum(chances) >= 0,
    decreases chances.len(),
{
    if chances.len() > 0 {
        lemma_weight_sum_nonneg(chances.drop_last());
    }
}

/// The outcome of a roll of `bits` parts in 2^24.
pub fn pick_outcome(chances: &[u64], bits: u32) -> (r: usize)
    requires
        chances@.len() > 0,
        weight_sum(chances@) <= u64::MAX,
        bits < 0x100_0000,
    ensures
        rolled(chances@, bits as int, r as int),
{
    let mut total: u64 = 0;
    let mut i: usize = 0;
    while i < chances.len()
        invariant
            i <= chances@.len(),
            weight_sum(chances@) <= u64::MAX,
            total == cumulative(chances@, i as int),
        decreases chances@.len() - i,
    {
        proof {
            lemma_weight_sum_grows(chances@, i as int);
            lemma_weight_sum_grows(chances@, i + 1);
        }
        total = total + chances[i];
        i += 1;
    }
    assert(chances@.take(i as int) =~= chances@);
    assert(bits * total <= 0xff_ffff * u64::MAX) by (nonlinear_arith)
        requires
            bits < 0x100_0000,
            total <= u64::MAX,
    ;
    let roll: u128 = bits as u128 * total as u128;
    let mut reached: u64 = 0;
    let mut k: usize = 0;
    while k < chances.len()
        invariant
            k <= chances@.len(),
            weight_sum(chances@) <= u64::MAX,
            total == weight_sum(chances@),
            roll == bits * total,
            reached == cumulative(chances@, k as int),
            forall|q: int|
                0 <= q < k ==> bits * weight_sum(chances@) > #[trigger] cumulative(chances@, q + 1)
                    * 0x100_0000,
        decreases chances@.len() - k,
    {
        proof {
            lemma_weight_sum_grows(chances@, k as int);
            lemma_weight_sum_grows(chances@, k + 1);
        }
        reached = reached + chances[k];
        if roll <= reached as u128 * 0x100_0000 {
            return k;
        }
        k += 1;
    }
    proof {
        let last = chances@.len() - 1;
        assert(chances@.take(last + 1) =~= chances@);
        assert(cumulative(chances@, last + 1) == total);
        assert(bits * total <= total * 0x100_0000) by (nonlinear_arith)
            requires
                bits < 0x100_0000,
                total >= 0,
        ;
        assert(false);
    }
    0
}

/// Rolls which of the outcomes happens; none when there are no outcomes.
pub fn roll_outcome(chances: &[u64]) -> (r: Option<usize>)
    requires
        weight_sum(chances@) <= u64::MAX,
    ensures
        r is None <==> chances@.len() == 0,
        r matches Some(i) ==> can_be_rolled(chances@, i as int),
        r matches Some(i) ==> rolled_at_random(chances@, i as int),
{
    if chances.len() == 0 {
        return None;
    }
    let word: u32 = draw_bits();
    let bits: u32 = word >> 8;
    assert(bits < 0x100_0000 && bits == word / 256) by (bit_vector)
        requires
            bits == word >> 8,
    ;
    let i: usize = pick_outcome(chances, bits);
    assert(rolled(chances@, bits as int, i as int));
    Some(i)
}

/// A roll above zero never picks an outcome that cannot happen.
pub proof fn law_impossible_outcomes_are_not_rolled(chances: Seq<u64>, bits: int, r: int)
    requires
        rolled(chances, bits, r),
        bits > 0,
        weight_sum(chances) > 0,
    ensures
        chances[r] > 0,
{
    lemma_weight_sum_grows(chances, r);
    if chances[r] == 0 {
        assert(bits * weight_sum(chances) > 0) by (nonlinear_arith)
            requires
                bits > 0,
                weight_sum(chances) > 0,
        ;
        if r > 0 {
            assert(cumulative(chances, (r - 1) + 1) == cumulative(chances, r));
        } else {
            assert(chances.take(0) =~= Seq::<u64>::empty());
        }
    }
}

/// Every outcome owns a share of the rolls as large as its chance: a roll picks it when
/// what it is of the whole lies above the chances of the outcomes before it, and goes up
/// to where its own chance ends. The lowest roll of all goes to the first outcome.
pub proof fn law_outcomes_own_their_share_of_the_rolls(
    chances: Seq<u64>,
    bits: int,
    r: int,
    whole: int,
    before: int,
)
    requires
        0 <= r < chances.len(),
        whole == weight_sum(chances) > 0,
        before == weight_sum(chances.take(r)),
        0 <= bits < 16777216,
    ensures
        bits > 0 ==> (rolled(chances, bits, r) <==> before * 16777216 < bits * whole
            && bits * whole <= (before + chances[r]) * 16777216),
        bits == 0 ==> (rolled(chances, bits, r) <==> r == 0),
{
    lemma_weight_sum_grows(chances, r);
    if bits == 0 {
        assert(bits * whole == 0);
        assert(cumulative(chances, r + 1) * 0x100_0000 >= 0);
        if r > 0 {
            lemma_weight_sum_grows(chances, 1);
            let z: int = 0;
            assert(cumulative(chances, z + 1) * 0x100_0000 >= 0);
            assert(!rolled(chances, bits, r));
        }
    } else {
        assert(bits * whole > 0) by (nonlinear_arith)
            requires
                bits > 0,
                whole > 0,
        ;
        if r == 0 {
            assert(chances.take(0) =~= Seq::<u64>::empty());
        }
        if rolled(chances, bits, r) && r > 0 {
            assert(bits * whole > cumulative(chances, (r - 1) + 1) * 0x100_0000);
        }
        if before * 16777216 < bits * whole && bits * whole <= (before + chances[r]) * 16777216 {
            assert forall|k: int| 0 <= k < r implies bits * whole > #[trigger] cumulative(
                chances,
                k + 1,
            ) * 0x100_0000 by {
                lemma_cumulative_order(chances, k + 1, r);
            }
        }
    }
}

proof fn lemma_cumulative_order(chances: Seq<u64>, a: int, b: int)
    requires
        0 <= a <= b <= chances.len(),
    ensures
        cumulative(chances, a) <= cumulative(chances, b),
    decreases b - a,
{
    if a < b {
        lemma_weight_sum_grows(chances, a);
        lemma_cumulative_order(chances, a + 1, b);
    }
}

/// A roll has one outcome.
pub proof fn law_a_roll_has_one_outcome(chances: Seq<u64>, bits: int, r: int, s: int)
    requires
        rolled(chances, bits, r),
        rolled(chances, bits, s),
    ensures
        r == s,
{
    if r < s {
        assert(bits * weight_sum(chances) > cumulative(chances, r + 1) * 0x100_0000);
    }
    if s < r {
        assert(bits * weight_sum(chances) > cumulative(chances, s + 1) * 0x100_0000);
    }
}

impl Game {
    /// While a turn is played, both players have something to choose from.
    pub open spec fn wf(self) -> bool {
        self.phase == GamePhase::Search || self.phase == GamePhase::Outcomes ==> {
            &&& self.turn < self.max_turns
            &&& self.s1_options@.len() > 0
            &&& self.s2_options@.len() > 0
        }
    }

    /// The event is what the battle is waiting for.
    pub open spec fn expects(self, event: GameEvent) -> bool {
        match event {
            GameEvent::Position { .. } => self.phase == GamePhase::Position,
            GameEvent::Searched { .. } => self.phase == GamePhase::Search,
            GameEvent::Chances(chances) => self.phase == GamePhase::Outcomes && weight_sum(chances@)
                <= u64::MAX,
        }
    }

    /// What an event leads to.
    pub open spec fn leads_to(self, event: GameEvent, after: Game, action: GameAction) -> bool {
        &&& after.max_turns == self.max_turns
        &&& match event {
            GameEvent::Position { battle_is_over, s1_options, s2_options } => {
                &&& after.turn == self.turn
                &&& match ending(
                    self.turn,
                    self.max_turns,
                    battle_is_over,
                    s1_options@.len() as int,
                    s2_options@.len() as int,
                ) {
                    Some(end) => action == GameAction::Finish(end) && after.phase
                        == GamePhase::Over,
                    None => {
                        &&& action == GameAction::Search
                        &&& after.phase == GamePhase::Search
                        &&& after.s1_options == s1_options
                        &&& after.s2_options == s2_options
                    },
                }
            },
            GameEvent::Searched { s1, s2 } => {
                &&& after.turn == self.turn
                &&& after.phase == GamePhase::Outcomes
                &&& action matches GameAction::Resolve { s1_move, s2_move } && chosen(
                    s1@,
                    self.s1_options@,
                    s1_move,
                ) && chosen(s2@, self.s2_options@, s2_move)
            },
            GameEvent::Chances(chances) => if chances@.len() == 0 {
                &&& after.turn == self.turn
                &&& after.phase == GamePhase::Over
                &&& action == GameAction::Finish(GameResult { winner: 0, turns: self.turn })
            } else {
                &&& after.turn == self.turn + 1
                &&& after.phase == GamePhase::Position
                &&& action matches GameAction::Apply(i) && can_be_rolled(chances@, i as int)
                    && rolled_at_random(chances@, i as int)
            },
        }
    }

    /// A battle that has not begun.
    pub fn new(max_turns: u32) -> (g: Game)
        ensures
            g.wf(),
            g.turn == 0,
            g.max_turns == max_turns,
            g.phase == GamePhase::Position,
    {
        Game {
            turn: 0,
            max_turns,
            phase: GamePhase::Position,
            s1_options: Vec::new(),
            s2_options: Vec::new(),
        }
    }

    /// Takes in what happened and says what is to be done next. The battle ends as a
    /// draw when all turns are played and when the moves have no outcome; with its
    /// winner when it is over; and with what is known of the winner when a player has
    /// nothing to choose from.
    pub fn advance(&mut self, event: GameEvent) -> (action: GameAction)
        requires
            old(self).wf(),
            old(self).expects(event),
        ensures
            final(self).wf(),
            old(self).leads_to(event, *final(self), action),
            action matches GameAction::Finish(end) ==> end.turns <= old(self).max_turns,
    {
        match event {
            GameEvent::Position { battle_is_over, s1_options, s2_options } => {
                if self.turn >= self.max_turns {
                    self.phase = GamePhase::Over;
                    return GameAction::Finish(GameResult { winner: 0, turns: self.max_turns });
                }
                if battle_is_over != 0 || s1_options.len() == 0 || s2_options.len() == 0 {
                    self.phase = GamePhase::Over;
                    return GameAction::Finish(
                        GameResult { winner: battle_is_over, turns: self.turn },
                    );
                }
                self.s1_options = s1_options;
                self.s2_options = s2_options;
                self.phase = GamePhase::Search;
                GameAction::Search
            },
            GameEvent::Searched { s1, s2 } => {
                let s1_move = choose_move(&s1, &self.s1_options);
                let s2_move = choose_move(&s2, &self.s2_options);
                self.phase = GamePhase::Outcomes;
                GameAction::Resolve { s1_move, s2_move }
            },
            GameEvent::Chances(chances) => {
                match roll_outcome(chances.as_slice()) {
                    None => {
                        self.phase = GamePhase::Over;
                        GameAction::Finish(GameResult { winner: 0, turns: self.turn })
                    },
                    Some(i) => {
                        self.turn = self.turn + 1;
                        self.phase = GamePhase::Position;
                        GameAction::Apply(i)
                    },
                }
            },
        }
    }
}

/// `visits` are the names of the moves with their visits, in the order of the
/// results.
pub open spec fn lists_visits(
    names: Seq<String>,
    results: Seq<MctsSideResult>,
    visits: Seq<(String, u32)>,
) -> bool {
    &&& visits.len() == results.len()
    &&& forall|k: int|
        0 <= k < visits.len() ==> (#[trigger] visits[k]).0 == names[k] && visits[k].1
            == results[k].visits
}

/// `name` is that of the most visited move.
pub open spec fn names_choice(
    names: Seq<String>,
    results: Seq<MctsSideResult>,
    name: String,
) -> bool {
    exists|k: int| #[trigger] most_visited(results, k) && name == names[k]
}

/// The names of the moves with their visits, in the order of the results.
pub fn visit_counts(names: Vec<String>, results: &Vec<MctsSideResult>) -> (r: Vec<(String, u32)>)
    requires
        names@.len() == results@.len(),
    ensures
        lists_visits(names@, results@, r@),
{
    let mut r: Vec<(String, u32)> = Vec::new();
    let ghost all = names@;
    for name in it: names.into_iter()
        invariant
            it.seq() == all,
            all.len() == results@.len(),
            r@.len() == it.index(),
            forall|k: int|
                0 <= k < r@.len() ==> (#[trigger] r@[k]).0 == all[k] && r@[k].1
                    == results@[k].visits,
    {
        let i: usize = r.len();
        r.push((name, results[i].visits));
    }
    r
}

/// The record of a turn: the position before the moves, and for each player the
/// name of the most visited move and the names of all moves with their visits. The
/// names stand in the order of the results.
pub fn record_turn(
    state_string: String,
    s1_names: Vec<String>,
    s1: &Vec<MctsSideResult>,
    s2_names: Vec<String>,
    s2: &Vec<MctsSideResult>,
) -> (r: TurnRecord)
    requires
        s1_names@.len() == s1@.len() > 0,
        s2_names@.len() == s2@.len() > 0,
    ensures
        r.state_string == state_string,
        names_choice(s1_names@, s1@, r.s1_move),
        lists_visits(s1_names@, s1@, r.s1_visits@),
        names_choice(s2_names@, s2@, r.s2_move),
        lists_visits(s2_names@, s2@, r.s2_visits@),
{
    let first: usize = most_visited_index(s1);
    let second: usize = most_visited_index(s2);
    let s1_move = s1_names[first].clone();
    let s2_move = s2_names[second].clone();
    TurnRecord {
        state_string,
        s1_move,
        s1_visits: visit_counts(s1_names, s1),
        s2_move,
        s2_visits: visit_counts(s2_names, s2),
    }
}

/// One move is the most visited: the move that is played and the name that is
/// recorded belong together.
pub proof fn law_one_move_is_most_visited(results: Seq<MctsSideResult>, a: int, b: int)
    requires
        most_visited(results, a),
        most_visited(results, b),
    ensures
        a == b,
{
    if a < b {
        assert(results[b].visits < results[a].visits);
    }
    if b < a {
        assert(results[a].visits < results[b].visits);
    }
}

/// Which networks take part in a battle.
#[derive(Clone, Copy, Debug, PartialEq, Eq, Structural)]
pub enum GameKind {
    /// None.
    Plain,
    /// A policy network.
    Policy,
    /// A policy network and a value network.
    PolicyAndValue,
}

/// What guides the search of a player.
#[derive(Clone, Copy, Debug, PartialEq, Eq, Structural)]
pub enum Guidance {
    /// Nothing but the evaluation.
    Plain,
    /// The priors of a policy network.
    Priors,
    /// The priors of a policy network, and a value network that is asked about
    /// `batch_size` leaves at once.
    PriorsAndValue { mix: Mixing, batch_size: usize },
}

/// What guides the search of a player: networks help the first player only. A value
/// network takes the place of the evaluation, and is asked about one leaf at a time.
pub open spec fn guided_by(kind: GameKind, first_player: bool) -> Guidance {
    if !first_player {
        Guidance::Plain
    } else {
        match kind {
            GameKind::Plain => Guidance::Plain,
            GameKind::Policy => Guidance::Priors,
            GameKind::PolicyAndValue => Guidance::PriorsAndValue {
                mix: Mixing { alpha: SCORE_ONE as i64, residual: false },
                batch_size: 1,
            },
        }
    }
}

/// What guides the search of a player.
pub fn guidance(kind: GameKind, first_player: bool) -> (r: Guidance)
    ensures
        r == guided_by(kind, first_player),
{
    if !first_player {
        return Guidance::Plain;
    }
    match kind {
        GameKind::Plain => Guidance::Plain,
        GameKind::Policy => Guidance::Priors,
        GameKind::PolicyAndValue => Guidance::PriorsAndValue {
            mix: Mixing { alpha: SCORE_ONE as i64, residual: false },
            batch_size: 1,
        },
    }
}

/// How many of the battles had the given kind of winner: the first player for a
/// positive sign, the second player for a negative one, nobody for zero.
pub open spec fn won(winners: Seq<i8>, sign: int) -> int
    decreases winners.len(),
{
    if winners.len() == 0 {
        0
    } else {
        won(winners.drop_last(), sign) + if sign_of(winners.last()) == sign {
            1int
        } else {
            0int
        }
    }
}

/// The sign of a result.
pub open spec fn sign_of(w: i8) -> int {
    if w > 0 {
        1
    } else if w < 0 {
        -1
    } else {
        0
    }
}

/// Counts the battles that the first player won, that the second player won, and
/// that nobody won.
pub fn tally(winners: &[i8]) -> (r: (u32, u32, u32))
    requires
        winners@.len() <= u32::MAX,
    ensures
        r.0 == won(winners@, 1),
        r.1 == won(winners@, -1),
        r.2 == won(winners@, 0),
        r.0 + r.1 + r.2 == winners@.len(),
{
    let mut s1_wins: u32 = 0;
    let mut s2_wins: u32 = 0;
    let mut draws: u32 = 0;
    let mut i: usize = 0;
    while i < winners.len()
        invariant
            i <= winners@.len() <= u32::MAX,
            s1_wins == won(winners@.take(i as int), 1),
            s2_wins == won(winners@.take(i as int), -1),
            draws == won(winners@.take(i as int), 0),
            s1_wins + s2_wins + draws == i,
        decreases winners@.len() - i,
    {
        assert(winners@.take(i + 1).drop_last() =~= winners@.take(i as int));
        let w: i8 = winners[i];
        if w > 0 {
            s1_wins = s1_wins + 1;
        } else if w < 0 {
            s2_wins = s2_wins + 1;
        } else {
            draws = draws + 1;
        }
        i += 1;
    }
    assert(winners@.take(i as int) =~= winners@);
    (s1_wins, s2_wins, draws)
}

/// When the players change seats, wins and losses change places.
pub proof fn law_changing_seats_swaps_the_tally(winners: Seq<i8>, mirrored: Seq<i8>)
    requires
        winners.len() == mirrored.len(),
        forall|k: int| 0 <= k < winners.len() ==> #[trigger] mirrored[k] == -winners[k],
    ensures
        won(mirrored, 1) == won(winners, -1),
        won(mirrored, -1) == won(winners, 1),
        won(mirrored, 0) == won(winners, 0),
    decreases winners.len(),
{
    if winners.len() > 0 {
        let a = winners.drop_last();
        let b = mirrored.drop_last();
        assert forall|k: int| 0 <= k < a.len() implies #[trigger] b[k] == -a[k] by {
            assert(mirrored[k] == -winners[k]);
        }
        law_changing_seats_swaps_the_tally(a, b);
        assert(mirrored[winners.len() - 1] == -winners[winners.len() - 1]);
    }
}

/// A battle whose turns are all played is a draw after that many; one that is over ends
/// with its winner, and one in which a player has nothing to choose from with what is
/// known of the winner, after the turns played so far; any other goes on.
pub proof fn law_battles_end_with_their_winner(
    g: Game,
    battle_is_over: i8,
    s1_options: Vec<MoveChoice>,
    s2_options: Vec<MoveChoice>,
    after: Game,
    action: GameAction,
)
    requires
        g.leads_to(
            GameEvent::Position { battle_is_over, s1_options, s2_options },
            after,
            action,
        ),
    ensures
        g.turn >= g.max_turns ==> action == GameAction::Finish(
            GameResult { winner: 0, turns: g.max_turns },
        ),
        g.turn < g.max_turns && (battle_is_over != 0 || s1_options@.len() == 0 || s2_options@.len()
            == 0) ==> action == GameAction::Finish(
            GameResult { winner: battle_is_over, turns: g.turn },
        ),
        g.turn < g.max_turns && battle_is_over == 0 && s1_options@.len() > 0
            && s2_options@.len() > 0
            ==> action == GameAction::Search && after.s1_options == s1_options && after.s2_options
            == s2_options,
        after.turn == g.turn,
{
}

/// Each player makes the move that was visited most often in that player's own search; of
/// several such moves the last.
pub proof fn law_players_make_their_most_visited_move(
    g: Game,
    s1: Vec<MctsSideResult>,
    s2: Vec<MctsSideResult>,
    after: Game,
    action: GameAction,
    i: int,
    j: int,
)
    requires
        g.leads_to(GameEvent::Searched { s1, s2 }, after, action),
        0 <= i < s1@.len(),
        0 <= j < s2@.len(),
        forall|k: int| 0 <= k < s1@.len() ==> (#[trigger] s1@[k]).visits <= s1@[i].visits,
        forall|k: int| i < k < s1@.len() ==> (#[trigger] s1@[k]).visits < s1@[i].visits,
        forall|k: int| 0 <= k < s2@.len() ==> (#[trigger] s2@[k]).visits <= s2@[j].visits,
        forall|k: int| j < k < s2@.len() ==> (#[trigger] s2@[k]).visits < s2@[j].visits,
    ensures
        action == (GameAction::Resolve {
            s1_move: s1@[i].move_choice,
            s2_move: s2@[j].move_choice,
        }),
{
    let a = choose|k: int|
        #[trigger] most_visited(s1@, k) && action->s1_move == s1@[k].move_choice;
    let b = choose|k: int|
        #[trigger] most_visited(s2@, k) && action->s2_move == s2@[k].move_choice;
    law_one_move_is_most_visited(s1@, a, i);
    law_one_move_is_most_visited(s2@, b, j);
}

/// A turn counts as soon as an outcome happens; moves without an outcome end the battle as
/// a draw.
pub proof fn law_turns_count_when_something_happens(
    g: Game,
    chances: Vec<u64>,
    after: Game,
    action: GameAction,
)
    requires
        g.leads_to(GameEvent::Chances(chances), after, action),
    ensures
        chances@.len() > 0 ==> after.turn == g.turn + 1 && action is Apply,
        chances@.len() == 0 ==> after.turn == g.turn && action == GameAction::Finish(
            GameResult { winner: 0, turns: g.turn },
        ),
{
}

/// Only the first player is helped by networks. A value network takes the place of the
/// evaluation altogether, and is asked about one leaf at a time.
pub proof fn law_networks_help_the_first_player_only(kind: GameKind)
    ensures
        guided_by(kind, false) == Guidance::Plain,
        guided_by(GameKind::Plain, true) == Guidance::Plain,
        guided_by(GameKind::Policy, true) == Guidance::Priors,
        guided_by(GameKind::PolicyAndValue, true) == (Guidance::PriorsAndValue {
            mix: Mixing { alpha: 4294967296, residual: false },
            batch_size: 1,
        }),
{
}

/// One more battle adds one to the count of its kind of winner and nothing to the others.
pub proof fn law_battles_are_counted_once(winners: Seq<i8>, w: i8)
    ensures
        won(winners.push(w), 1) == won(winners, 1) + (if w > 0 {
            1int
        } else {
            0int
        }),
        won(winners.push(w), -1) == won(winners, -1) + (if w < 0 {
            1int
        } else {
            0int
        }),
        won(winners.push(w), 0) == won(winners, 0) + (if w == 0 {
            1int
        } else {
            0int
        }),
        won(Seq::<i8>::empty(), 1) == 0,
        won(Seq::<i8>::empty(), -1) == 0,
        won(Seq::<i8>::empty(), 0) == 0,
{
    assert(winners.push(w).drop_last() =~= winners);
}

/// The record of a turn names for each player the most visited move, the last of several,
/// and lists every name with its own visits.
pub proof fn law_records_name_the_move_made(
    names: Seq<String>,
    results: Seq<MctsSideResult>,
    name: String,
    visits: Seq<(String, u32)>,
    i: int,
    k: int,
)
    requires
        names.len() == results.len(),
        names_choice(names, results, name),
        lists_visits(names, results, visits),
        0 <= i < results.len(),
        0 <= k < results.len(),
        forall|j: int| 0 <= j < results.len()
            ==> (#[trigger] results[j]).visits <= results[i].visits,
        forall|j: int| i < j < results.len() ==> (#[trigger] results[j]).visits < results[i].visits,
    ensures
        name == names[i],
        visits.len() == results.len(),
        visits[k] == (names[k], results[k].visits),
{
    let a = choose|j: int| #[trigger] most_visited(results, j) && name == names[j];
    law_one_move_is_most_visited(results, a, i);
}

} // verus!
