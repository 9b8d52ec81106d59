//! What single steps of the search come to.
#[allow(unused_imports)]
use crate::mcts::batch::{answer, batch_action, entry, Batch, Stranded};
#[allow(unused_imports)]
use crate::mcts::descent::{steps, Event, Phase, Step};
#[allow(unused_imports)]
use crate::mcts::leaf::{leaf_score, wants_heuristic, wants_value, Mixing};
#[allow(unused_imports)]
use crate::mcts::node::{
    effective_visits, guided_options, mean, prior_fits, puct_of, reported, ucb_of, MoveNode,
    NodeModel, Puct, Ucb,
};
#[allow(unused_imports)]
use crate::mcts::path::{
    lemma_next_step, lemma_on_path_bound, lemma_path_up, lemma_root_most_visited, node_ok, on_path,
    tree_ok,
};
#[allow(unused_imports)]
use crate::mcts::schedule::{round_length, Schedule, Turn};
#[allow(unused_imports)]
use crate::mcts::tree::{best_move, first_best, first_untried, selects, way_up, Selected};
#[allow(unused_imports)]
use crate::mcts::update::{backed_up, backed_up_node};
#[allow(unused_imports)]
use crate::numbers::{over, Ratio};
#[allow(unused_imports)]
use crate::state::MoveChoice;
use vstd::prelude::*;

verus! {

proof fn lemma_times(n: int, d: int)
    requires
        d > 0,
    ensures
        over(n, d) * d as real == n as real,
{
    let (x, y) = (n as real, d as real);
    assert((x / y) * y == x) by (nonlinear_arith)
        requires
            y > 0 as real,
    ;
}

/// The mean in a bound, times the visits and the selections in flight, is the score that
/// the move has earned, where a sure win is 2^32. The exploring part, times one more than
/// these, is twice the prior. A move that was never picked starts from one half.
pub proof fn law_bounds_are_made_of_means_and_priors(m: MoveNode, u: Ucb, p: Puct)
    requires
        prior_fits(m.prior),
    ensures
        ({
            let n = m.visits + m.pending_visits;
            &&& ucb_of(m, u) && n > 0 ==> u.visits == n && u.mean@ * (4294967296 * n) as real
                == m.total_score as real
            &&& puct_of(m, p) ==> p.weight@ * (1 + n) as real == 2 as real * m.prior@
            &&& puct_of(m, p) && n == 0 ==> p.q@ == 1 as real / 2 as real
            &&& puct_of(m, p) && n > 0 ==> p.q@ * (4294967296 * n) as real == m.total_score as real
        }),
{
    let n = m.visits + m.pending_visits;
    if n > 0 {
        lemma_times(m.total_score as int, 4294967296 * n);
    }
    let (a, b, c): (real, real, real) = (
        m.prior.num as real,
        m.prior.den as real,
        (1 + n) as real,
    );
    let den: int = m.prior.den * (1 + n);
    assert(den as real == b * c) by (nonlinear_arith)
        requires
            den == m.prior.den * (1 + n),
            b == m.prior.den as real,
            c == (1 + n) as real,
    ;
    assert(((2 as real * a) / (b * c)) * c == 2 as real * (a / b)) by (nonlinear_arith)
        requires
            b > 0 as real,
            c > 0 as real,
    ;
    assert(over(1, 2) == 1 as real / 2 as real);
}

/// Without priors a move that was never picked, by a visit or in flight, is taken before
/// any other, and the first of them before the rest. Otherwise no move has a higher score
/// than the one that is taken, and none before it has the same.
pub proof fn law_the_best_move_is_taken(
    options: Seq<MoveNode>,
    use_priors: bool,
    scores: Seq<i64>,
    r: int,
    k: int,
)
    requires
        best_move(options, use_priors, scores, r),
        options.len() == scores.len(),
        0 <= k < options.len(),
    ensures
        !use_priors && options[k].visits + options[k].pending_visits == 0 ==> r <= k
            && options[r].visits + options[r].pending_visits == 0,
        (use_priors || forall|j: int|
            0 <= j < options.len() ==> (#[trigger] options[j]).visits + options[j].pending_visits
                > 0) && scores[k] > i64::MIN ==> 0 <= r < scores.len() && scores[k] <= scores[r]
                    && (k
            < r ==> scores[k] < scores[r]),
{
    if !use_priors && options[k].visits + options[k].pending_visits == 0 {
        assert(effective_visits(options[k]) == 0);
        assert(first_untried(options, r));
    }
    if (use_priors || forall|j: int|
        0 <= j < options.len() ==> (#[trigger] options[j]).visits + options[j].pending_visits > 0)
        && scores[k] > i64::MIN {
        assert(!(!use_priors && exists|j: int|
            0 <= j < options.len() && effective_visits(#[trigger] options[j]) == 0));
        assert(first_best(scores, r));
        assert(scores[k] != i64::MIN);
    }
}

/// A result at a leaf goes up the way that led there: every position on the way is visited
/// once more, the move of the first player on it earns the result, and that of the second
/// player what is missing to a sure win; all other moves there keep what they have.
pub proof fn law_results_go_up_the_way<I>(
    nodes: Seq<NodeModel<I>>,
    leaf: int,
    score: int,
    release: bool,
    c: int,
    i: int,
)
    requires
        tree_ok(nodes),
        0 <= leaf < nodes.len(),
        0 <= score <= 4294967296,
        nodes[0].times_visited < u32::MAX,
        0 < c,
        on_path(nodes, c, leaf),
    ensures
        ({
            let after = backed_up(nodes, leaf, score, release);
            let p = nodes[c].parent;
            let (s, t) = (nodes[p].s1_options->0, nodes[p].s2_options->0);
            let (u, v) = (after[p].s1_options->0, after[p].s2_options->0);
            &&& after[leaf].times_visited == nodes[leaf].times_visited + 1
            &&& after[p].times_visited == nodes[p].times_visited + 1
            &&& u.len() == s.len() && v.len() == t.len()
            &&& 0 <= i < s.len() ==> u[i].total_score == s[i].total_score + (if i
                == nodes[c].s1_choice {
                score
            } else {
                0
            }) && u[i].visits == s[i].visits + (if i == nodes[c].s1_choice {
                1int
            } else {
                0
            })
            &&& 0 <= i < t.len() ==> v[i].total_score == t[i].total_score + (if i
                == nodes[c].s2_choice {
                4294967296 - score
            } else {
                0
            }) && v[i].visits == t[i].visits + (if i == nodes[c].s2_choice {
                1int
            } else {
                0
            })
        }),
{
    let p = nodes[c].parent;
    lemma_on_path_bound(nodes, c, leaf);
    lemma_path_up(nodes, c, leaf);
    assert(node_ok(nodes, c));
    assert(node_ok(nodes, p));
    lemma_root_most_visited(nodes, p);
    let (s, t) = (nodes[p].s1_options->0, nodes[p].s2_options->0);
    let (x, y) = (nodes[c].s1_choice, nodes[c].s2_choice);
    assert(s[x].wf() && s[x].visits <= nodes[p].times_visited);
    assert(t[y].wf() && t[y].visits <= nodes[p].times_visited);
    assert(on_path(nodes, leaf, leaf));
}

/// Positions off the way to a leaf learn nothing from its result.
pub proof fn law_results_stay_on_the_way<I>(
    nodes: Seq<NodeModel<I>>,
    leaf: int,
    score: int,
    release: bool,
    k: int,
)
    requires
        0 <= leaf < nodes.len(),
        0 <= k < nodes.len(),
        !on_path(nodes, k, leaf),
    ensures
        backed_up(nodes, leaf, score, release)[k] == nodes[k],
{
    lemma_next_step(nodes, k, leaf);
    assert(backed_up_node(nodes, k, leaf, score, release) =~= nodes[k]);
}

/// A round has a thousand iterations; with batches it has as many of them as fit into a
/// thousand iterations, but at least one.
pub proof fn law_rounds_have_a_thousand_iterations(batch_size: int)
    ensures
        batch_size <= 1 ==> round_length(batch_size) == 1000,
        1 < batch_size <= 1000 ==> round_length(batch_size) * batch_size <= 1000 < (round_length(
            batch_size,
        ) + 1) * batch_size,
        batch_size > 500 ==> round_length(batch_size) == 1,
{
    if batch_size > 1 {
        let q = 1000int / batch_size;
        assert(q * batch_size <= 1000 < (q + 1) * batch_size) by (nonlinear_arith)
            requires
                q == 1000int / batch_size,
                batch_size > 1,
        ;
        if batch_size <= 1000 {
            assert(q >= 1) by (nonlinear_arith)
                requires
                    1000 < (q + 1) * batch_size,
                    1 < batch_size <= 1000,
            ;
        }
        if batch_size > 500 {
            assert(q <= 1) by (nonlinear_arith)
                requires
                    q * batch_size <= 1000,
                    batch_size > 500,
            ;
        }
    }
}

/// At the end of a round a search stops when the time is up and, once it has begun, when
/// it has come to exactly ten million visits; otherwise it goes on.
pub proof fn law_searches_stop_at_ten_million_visits(
    s: Schedule,
    time_is_up: bool,
    times_visited: u32,
    after: Schedule,
    r: Turn,
)
    requires
        s.turns(time_is_up, times_visited, after, r),
    ensures
        s.left > 0 ==> r is Iterate,
        s.left == 0 ==> (r is Stop <==> time_is_up || (s.started && times_visited == 10000000)),
{
}

/// A battle that is over is worth 2^32 when the first player has won, and nothing when it
/// has lost, whatever the estimates say.
pub proof fn law_won_battles_are_worth_all(mix: Mixing, value: int, heuristic: int)
    ensures
        leaf_score(1, mix, value, heuristic) == 4294967296,
        leaf_score(-1, mix, value, heuristic) == 0,
{
}

/// While a battle goes on, the network's estimate enters by its weight and the evaluation
/// by the rest, as parts of 2^32, and what is left over is dropped.
pub proof fn law_estimates_enter_by_their_weight(mix: Mixing, value: int, heuristic: int, r: int)
    requires
        !mix.residual,
        r == leaf_score(0, mix, value, heuristic),
    ensures
        mix.alpha >= 4294967296 ==> r == value,
        mix.alpha <= 0 ==> r == heuristic,
        0 < mix.alpha < 4294967296 ==> r * 4294967296 <= mix.alpha * value + (4294967296
            - mix.alpha) * heuristic < (r + 1) * 4294967296,
{
}

/// As a correction, the estimate moves the evaluation by its weight times twice what it is
/// above one half, but not beyond a sure loss or a sure win.
pub proof fn law_estimates_correct_by_their_weight(mix: Mixing, value: int, heuristic: int, r: int)
    requires
        mix.residual,
        r == leaf_score(0, mix, value, heuristic),
    ensures
        ({
            let x = heuristic * 4294967296 + mix.alpha * (2 * value - 4294967296);
            &&& x < 0 ==> r == 0
            &&& x > 4294967296 * 4294967296 ==> r == 4294967296
            &&& 0 <= x <= 4294967296 * 4294967296 ==> r * 4294967296 <= x < (r + 1) * 4294967296
        }),
{
}

/// The tree does not grow where the battle is over, unless at the root, nor where neither
/// player can do anything. Where it grows, damage rolls are told apart at the root and at
/// the positions right below it.
pub proof fn law_trees_grow_while_the_battle_goes_on<I>(
    before: Seq<NodeModel<I>>,
    at: usize,
    s1: usize,
    s2: usize,
    over: bool,
    count_in_flight: bool,
    after: Seq<NodeModel<I>>,
    r: Step,
)
    requires
        steps(
            before,
            Phase::NeedOver { at, s1, s2 },
            Event::Over(over),
            count_in_flight,
            after,
            r,
        ),
    ensures
        after == before,
        r.entered is None,
        ({
            let nothing = (before[at as int].s1_options->0)[s1 as int].move_choice
                == MoveChoice::NoMove && (before[at as int].s2_options->0)[s2 as int].move_choice
                == MoveChoice::NoMove;
            &&& nothing ==> r.phase == (Phase::Landed { leaf: at, parent: at, s1, s2 })
            &&& over && at != 0 ==> r.phase == (Phase::Landed { leaf: at, parent: at, s1, s2 })
            &&& !nothing && (!over || at == 0) ==> r.phase == (Phase::NeedOutcomes {
                at,
                s1,
                s2,
                branch_on_damage: at == 0 || before[at as int].parent == 0,
            })
        }),
{
}

/// Listing the moves of a position gives each player the moves that were named for that
/// player, in their order, all equally likely and none of them tried, and changes no other
/// position.
pub proof fn law_listed_moves_are_fresh<I>(
    before: Seq<NodeModel<I>>,
    at: usize,
    s1: Vec<MoveChoice>,
    s2: Vec<MoveChoice>,
    count_in_flight: bool,
    after: Seq<NodeModel<I>>,
    r: Step,
    i: int,
    k: int,
)
    requires
        at < before.len(),
        steps(before, Phase::NeedMoves(at), Event::Moves(s1, s2), count_in_flight, after, r),
    ensures
        r.phase == Phase::NeedScores(at),
        after.len() == before.len(),
        0 <= k < before.len() && k != at ==> after[k] == before[k],
        after[at as int].s1_options matches Some(l) && l.len() == s1@.len() && (0 <= i < l.len()
            ==> l[i].move_choice == s1@[i] && l[i].visits == 0 && l[i].pending_visits == 0
            && l[i].total_score == 0 && l[i].prior@ * s1@.len() as real == 1 as real),
        after[at as int].s2_options matches Some(l) && l.len() == s2@.len() && (0 <= i < l.len()
            ==> l[i].move_choice == s2@[i] && l[i].visits == 0 && l[i].pending_visits == 0
            && l[i].total_score == 0 && l[i].prior@ * s2@.len() as real == 1 as real),
{
    assert(s1.len() == s1@.len() && s2.len() == s2@.len());
    if 0 <= i < s1@.len() {
        lemma_times(1, s1@.len() as int);
    }
    if 0 <= i < s2@.len() {
        lemma_times(1, s2@.len() as int);
    }
}

/// The moves of a tree that is guided by priors have these priors, in their order; where
/// they run out, all moves count as equally likely.
pub proof fn law_moves_have_the_priors_given(
    choices: Seq<MoveChoice>,
    priors: Seq<Ratio>,
    i: int,
)
    requires
        0 <= i < choices.len() <= usize::MAX,
    ensures
        guided_options(choices, priors).len() == choices.len(),
        guided_options(choices, priors)[i].move_choice == choices[i],
        guided_options(choices, priors)[i].visits == 0,
        guided_options(choices, priors)[i].total_score == 0,
        i < priors.len() ==> guided_options(choices, priors)[i].prior == priors[i],
        i >= priors.len() ==> guided_options(choices, priors)[i].prior@ * choices.len() as real
            == 1 as real,
{
    lemma_times(1, choices.len() as int);
}

/// What is reported of a move are the move, the score that it has earned and the visits
/// that came back, not those in flight.
pub proof fn law_reports_tell_what_came_back(m: MoveNode)
    ensures
        reported(m).move_choice == m.move_choice,
        reported(m).total_score == m.total_score,
        reported(m).visits == m.visits,
{
}

/// The way up from a leaf starts at the leaf, goes from each position to its parent, and
/// ends right below the root.
pub proof fn law_the_way_up_goes_by_parents<I>(nodes: Seq<NodeModel<I>>, leaf: int, k: int)
    requires
        tree_ok(nodes),
        0 <= leaf < nodes.len() <= usize::MAX,
    ensures
        leaf == 0 ==> way_up(nodes, leaf).len() == 0,
        leaf > 0 ==> way_up(nodes, leaf).len() > 0 && way_up(nodes, leaf)[0] == leaf,
        0 <= k < way_up(nodes, leaf).len() ==> way_up(nodes, leaf)[k] > 0 && nodes[way_up(
            nodes,
            leaf,
        )[k] as int].parent == (if k + 1 < way_up(nodes, leaf).len() {
            way_up(nodes, leaf)[k + 1] as int
        } else {
            0
        }),
    decreases leaf,
{
    assert(node_ok(nodes, leaf));
    if leaf > 0 {
        let up = nodes[leaf].parent;
        law_the_way_up_goes_by_parents(nodes, up, k - 1);
        let w = way_up(nodes, up);
        assert(way_up(nodes, leaf) == seq![leaf as usize] + w);
        if k > 0 && k < w.len() + 1 {
            assert(way_up(nodes, leaf)[k] == w[k - 1]);
        }
    }
}

/// Both players pick by the scores of their own moves. When the pair that they pick has
/// outcomes in the tree, the descent enters one of these.
pub proof fn law_players_pick_by_their_own_scores<I>(
    before: Seq<NodeModel<I>>,
    at: usize,
    s1_scores: Vec<i64>,
    s2_scores: Vec<i64>,
    count_in_flight: bool,
    after: Seq<NodeModel<I>>,
    r: Step,
    c: usize,
)
    requires
        steps(
            before,
            Phase::NeedScores(at),
            Event::Scores(s1_scores, s2_scores),
            count_in_flight,
            after,
            r,
        ),
        r.entered == Some(c),
    ensures
        at < c < before.len(),
        before[c as int].parent == at,
        best_move(
            before[at as int].s1_options->0,
            before[at as int].use_priors,
            s1_scores@,
            before[c as int].s1_choice,
        ),
        best_move(
            before[at as int].s2_options->0,
            before[at as int].use_priors,
            s2_scores@,
            before[c as int].s2_choice,
        ),
{
    let sel = choose|sel: Selected|
        {
            &&& #[trigger] selects(before, at as int, s1_scores@, s2_scores@, sel)
            &&& sel.child == Some(c)
        };
    assert(before[c as int].parent == at);
}

/// A batch makes all its descents first, asks the network once if any of them left a
/// question, and settles in the end.
pub proof fn law_batches_go_in_order(size: int, made: int, questions: int, answered: bool)
    ensures
        batch_action(size, made, questions, answered) is Descend <==> made < size,
        batch_action(size, made, questions, answered) is Ask <==> made >= size && questions > 0
            && !answered,
        batch_action(size, made, questions, answered) is Settle <==> made >= size && (questions <= 0
            || answered),
{
}

/// The answers of the network find back to the leaves that were asked about: the answer in
/// place `v` is that of the descent whose number stands in place `v` among the questions.
pub proof fn law_answers_find_their_leaves(b: Batch, values: Seq<u64>, v: int)
    requires
        b.wf(),
        0 <= v < b.eval_idxs@.len(),
        values.len() == b.eval_idxs@.len(),
    ensures
        answer(b.pending@[b.eval_idxs@[v] as int], values) == values[v],
{
    assert(b.eval_idxs.len() == b.eval_idxs@.len());
    assert(b.eval_idxs@[v] < b.pending@.len());
}

/// A descent that grew nothing leaves its last pair of moves to be given up by itself; a
/// descent into a new leaf does not. The network is asked while the battle goes on and the
/// estimate has a weight or is a correction.
pub proof fn law_batches_remember_their_descents(
    parent: usize,
    s1: usize,
    s2: usize,
    leaf: usize,
    battle_outcome: i8,
    mix: Mixing,
    asked: int,
)
    requires
        0 <= asked <= usize::MAX,
    ensures
        ({
            let e = entry(parent, s1, s2, leaf, battle_outcome, mix, asked);
            &&& e.leaf == leaf
            &&& e.battle_outcome == battle_outcome
            &&& leaf != parent ==> e.no_child is None
            &&& leaf == parent ==> e.no_child == Some(Stranded { at: parent, s1, s2 })
            &&& battle_outcome == 0 && (mix.alpha > 0 || mix.residual) ==> e.value_idx == Some(
                asked as usize,
            )
            &&& battle_outcome != 0 || (mix.alpha <= 0 && !mix.residual) ==> e.value_idx is None
        }),
{
}

/// Once a battle is over neither estimate is wanted. Before that, the network's is wanted
/// as soon as it has a weight or is a correction, and the evaluation unless the network's
/// estimate has all the weight.
pub proof fn law_estimates_are_wanted_where_they_count(battle_is_over: int, mix: Mixing)
    ensures
        battle_is_over != 0 ==> !wants_value(battle_is_over, mix) && !wants_heuristic(
            battle_is_over,
            mix,
        ),
        wants_value(0, mix) <==> mix.residual || mix.alpha > 0,
        wants_heuristic(0, mix) <==> mix.residual || mix.alpha < 4294967296,
{
}

} // verus!
