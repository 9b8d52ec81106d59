//! The search tree, descents, batches and schedules.
use battle_search::mcts::batch::{settle, Batch, BatchAction, Pending, Stranded};
use battle_search::mcts::descent::{advance, start, Event, Phase};
use battle_search::mcts::leaf::{needs_heuristic, needs_value, rollout, score_leaf, Mixing};
use battle_search::mcts::node::{Bound, MctsSideResult, MoveNode, Node, StateInstructions, SCORE_ONE};
use battle_search::mcts::schedule::{Schedule, Turn, VISIT_CAP};
use battle_search::mcts::tree::Tree;
use battle_search::numbers::Ratio;
use battle_search::state::MoveChoice;

fn two() -> Vec<MoveChoice> {
    vec![MoveChoice::Move(0), MoveChoice::Move(1)]
}

fn outcome(percentage: u64, tag: u32) -> StateInstructions<u32> {
    StateInstructions { percentage, instruction_list: vec![tag] }
}

fn fraction(r: Ratio) -> f64 {
    r.num as f64 / r.den as f64
}

/// Runs one descent with fixed scores and outcomes, and says where it landed.
fn descend(tree: &mut Tree<u32>, s1: &[i64], s2: &[i64], count: bool) -> (usize, usize, usize, usize) {
    let mut phase = start(tree);
    loop {
        let event = match phase {
            Phase::NeedMoves(_) => Event::Moves(two(), two()),
            Phase::NeedScores(_) => Event::Scores(s1.to_vec(), s2.to_vec()),
            Phase::NeedOver { .. } => Event::Over(false),
            Phase::NeedOutcomes { .. } => Event::Outcomes(vec![outcome(0, 7), outcome(100, 8)]),
            Phase::Landed { leaf, parent, s1, s2 } => return (leaf, parent, s1, s2),
        };
        phase = advance(tree, phase, event, count).phase;
    }
}

fn pending_total(tree: &Tree<u32>) -> u32 {
    (0..tree.len())
        .map(|k| {
            let n = tree.node(k);
            let sum = |l: &Option<Vec<MoveNode>>| {
                l.iter().flatten().map(|m| m.pending_visits).sum::<u32>()
            };
            sum(&n.s1_options) + sum(&n.s2_options)
        })
        .sum()
}

#[test]
fn new_tree_knows_nothing() {
    let tree: Tree<u32> = Tree::new(&two(), &vec![MoveChoice::NoMove]);
    assert_eq!(tree.len(), 1);
    let root = tree.node(0);
    assert!(root.root && !root.use_priors && root.times_visited == 0);
    let s1 = root.s1_options.as_ref().unwrap();
    assert_eq!(s1.len(), 2);
    assert_eq!(s1[1].prior, Ratio { num: 1, den: 2 });
    assert_eq!(root.s2_options.as_ref().unwrap()[0].prior, Ratio { num: 1, den: 1 });
}

#[test]
fn priors_are_taken_as_far_as_they_reach() {
    let given = [Ratio { num: 9, den: 10 }];
    let tree: Tree<u32> = Tree::with_priors(&two(), &two(), &given, &[]);
    let root = tree.node(0);
    assert!(root.use_priors);
    assert_eq!(root.s1_options.as_ref().unwrap()[0].prior, Ratio { num: 9, den: 10 });
    assert_eq!(root.s1_options.as_ref().unwrap()[1].prior, Ratio { num: 1, den: 2 });
    assert_eq!(root.s2_options.as_ref().unwrap()[0].prior, Ratio { num: 1, den: 2 });
}

#[test]
fn priors_count_only_where_both_players_have_them() {
    let given = [Ratio { num: 9, den: 10 }, Ratio { num: 1, den: 10 }];
    let first = |p1: Option<&[Ratio]>, p2: Option<&[Ratio]>| {
        let tree: Tree<u32> = Tree::with_optional_priors(&two(), &two(), p1, p2);
        let root = tree.node(0);
        let prior = |l: &Option<Vec<MoveNode>>| fraction(l.as_ref().unwrap()[0].prior);
        (root.use_priors, prior(&root.s1_options), prior(&root.s2_options))
    };
    assert_eq!(first(Some(&given), Some(&given)), (true, 0.9, 0.9));
    assert_eq!(first(Some(&given), None), (false, 0.5, 0.5));
    assert_eq!(first(None, Some(&given)), (false, 0.5, 0.5));
    assert_eq!(first(None, None), (false, 0.5, 0.5));
}

#[test]
fn first_of_the_best_scores_wins() {
    let tried = |visits: u32, pending_visits: u32| MoveNode {
        visits,
        pending_visits,
        ..MoveNode::new(MoveChoice::Move(0), Ratio { num: 1, den: 4 })
    };
    let all = vec![tried(1, 0); 4];
    let best = |moves: &[MoveNode], priors: bool, scores: &[i64]| {
        Node::<u32>::maximize_ucb_for_side(moves, priors, scores)
    };
    assert_eq!(best(&all, false, &[3, 9, 9, 4]), 1);
    assert_eq!(best(&all[..2], false, &[i64::MIN, i64::MIN]), 0);
    assert_eq!(best(&all[..2], true, &[i64::MIN, -5]), 1);
    assert_eq!(best(&[], true, &[]), 0);
    let some = [tried(2, 0), tried(0, 1), tried(0, 0), tried(0, 0)];
    assert_eq!(best(&some, false, &[9, 8, 0, 7]), 2);
    assert_eq!(best(&some, true, &[1, 8, 0, 7]), 1);
}

#[test]
fn descents_grow_the_tree_and_never_draw_what_cannot_happen() {
    let mut tree: Tree<u32> = Tree::new(&two(), &two());
    let expected = [((0, 0), 1), ((1, 1), 1), ((1, 0), 1), ((0, 0), 2), ((1, 1), 2), ((1, 0), 2)];
    for round in 0..20usize {
        let (leaf, parent, s1, s2) = descend(&mut tree, &[0, 5], &[8, 1], false);
        assert_eq!(tree.node(leaf).parent, parent);
        assert_eq!(tree.node(leaf).instructions.percentage, 100);
        assert_eq!(tree.node(leaf).instructions.instruction_list, vec![8]);
        let way = tree.backpropagate(leaf, SCORE_ONE);
        assert_eq!(way[0], leaf);
        if round < expected.len() {
            assert_eq!(((s1, s2), way.len()), expected[round]);
        }
    }
    let result = tree.result();
    assert_eq!(result.iteration_count, 20);
    assert_eq!((result.s1[0].visits, result.s1[1].visits), (1, 19));
    assert_eq!(result.s1[1].total_score, 19 * SCORE_ONE);
    assert_eq!((result.s2[0].visits, result.s2[1].visits), (19, 1));
    assert_eq!(result.s2[0].total_score, 0);
}

#[test]
fn draws_are_made_by_chance() {
    let mut seen = [false; 2];
    for _ in 0..200 {
        let mut tree: Tree<u32> = Tree::new(&two(), &two());
        let child = tree.expand(0, 0, 0, vec![outcome(50, 1), outcome(50, 2)]);
        seen[child - 1] = true;
    }
    assert!(seen[0] && seen[1]);
}

#[test]
fn results_are_zero_sum() {
    let mut tree: Tree<u32> = Tree::new(&two(), &two());
    for k in 0..6u64 {
        let (leaf, _, _, _) = descend(&mut tree, &[(k % 2) as i64, 1], &[1, (k % 3) as i64], false);
        tree.backpropagate(leaf, k * SCORE_ONE / 8);
    }
    for k in 0..tree.len() {
        let n = tree.node(k);
        if let (Some(l1), Some(l2)) = (&n.s1_options, &n.s2_options) {
            let v1: u64 = l1.iter().map(|m| m.visits as u64).sum();
            let v2: u64 = l2.iter().map(|m| m.visits as u64).sum();
            let t1: u64 = l1.iter().map(|m| m.total_score).sum();
            let t2: u64 = l2.iter().map(|m| m.total_score).sum();
            assert_eq!(v1, v2);
            assert_eq!(t1 + t2, v1 * SCORE_ONE);
            for (i, m) in l1.iter().enumerate() {
                let below: u32 = (1..tree.len())
                    .filter(|&c| tree.node(c).parent == k && tree.node(c).s1_choice == i)
                    .map(|c| tree.node(c).times_visited)
                    .sum();
                assert_eq!(m.visits, below);
            }
        }
    }
}

#[test]
fn nothing_grows_after_the_end_or_without_moves() {
    let mut tree: Tree<u32> = Tree::new(&two(), &two());
    let child = tree.expand(0, 0, 0, vec![outcome(100, 1)]);
    tree.populate(child, &two(), &vec![MoveChoice::NoMove]);
    assert_eq!(tree.expansion(0, 0, 1, true), Some(true));
    assert_eq!(tree.expansion(child, 0, 0, true), None);
    assert_eq!(tree.expansion(child, 0, 0, false), Some(true));
    let grandchild = tree.expand(child, 0, 0, vec![outcome(100, 2)]);
    tree.populate(grandchild, &vec![MoveChoice::NoMove], &vec![MoveChoice::NoMove]);
    assert_eq!(tree.expansion(grandchild, 0, 0, false), None);
    let mut deep: Tree<u32> = Tree::new(&two(), &two());
    let a = deep.expand(0, 0, 0, vec![outcome(1, 1)]);
    deep.populate(a, &two(), &two());
    let b = deep.expand(a, 0, 0, vec![outcome(1, 1)]);
    deep.populate(b, &two(), &two());
    assert_eq!(deep.expansion(b, 0, 0, false), Some(false));
}

#[test]
fn settled_batches_leave_nothing_in_flight() {
    let mut tree: Tree<u32> = Tree::new(&two(), &two());
    let mix = Mixing { alpha: SCORE_ONE as i64 / 2, residual: false };
    let mut batch = Batch::new();
    for k in 0..4i64 {
        let (leaf, parent, s1, s2) = descend(&mut tree, &[k % 2, 1], &[0, 1], true);
        let over = if k == 3 { 1 } else { 0 };
        batch.record(parent, s1, s2, leaf, over, mix);
    }
    assert!(pending_total(&tree) > 0);
    assert_eq!(batch.eval_idxs, vec![0, 1, 2]);
    assert_eq!(batch.pending[3].value_idx, None);
    settle(&mut tree, &batch, mix, &[SCORE_ONE, 0, SCORE_ONE / 2], &[0, 0, SCORE_ONE, 5]);
    assert_eq!(pending_total(&tree), 0);
    assert_eq!(tree.node(0).times_visited, 4);
    let root = tree.node(0);
    let total: u64 = root.s1_options.as_ref().unwrap().iter().map(|m| m.total_score).sum();
    assert_eq!(total, SCORE_ONE / 2 + 0 + SCORE_ONE * 3 / 4 + SCORE_ONE);
}

#[test]
fn whole_batches_ask_once_and_settle() {
    for (alpha, asks) in [(SCORE_ONE as i64, 1), (0, 0)] {
        let mix = Mixing { alpha, residual: false };
        let mut tree: Tree<u32> = Tree::new(&two(), &two());
        let mut batch = Batch::new();
        let mut values: Option<Vec<u64>> = None;
        let mut asked = 0;
        loop {
            match batch.next_action(3, values.is_some()) {
                BatchAction::Descend => {
                    let k = batch.pending.len() as i64;
                    let (leaf, parent, s1, s2) = descend(&mut tree, &[k, 1], &[1, k], true);
                    batch.record(parent, s1, s2, leaf, 0, mix);
                }
                BatchAction::Ask => {
                    asked += 1;
                    values = Some(vec![SCORE_ONE / 4; batch.eval_idxs.len()]);
                }
                BatchAction::Settle => break,
            }
        }
        assert_eq!(asked, asks);
        assert_eq!(batch.pending.len(), 3);
        settle(&mut tree, &batch, mix, &values.unwrap_or_default(), &[SCORE_ONE / 2; 3]);
        assert_eq!(pending_total(&tree), 0);
        assert_eq!(tree.node(0).times_visited, 3);
    }
}

#[test]
fn stranded_selections_are_given_up() {
    let mut tree: Tree<u32> = Tree::new(&two(), &two());
    let child = tree.expand(0, 0, 0, vec![outcome(100, 1)]);
    let mix = Mixing { alpha: 0, residual: false };
    let mut batch = Batch::new();
    let mut phase = start(&tree);
    loop {
        let event = match phase {
            Phase::NeedMoves(_) => Event::Moves(two(), two()),
            Phase::NeedScores(_) => Event::Scores(vec![1, 0], vec![1, 0]),
            Phase::NeedOver { .. } => Event::Over(true),
            Phase::NeedOutcomes { .. } => unreachable!(),
            Phase::Landed { leaf, parent, s1, s2 } => {
                assert_eq!((leaf, parent), (child, child));
                batch.record(parent, s1, s2, leaf, -1, mix);
                break;
            }
        };
        phase = advance(&mut tree, phase, event, true).phase;
    }
    assert_eq!(
        batch.pending[0],
        Pending {
            leaf: child,
            no_child: Some(Stranded { at: child, s1: 0, s2: 0 }),
            battle_outcome: -1,
            value_idx: None,
        }
    );
    assert_eq!(pending_total(&tree), 4);
    settle(&mut tree, &batch, mix, &[], &[0]);
    assert_eq!(pending_total(&tree), 0);
    assert_eq!(tree.node(child).times_visited, 1);
    assert_eq!(tree.node(0).s2_options.as_ref().unwrap()[0].total_score, SCORE_ONE);
}

#[test]
fn leaves_are_scored_by_outcome_network_and_evaluation() {
    let one = SCORE_ONE;
    assert_eq!(rollout(0), None);
    assert_eq!(rollout(1), Some(one));
    assert_eq!(rollout(-1), Some(0));
    let blend = |alpha| Mixing { alpha, residual: false };
    let fix = |alpha| Mixing { alpha, residual: true };
    assert_eq!(score_leaf(-1, blend(5), one, one), 0);
    assert_eq!(score_leaf(0, blend(one as i64), one / 4, one), one / 4);
    assert_eq!(score_leaf(0, blend(0), one, one / 8), one / 8);
    assert_eq!(score_leaf(0, blend(one as i64 / 4), one, 0), one / 4);
    assert_eq!(score_leaf(0, fix(one as i64), one / 2, one / 3), one / 3);
    assert_eq!(score_leaf(0, fix(one as i64), one, one / 3), one);
    assert_eq!(score_leaf(0, fix(one as i64), 0, one / 3), 0);
    assert_eq!(score_leaf(0, fix(one as i64 / 8), one, one / 2), one / 2 + one / 8);
    assert!(needs_value(0, blend(1)) && !needs_value(0, blend(0)) && needs_value(0, fix(0)));
    assert!(!needs_value(1, fix(0)) && !needs_heuristic(-1, blend(0)));
    assert!(needs_heuristic(0, blend(0)) && !needs_heuristic(0, blend(one as i64)));
    assert!(needs_heuristic(0, fix(one as i64)));
}

#[test]
fn bounds_are_made_of_exact_parts() {
    let mut m = MoveNode::new(MoveChoice::Move(0), Ratio { num: 1, den: 4 });
    assert_eq!(m.ucb1(), None);
    assert_eq!(m.average_score(), None);
    assert_eq!(m.puct().q, Ratio { num: 1, den: 2 });
    assert_eq!(fraction(m.puct().weight), 0.5);
    m.visits = 2;
    m.total_score = SCORE_ONE;
    assert_eq!(fraction(m.average_score().unwrap()), 0.5);
    assert_eq!(fraction(m.ucb1().unwrap().mean), 0.5);
    m.pending_visits = 2;
    let u = m.ucb1().unwrap();
    assert_eq!((u.visits, fraction(u.mean)), (4, 0.25));
    assert_eq!(fraction(m.puct().q), 0.25);
    assert_eq!(fraction(m.puct().weight), 0.1);
    let r = MctsSideResult { move_choice: MoveChoice::NoMove, total_score: 0, visits: 0 };
    assert_eq!(fraction(r.average_score()), 0.0);
    let r = MctsSideResult { move_choice: MoveChoice::NoMove, total_score: 3 * SCORE_ONE, visits: 4 };
    assert_eq!(fraction(r.average_score()), 0.75);
}

#[test]
fn positions_tell_the_parts_of_their_bounds() {
    let plain: Tree<u32> = Tree::new(&two(), &two());
    assert_eq!(plain.bounds(0), (vec![Bound::Untried; 2], vec![Bound::Untried; 2]));
    let given = [Ratio { num: 3, den: 4 }, Ratio { num: 1, den: 4 }];
    let guided: Tree<u32> = Tree::with_priors(&two(), &two(), &given, &given);
    match guided.bounds(0).0[0] {
        Bound::Guided(p) => assert_eq!((fraction(p.q), fraction(p.weight)), (0.5, 1.5)),
        other => panic!("{:?}", other),
    }
    let m = MoveNode {
        visits: 3,
        pending_visits: 1,
        total_score: 2 * SCORE_ONE,
        ..MoveNode::new(MoveChoice::Move(0), given[0])
    };
    match m.bound(false) {
        Bound::Upper(u) => assert_eq!((fraction(u.mean), u.visits), (0.5, 4)),
        other => panic!("{:?}", other),
    }
}

#[test]
fn searches_stop_on_whole_rounds_and_at_the_cap() {
    let mut s = Schedule::new(1, 1);
    let mut visits: u32 = 0;
    while let Turn::Iterate(_) = s.next(visits >= 2500, visits) {
        visits += 1;
    }
    assert_eq!(visits, 3000);
    let mut s = Schedule::new(1, 64);
    let mut visits: u32 = 0;
    while let Turn::Iterate(_) = s.next(visits >= 1000, visits) {
        visits += 64;
    }
    assert_eq!(visits, 2 * 15 * 64);
    let mut s = Schedule::new(1, 1);
    let mut visits: u32 = 0;
    while let Turn::Iterate(_) = s.next(false, visits) {
        visits += 1;
    }
    assert_eq!(visits, VISIT_CAP);
}

#[test]
fn rounds_are_of_a_thousand_and_states_take_turns() {
    let mut s = Schedule::new(3, 1);
    let mut used = [0usize; 3];
    for _ in 0..7000 {
        match s.next(false, 0) {
            Turn::Iterate(k) => used[k] += 1,
            Turn::Stop => panic!("stopped early"),
        }
    }
    assert_eq!(used, [3000, 2000, 2000]);
    assert_eq!(s.next(true, 0), Turn::Stop);
    let mut cap = Schedule::new(1, 1);
    assert_eq!(cap.next(false, VISIT_CAP), Turn::Iterate(0));
    for _ in 1..1000 {
        assert_eq!(cap.next(true, VISIT_CAP), Turn::Iterate(0));
    }
    assert_eq!(cap.next(false, VISIT_CAP), Turn::Stop);
    assert_eq!(Schedule::new(1, 64).per_round, 15);
    assert_eq!(Schedule::new(1, 5000).per_round, 1);
    assert_eq!(Schedule::new(1, 0).per_round, 1000);
}
