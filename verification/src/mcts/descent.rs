//! A descent through the tree as a sequence of questions and answers. The search
//! decides; whoever runs it knows the rules of the battle and answers.
#[allow(unused_imports)]
use crate::mcts::flight::{
    aloft, balanced, is_aloft, law_descent_keeps_its_reservations, law_growing_reserves_nothing,
    law_listing_moves_reserves_nothing, law_selection_reserves_what_it_picks, Flight,
};
#[allow(unused_imports)]
use crate::mcts::node::{plain_options, MoveNode, NodeModel};
use crate::mcts::node::StateInstructions;
#[allow(unused_imports)]
use crate::mcts::path::{has_move, move_at, node_ok, tree_ok};
#[allow(unused_imports)]
use crate::mcts::sampling::{drawable, drawn};
use crate::mcts::tree::Tree;
#[allow(unused_imports)]
use crate::mcts::tree::{selectable, selects, Selected};
#[allow(unused_imports)]
use crate::mcts::update::{
    attached, has_group, held, lemma_attached_ok, lemma_populated_ok, lemma_with_pair_ok,
    outcome_chances, populated, reserved,
};
use crate::state::MoveChoice;
use vstd::prelude::*;

verus! {

/// Where a descent stands, and what it has to be told to go on.
#[derive(Clone, Copy, Debug, PartialEq, Eq, Structural)]
pub enum Phase {
    /// Which moves are there at this node?
    NeedMoves(usize),
    /// How good do the moves at this node look?
    NeedScores(usize),
    /// The pair of moves was never played here. Is the battle over?
    NeedOver { at: usize, s1: usize, s2: usize },
    /// What can happen when this pair of moves is played? Damage rolls are told
    /// apart when `branch_on_damage` is set.
    NeedOutcomes { at: usize, s1: usize, s2: usize, branch_on_damage: bool },
    /// The descent has ended at `leaf`. Where the tree did not grow this is the node
    /// `parent` itself, at which the pair of moves was picked.
    Landed { leaf: usize, parent: usize, s1: usize, s2: usize },
}

/// An answer to the question that a descent asks.
#[derive(Debug)]
pub enum Event<I> {
    Moves(Vec<MoveChoice>, Vec<MoveChoice>),
    /// Scores that order the moves as their bounds do.
    Scores(Vec<i64>, Vec<i64>),
    Over(bool),
    Outcomes(Vec<StateInstructions<I>>),
}

/// A step of a descent. When it entered a node, what led there happens now.
#[derive(Clone, Copy, Debug, PartialEq, Eq, Structural)]
pub struct Step {
    pub phase: Phase,
    pub entered: Option<usize>,
}

/// Where a descent stands that has come to node `at`.
pub open spec fn arrival<I>(nodes: Seq<NodeModel<I>>, at: usize) -> Phase {
    if nodes[at as int].s1_options is None {
        Phase::NeedMoves(at)
    } else {
        Phase::NeedScores(at)
    }
}

/// The pair of moves exists at node `at`.
pub open spec fn pair_exists<I>(nodes: Seq<NodeModel<I>>, at: usize, s1: usize, s2: usize) -> bool {
    &&& has_move(nodes, true, at as int, s1 as int)
    &&& has_move(nodes, false, at as int, s2 as int)
}

/// The descent can stand there in this tree.
pub open spec fn phase_ok<I>(nodes: Seq<NodeModel<I>>, phase: Phase) -> bool {
    match phase {
        Phase::NeedMoves(at) => at < nodes.len() && nodes[at as int].s1_options is None,
        Phase::NeedScores(at) => at < nodes.len() && nodes[at as int].s1_options is Some,
        Phase::NeedOver { at, s1, s2 } => pair_exists(nodes, at, s1, s2) && !has_group(
            nodes[at as int].children,
            s1 as int,
            s2 as int,
        ),
        Phase::NeedOutcomes { at, s1, s2, branch_on_damage } => pair_exists(nodes, at, s1, s2)
            && !has_group(nodes[at as int].children, s1 as int, s2 as int),
        Phase::Landed { leaf, parent, s1, s2 } => {
            &&& leaf < nodes.len()
            &&& pair_exists(nodes, parent, s1, s2)
            &&& leaf != parent ==> leaf > 0 && nodes[leaf as int].parent == parent
                && nodes[leaf as int].s1_choice == s1 && nodes[leaf as int].s2_choice == s2
        },
    }
}

/// The descent as it counts among those in flight.
pub open spec fn flight_at(phase: Phase) -> Flight {
    match phase {
        Phase::NeedMoves(at) => Flight { leaf: at as int, stranded: None },
        Phase::NeedScores(at) => Flight { leaf: at as int, stranded: None },
        Phase::NeedOver { at, s1, s2 } => Flight {
            leaf: at as int,
            stranded: Some((s1 as int, s2 as int)),
        },
        Phase::NeedOutcomes { at, s1, s2, branch_on_damage } => Flight {
            leaf: at as int,
            stranded: Some((s1 as int, s2 as int)),
        },
        Phase::Landed { leaf, parent, s1, s2 } => Flight {
            leaf: leaf as int,
            stranded: if leaf == parent {
                Some((s1 as int, s2 as int))
            } else {
                None
            },
        },
    }
}

/// One more selection can be counted at every move of node `at`.
pub open spec fn countable<I>(nodes: Seq<NodeModel<I>>, at: int) -> bool {
    forall|first_player: bool, i: int|
        #![trigger move_at(nodes, first_player, at, i)]
        has_move(nodes, first_player, at, i) ==> move_at(nodes, first_player, at, i).pending_visits
            < u32::MAX
}

/// The event answers the question.
pub open spec fn answers<I>(
    nodes: Seq<NodeModel<I>>,
    phase: Phase,
    event: Event<I>,
    count_in_flight: bool,
) -> bool {
    match (phase, event) {
        (Phase::NeedMoves(at), Event::Moves(s1, s2)) => true,
        (Phase::NeedScores(at), Event::Scores(s1, s2)) => {
            &&& selectable(nodes, at as int, s1@, s2@)
            &&& count_in_flight ==> countable(nodes, at as int)
        },
        (Phase::NeedOver { .. }, Event::Over(_)) => true,
        (Phase::NeedOutcomes { .. }, Event::Outcomes(list)) => {
            &&& drawable(outcome_chances(list@))
            &&& nodes.len() + list@.len() <= usize::MAX
        },
        _ => false,
    }
}

/// What one step of a descent does to the tree, and where it leads.
pub open spec fn steps<I>(
    before: Seq<NodeModel<I>>,
    phase: Phase,
    event: Event<I>,
    count_in_flight: bool,
    after: Seq<NodeModel<I>>,
    r: Step,
) -> bool {
    match (phase, event) {
        (Phase::NeedMoves(at), Event::Moves(s1, s2)) => {
            &&& after == populated(before, at as int, plain_options(s1@), plain_options(s2@))
            &&& r == (Step { phase: Phase::NeedScores(at), entered: None })
        },
        (Phase::NeedScores(at), Event::Scores(s1, s2)) => exists|sel: Selected|
            {
                &&& #[trigger] selects(before, at as int, s1@, s2@, sel)
                &&& after == if count_in_flight {
                    held(before, at as int, sel.s1 as int, sel.s2 as int)
                } else {
                    before
                }
                &&& r == match sel.child {
                    Some(c) => Step { phase: arrival(before, c), entered: Some(c) },
                    None => Step {
                        phase: Phase::NeedOver { at, s1: sel.s1, s2: sel.s2 },
                        entered: None,
                    },
                }
            },
        (Phase::NeedOver { at, s1, s2 }, Event::Over(over)) => {
            &&& after == before
            &&& r.entered is None
            &&& r.phase == if (over && at != 0) || (move_at(
                before,
                true,
                at as int,
                s1 as int,
            ).move_choice == MoveChoice::NoMove && move_at(
                before,
                false,
                at as int,
                s2 as int,
            ).move_choice == MoveChoice::NoMove) {
                Phase::Landed { leaf: at, parent: at, s1, s2 }
            } else {
                Phase::NeedOutcomes {
                    at,
                    s1,
                    s2,
                    branch_on_damage: at == 0 || before[at as int].parent == 0,
                }
            }
        },
        (Phase::NeedOutcomes { at, s1, s2, .. }, Event::Outcomes(list)) => {
            &&& after == attached(before, at as int, s1, s2, list@)
            &&& r.entered matches Some(c) && before.len() <= c < after.len()
                && after[c as int].percentage > 0 && drawn(
                outcome_chances(list@),
                c - before.len(),
            ) && r.phase == (Phase::Landed {
                leaf: c,
                parent: at,
                s1,
                s2,
            })
        },
        _ => false,
    }
}

/// Where a descent starts: at the root.
pub fn start<I>(tree: &Tree<I>) -> (phase: Phase)
    requires
        tree_ok(tree@),
    ensures
        phase == arrival(tree@, 0),
        phase_ok(tree@, phase),
        flight_at(phase) == (Flight { leaf: 0, stranded: None }),
{
    arrive(tree, 0)
}

fn arrive<I>(tree: &Tree<I>, at: usize) -> (phase: Phase)
    requires
        at < tree@.len(),
    ensures
        phase == arrival(tree@, at),
        phase_ok(tree@, phase),
{
    if tree.node(at).s1_options.is_none() {
        Phase::NeedMoves(at)
    } else {
        Phase::NeedScores(at)
    }
}

/// A step leaves every other descent where it is.
pub proof fn lemma_step_keeps_aloft<I>(
    before: Seq<NodeModel<I>>,
    phase: Phase,
    event: Event<I>,
    count_in_flight: bool,
    after: Seq<NodeModel<I>>,
    r: Step,
    others: Seq<Flight>,
)
    requires
        phase_ok(before, phase),
        steps(before, phase, event, count_in_flight, after, r),
        aloft(before, others),
    ensures
        aloft(after, others),
{
    match (phase, event) {
        (Phase::NeedScores(at), Event::Scores(s1, s2)) => {
            let sel = choose|sel: Selected|
                {
                    &&& #[trigger] selects(before, at as int, s1@, s2@, sel)
                    &&& after == if count_in_flight {
                        held(before, at as int, sel.s1 as int, sel.s2 as int)
                    } else {
                        before
                    }
                };
            assert(after.len() == before.len());
        },
        _ => {},
    }
    assert forall|k: int| 0 <= k < others.len() implies is_aloft(after, #[trigger] others[k]) by {
        assert(is_aloft(before, others[k]));
    }
}

/// A step of a descent that counts itself keeps the counters those of the descents in
/// flight.
pub proof fn lemma_step_keeps_balance<I>(
    before: Seq<NodeModel<I>>,
    phase: Phase,
    event: Event<I>,
    after: Seq<NodeModel<I>>,
    r: Step,
    others: Seq<Flight>,
)
    requires
        tree_ok(before),
        phase_ok(before, phase),
        answers(before, phase, event, true),
        steps(before, phase, event, true, after, r),
        tree_ok(after),
        aloft(before, others),
        balanced(before, others.push(flight_at(phase))),
    ensures
        balanced(after, others.push(flight_at(r.phase))),
{
    let all = others.push(flight_at(phase));
    assert forall|k: int| 0 <= k < all.len() implies is_aloft(before, #[trigger] all[k]) by {
        if k < others.len() {
            assert(all[k] == others[k]);
        }
    }
    match (phase, event) {
        (Phase::NeedMoves(at), Event::Moves(s1, s2)) => {
            law_listing_moves_reserves_nothing(
                before,
                all,
                at as int,
                plain_options(s1@),
                plain_options(s2@),
            );
        },
        (Phase::NeedScores(at), Event::Scores(s1, s2)) => {
            let sel = choose|sel: Selected|
                {
                    &&& #[trigger] selects(before, at as int, s1@, s2@, sel)
                    &&& after == held(before, at as int, sel.s1 as int, sel.s2 as int)
                    &&& r == match sel.child {
                        Some(c) => Step { phase: arrival(before, c), entered: Some(c) },
                        None => Step {
                            phase: Phase::NeedOver { at, s1: sel.s1, s2: sel.s2 },
                            entered: None,
                        },
                    }
                };
            law_selection_reserves_what_it_picks(
                before,
                others,
                at as int,
                sel.s1 as int,
                sel.s2 as int,
            );
            if let Some(c) = sel.child {
                assert(before[c as int].parent == after[c as int].parent);
                law_descent_keeps_its_reservations(after, others, at as int, c as int);
            }
        },
        (Phase::NeedOver { at, s1, s2 }, Event::Over(over)) => {},
        (Phase::NeedOutcomes { at, s1, s2, branch_on_damage }, Event::Outcomes(list)) => {
            law_growing_reserves_nothing(before, all, at as int, s1, s2, list@);
            let c = r.entered->0;
            law_descent_keeps_its_reservations(after, others, at as int, c as int);
        },
        _ => {},
    }
}

/// A step keeps the tree in order, visits nothing, and leads to a phase that exists.
pub proof fn lemma_step_keeps_order<I>(
    before: Seq<NodeModel<I>>,
    phase: Phase,
    event: Event<I>,
    count_in_flight: bool,
    after: Seq<NodeModel<I>>,
    r: Step,
)
    requires
        tree_ok(before),
        phase_ok(before, phase),
        answers(before, phase, event, count_in_flight),
        steps(before, phase, event, count_in_flight, after, r),
    ensures
        tree_ok(after),
        phase_ok(after, r.phase),
        after[0].times_visited == before[0].times_visited,
{
    assert(node_ok(before, 0));
    match (phase, event) {
        (Phase::NeedMoves(at), Event::Moves(s1, s2)) => {
            assert(s1.len() == s1@.len() && s2.len() == s2@.len());
            lemma_populated_ok(before, at as int, plain_options(s1@), plain_options(s2@));
        },
        (Phase::NeedScores(at), Event::Scores(s1, s2)) => {
            let sel = choose|sel: Selected|
                {
                    &&& #[trigger] selects(before, at as int, s1@, s2@, sel)
                    &&& after == if count_in_flight {
                        held(before, at as int, sel.s1 as int, sel.s2 as int)
                    } else {
                        before
                    }
                    &&& r == match sel.child {
                        Some(c) => Step { phase: arrival(before, c), entered: Some(c) },
                        None => Step {
                            phase: Phase::NeedOver { at, s1: sel.s1, s2: sel.s2 },
                            entered: None,
                        },
                    }
                };
            lemma_with_pair_ok(
                before,
                at as int,
                sel.s1 as int,
                sel.s2 as int,
                |m: MoveNode| reserved(m),
            );
            assert(sel.s1 < s1@.len() && sel.s2 < s2@.len());
        },
        (Phase::NeedOver { at, s1, s2 }, Event::Over(over)) => {},
        (Phase::NeedOutcomes { at, s1, s2, branch_on_damage }, Event::Outcomes(list)) => {
            lemma_attached_ok(before, at as int, s1, s2, list@);
        },
        _ => {},
    }
}

/// One step of a descent. With `count_in_flight`, the moves that it picks count
/// it as a selection in flight, so that other descents stay away from them.
pub fn advance<I>(
    tree: &mut Tree<I>,
    phase: Phase,
    event: Event<I>,
    count_in_flight: bool,
) -> (r: Step)
    requires
        tree_ok(old(tree)@),
        phase_ok(old(tree)@, phase),
        answers(old(tree)@, phase, event, count_in_flight),
    ensures
        tree_ok(final(tree)@),
        phase_ok(final(tree)@, r.phase),
        steps(old(tree)@, phase, event, count_in_flight, final(tree)@, r),
        final(tree)@.len() >= old(tree)@.len(),
        final(tree)@[0].times_visited == old(tree)@[0].times_visited,
        forall|others: Seq<Flight>| #[trigger]
            aloft(old(tree)@, others) ==> aloft(final(tree)@, others),
        count_in_flight ==> forall|others: Seq<Flight>|
            aloft(old(tree)@, others) && #[trigger] balanced(
                old(tree)@,
                others.push(flight_at(phase)),
            ) ==> balanced(final(tree)@, others.push(flight_at(r.phase))),
{
    let ghost before = tree@;
    let ghost told = event;
    let r = match (phase, event) {
        (Phase::NeedMoves(at), Event::Moves(s1, s2)) => {
            tree.populate(at, &s1, &s2);
            Step { phase: Phase::NeedScores(at), entered: None }
        },
        (Phase::NeedScores(at), Event::Scores(s1, s2)) => {
            proof {
                assert(node_ok(before, at as int));
                if count_in_flight {
                    assert forall|i: int|
                        0 <= i < (before[at as int].s1_options->0).len() implies (
                    #[trigger] (before[at as int].s1_options->0)[i]).pending_visits < u32::MAX by {
                        assert(has_move(before, true, at as int, i));
                        assert(move_at(before, true, at as int, i).pending_visits < u32::MAX);
                    }
                    assert forall|i: int|
                        0 <= i < (before[at as int].s2_options->0).len() implies (
                    #[trigger] (before[at as int].s2_options->0)[i]).pending_visits < u32::MAX by {
                        assert(has_move(before, false, at as int, i));
                        assert(move_at(before, false, at as int, i).pending_visits < u32::MAX);
                    }
                }
            }
            let sel = if count_in_flight {
                tree.selection_with_vloss(at, s1.as_slice(), s2.as_slice())
            } else {
                tree.selection(at, s1.as_slice(), s2.as_slice())
            };
            let r = match sel.child {
                Some(c) => Step { phase: arrive(tree, c), entered: Some(c) },
                None => Step {
                    phase: Phase::NeedOver { at, s1: sel.s1, s2: sel.s2 },
                    entered: None,
                },
            };
            r
        },
        (Phase::NeedOver { at, s1, s2 }, Event::Over(over)) => {
            match tree.expansion(at, s1, s2, over) {
                None => Step {
                    phase: Phase::Landed { leaf: at, parent: at, s1, s2 },
                    entered: None,
                },
                Some(branch_on_damage) => Step {
                    phase: Phase::NeedOutcomes { at, s1, s2, branch_on_damage },
                    entered: None,
                },
            }
        },
        (Phase::NeedOutcomes { at, s1, s2, branch_on_damage }, Event::Outcomes(list)) => {
            let c = tree.expand(at, s1, s2, list);
            Step { phase: Phase::Landed { leaf: c, parent: at, s1, s2 }, entered: Some(c) }
        },
        _ => {
            assert(false);
            Step { phase, entered: None }
        },
    };
    proof {
        assert(steps(before, phase, told, count_in_flight, tree@, r));
        assert forall|others: Seq<Flight>| #[trigger] aloft(before, others) implies aloft(
            tree@,
            others,
        ) by {
            lemma_step_keeps_aloft(before, phase, told, count_in_flight, tree@, r, others);
        }
        if count_in_flight {
            assert forall|others: Seq<Flight>|
                aloft(before, others) && #[trigger] balanced(
                    before,
                    others.push(flight_at(phase)),
                ) implies balanced(tree@, others.push(flight_at(r.phase))) by {
                lemma_step_keeps_balance(before, phase, told, tree@, r, others);
            }
        }
    }
    r
}

} // verus!
