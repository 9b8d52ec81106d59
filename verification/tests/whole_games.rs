//! Playing whole battles.
use battle_search::game::{
    choose_move, guidance, pick_outcome, record_turn, roll_outcome, tally, visit_counts, Game,
    GameAction, GameEvent, GameKind, GameResult, Guidance,
};
use battle_search::mcts::leaf::Mixing;
use battle_search::mcts::node::{MctsSideResult, SCORE_ONE};
use battle_search::state::MoveChoice;

fn found(slot: usize, visits: u32) -> MctsSideResult {
    MctsSideResult { move_choice: MoveChoice::Move(slot), total_score: 0, visits }
}

fn position(battle_is_over: i8, n1: usize, n2: usize) -> GameEvent {
    GameEvent::Position {
        battle_is_over,
        s1_options: (0..n1).map(MoveChoice::Move).collect(),
        s2_options: (0..n2).map(MoveChoice::Switch).collect(),
    }
}

#[test]
fn last_of_the_most_visited_moves_is_played() {
    let options = vec![MoveChoice::Move(3)];
    assert_eq!(choose_move(&vec![], &options), MoveChoice::Move(3));
    let results = vec![found(0, 4), found(1, 9), found(2, 9), found(3, 1)];
    assert_eq!(choose_move(&results, &options), MoveChoice::Move(2));
}

#[test]
fn rolls_pick_outcomes_by_chance() {
    let half = 0x80_0000;
    assert_eq!(pick_outcome(&[50, 50], 0), 0);
    assert_eq!(pick_outcome(&[50, 50], half), 0);
    assert_eq!(pick_outcome(&[50, 50], half + 1), 1);
    assert_eq!(pick_outcome(&[0, 10, 0, 30], 1), 1);
    assert_eq!(pick_outcome(&[0, 10, 0, 30], 0xff_ffff), 3);
    assert_eq!(pick_outcome(&[0, 10], 0), 0);
    assert_eq!(roll_outcome(&[]), None);
    let mut seen = [false; 2];
    for _ in 0..200 {
        seen[roll_outcome(&[1, 1]).unwrap()] = true;
    }
    assert!(seen[0] && seen[1]);
}

#[test]
fn battle_goes_from_turn_to_turn() {
    let mut g = Game::new(2);
    assert_eq!(g.advance(position(0, 2, 2)), GameAction::Search);
    let action = g.advance(GameEvent::Searched {
        s1: vec![found(0, 1), found(1, 2)],
        s2: vec![],
    });
    assert_eq!(
        action,
        GameAction::Resolve { s1_move: MoveChoice::Move(1), s2_move: MoveChoice::Switch(0) }
    );
    assert_eq!(g.advance(GameEvent::Chances(vec![7])), GameAction::Apply(0));
    assert_eq!(g.turn, 1);
    assert_eq!(
        g.advance(position(-1, 2, 2)),
        GameAction::Finish(GameResult { winner: -1, turns: 1 })
    );
}

#[test]
fn battle_can_get_stuck_or_run_out_of_turns() {
    let mut g = Game::new(5);
    assert_eq!(
        g.advance(position(0, 0, 2)),
        GameAction::Finish(GameResult { winner: 0, turns: 0 })
    );
    let mut g = Game::new(5);
    g.advance(position(0, 1, 1));
    g.advance(GameEvent::Searched { s1: vec![found(0, 1)], s2: vec![found(0, 1)] });
    assert_eq!(
        g.advance(GameEvent::Chances(vec![])),
        GameAction::Finish(GameResult { winner: 0, turns: 0 })
    );
    let mut g = Game::new(0);
    assert_eq!(
        g.advance(position(1, 1, 1)),
        GameAction::Finish(GameResult { winner: 0, turns: 0 })
    );
}

#[test]
fn wins_losses_and_draws_are_counted() {
    assert_eq!(tally(&[1, -1, 0, 1, 1, 0]), (3, 1, 2));
    assert_eq!(tally(&[-1, 1, 0, -1, -1, 0]), (1, 3, 2));
    assert_eq!(tally(&[]), (0, 0, 0));
}

#[test]
fn visits_are_recorded_by_name() {
    let names = vec!["tackle".to_string(), "rest".to_string()];
    let counts = visit_counts(names, &vec![found(0, 5), found(1, 8)]);
    assert_eq!(counts, vec![("tackle".to_string(), 5), ("rest".to_string(), 8)]);
}

#[test]
fn turns_are_recorded_with_the_most_visited_moves() {
    let names = |list: &[&str]| -> Vec<String> { list.iter().map(|n| n.to_string()).collect() };
    let r = record_turn(
        "before".to_string(),
        names(&["tackle", "rest", "roar"]),
        &vec![found(0, 5), found(1, 8), found(2, 8)],
        names(&["surf"]),
        &vec![found(0, 0)],
    );
    assert_eq!((r.state_string.as_str(), r.s1_move.as_str(), r.s2_move.as_str()), ("before", "roar", "surf"));
    assert_eq!(
        r.s1_visits,
        vec![("tackle".to_string(), 5), ("rest".to_string(), 8), ("roar".to_string(), 8)]
    );
    assert_eq!(r.s2_visits, vec![("surf".to_string(), 0)]);
}

#[test]
fn networks_guide_the_first_player_only() {
    for kind in [GameKind::Plain, GameKind::Policy, GameKind::PolicyAndValue] {
        assert_eq!(guidance(kind, false), Guidance::Plain);
    }
    assert_eq!(guidance(GameKind::Plain, true), Guidance::Plain);
    assert_eq!(guidance(GameKind::Policy, true), Guidance::Priors);
    let mix = Mixing { alpha: SCORE_ONE as i64, residual: false };
    assert_eq!(
        guidance(GameKind::PolicyAndValue, true),
        Guidance::PriorsAndValue { mix, batch_size: 1 }
    );
}
