# battle_search

A verified library for playing turn-based creature battles: what a position is
worth, how a search over simultaneous moves learns from its visits, and what the
networks that guide the search are fed.

## Layout

- `src/genx/`, `src/gen2/`: the value of a position for the first player, in the
  modern rules and in those of the second generation. All values are exact sums of
  fractions.
- `src/mcts/`: the search tree. `tree` grows and updates it, `descent` is a descent
  as questions and answers, `batch` settles many descents at once, `leaf` scores
  leaves, `schedule` says when a search ends. `ledger`, `flight` and `whole` state
  what the counters of the tree always add up to.
- `src/game.rs`: a whole battle, turn by turn, as events and actions.
- `src/policy/`: encodings of a position for networks, priors from their answers,
  and the file format of material networks.
- `src/numbers.rs`, `src/state.rs`, `src/types.rs`, `src/matchup.rs`,
  `src/stages.rs`, `src/text.rs`: what the others share.
- `app/`: what needs floating point, the clock, the environment, files, threads or
  an inference engine. It plays battles of any engine that implements its trait
  `Battle`.
- `tests/`: the library on concrete positions, trees and files.

Chance comes from the crate `rand` through two small functions in
`src/mcts/sampling.rs`; nothing else in the library is taken on trust.
