# goita

Rules and game flow for Goita, the four-player piece game from the Noto
Peninsula, written in Verus: the library's functions carry contracts that
Verus proves, except the three small wrappers in `src/random.rs` around the
`rand` crate, whose contracts are trusted.

- `src/piece.rs` — pieces, point values, the standard 32-piece set.
- `src/hand.rs` — a player's hand (at most eight pieces), counted by kind.
- `src/board.rs` — seats, teams, facings, and the pieces each player placed.
- `src/deal.rs` — checking and shuffling a deal, and the special hands
  (five, six, seven or eight pawns) found right after it.
- `src/round.rs` — one round: turn order, passing, the placement rules, the
  king rule, the end of a round and its score.
- `src/game.rs` — a whole game: team scores, starting rounds, the end of the
  game.
- `src/simulator.rs` — the variant of the round and game rules used by the
  simulator.
- `src/notation.rs` — one-letter piece codes.
- `src/random.rs` — the calls into the `rand` crate (seeding, shuffling).
- `app/main.rs` — a command-line front end.
- `tests/` — scenario tests.
