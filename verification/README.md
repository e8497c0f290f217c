# zkchess

A verified library for chess puzzles played against the `chess_engine`
crate, and the command that plays them and proves the solution.

- `src/model.rs`: sides, pieces, squares and moves as plain values.
- `src/engine.rs`: the calls into `chess_engine`, with their contracts.
- `src/text.rs`: byte lengths and byte slices of UTF-8 text.
- `src/gameparse.rs`: reading pieces (`Ke1`) and moves (`e2e4`), and setting
  up the board of a puzzle.
- `src/game.rs`: one turn of a game against the engine, as a step from state
  and the player's line to the next state and a report.
- `src/solution.rs`: the input that the proving program accepts.
- `app/`: the command: arguments, JSON, the terminal, proving and submitting.
