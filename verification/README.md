# StockShark

A chess engine with a UCI front end and a native board window, whose engine
and game logic are written in Verus and proved against their contracts.

## Layout

- `src/board` — bitboards, positions, Zobrist keys, FEN reading and writing
  (with the proof that writing then reading gives the position back).
- `src/moves` — attack sets, pseudo-legal move generation (sound and complete
  against a specification of the rules), making and unmaking moves.
- `src/engine` — the tapered evaluation (with its colour symmetry), the
  transposition table, the built-in opening book and the alpha-beta search.
- `src/uci` — the UCI command parsers and the text board diagram.
- `src/gui` — the state of the board window: game record, review, selection,
  status line and whose turn it is.
- `src/text.rs` — words, decimal numbers and other text helpers.
- `app/` — the program around the library: the UCI loop on standard input and
  output, and the egui window.
- `tests/` — tests of the library, including perft counts.

## Running

`stockshark --uci` speaks UCI on standard input and output; without arguments
the board window opens.
