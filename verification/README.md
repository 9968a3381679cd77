# gears

Board representations for chess (including Chess960 and Double Fischer Random Chess) and Ataxx,
written in Verus: the executable code in `src/` carries `requires`/`ensures` contracts that Verus
proves.

## Layout

- `src/chessboard.rs`, `src/pieces.rs`, `src/squares.rs`, `src/castling.rs`, `src/moves.rs` — the
  chess position, its pieces, squares, castling rights and the 16-bit move encoding.
- `src/movegen.rs`, `src/attacks.rs` — attacks and pseudolegal move generation; the generator
  produces exactly the moves `is_move_pseudolegal` accepts (`lemma_generated_iff`).
- `src/make_move.rs`, `src/incremental_hash.rs` — playing moves; `make_move` keeps a valid position
  valid and its zobrist hash equal to the hash computed from scratch.
- `src/fen.rs`, `src/notation.rs`, `src/startpos.rs` — FEN reading and writing, compact and
  algebraic move notation, Chess960/DFRC start positions and named positions.
- `src/outcome.rs`, `src/games.rs`, `src/perft.rs` — game results, repetition detection, perft.
- `src/see.rs`, `src/bitbase.rs`, `src/tablebase.rs`, `src/pawn_tables.rs`,
  `src/no_pawn_tables.rs`, `src/upcoming_repetition.rs`, `src/zobrist.rs` — static exchange
  evaluation (exact against the swap-off value), the KPK bitbase (its tables are proved to satisfy
  the retrograde equations), endgame table indexing, cuckoo tables for upcoming repetitions and
  zobrist keys.
- `src/attack_data.rs` — slider attacks, checkers and pinned pieces of a position.
- `src/ataxx.rs` — Ataxx: positions, move generation, FEN and notation.
- `src/random.rs` — random move choice through the `rand` crate.
- `app/` — command line helpers that read option values from the process arguments.
- `tests/` — tests of the library.
