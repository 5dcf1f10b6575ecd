# Crownfall

A two-player abstract strategy board game: protect your Crown, eliminate the
opponent's forces. This crate is its rules engines, AI, wire framing and
game-server state, written in Verus with their behaviour stated in contracts
and proved.

## Layout

- `src/engine/` — the current rules engine: three board sizes, the rule
  variants (Archers, mandatory capture, all captures processed, diagonal
  Knights, Knight mass capture), capture previews, Zobrist position hashing
  and the negamax AI. Its search is specified in full (`spec_search`,
  `spec_deepen`, `spec_choose_move`: principal variation search with the
  transposition table and killer moves as explicit state, aspiration
  windows and iterative deepening), and the AI is proved to return exactly
  the move that specification chooses, a legal one, and one ply deep a
  best-scoring one. `rules.rs` states the
  outcome of every action as a specification; `laws.rs` and `geometry.rs`
  prove properties that span actions.
- `src/classic/` — the 7x7 game spoken by the HTTP protocol types in
  `src/common.rs`, with its own rules, FNV-1a position hash and an
  alpha-beta negamax whose chosen move is proved to be the first best one.
- `src/net.rs` — the TCP protocol's packets and the length-prefixed framing.
- `src/server.rs` — the server's tables of pending games, active games and
  logged-in clients, and the answer to each packet.
- `tests/` — the game's scenario tests and checks of the laws on concrete
  values.
- `app/` — the server program: sockets, JSON encoding of packets, the
  polling loop.
