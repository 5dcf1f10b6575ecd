//! Checks on concrete values of the library's laws, errors and formulas:
//! the capture preview against the move, every error of both engines, the
//! hashes, the evaluation, the TCP framing and the server's packet flow.

use crownfall::engine::ai::{restore, snapshot};
use crownfall::engine::eval::evaluate;
use crownfall::engine::hash::{side_to_move_toggle, zobrist_key};
use crownfall::engine::{
    position_hash, CrownfallBoardCell, CrownfallBoardState, CrownfallBoardVariant, CrownfallError,
    CrownfallGame, CrownfallGameState, CrownfallPersonality, CrownfallPiece, CrownfallPieceKind,
    CrownfallPlayState, CrownfallPlayerAction, CrownfallPlayerKind, CrownfallRules,
    CrownfallTurnResult,
};
use crownfall::classic;
use crownfall::net::{
    encode_frame, split_frames, NetGameState, Packet, PendingGameState, PerformActionState,
};
use crownfall::server::AppState;
use crownfall::classic::{Cell, GameError, PlayerAction, PlayerKind};
use CrownfallPieceKind::{Knight, Spy};
use CrownfallPlayerKind::{Black, White};

fn piece(kind: CrownfallPieceKind, player: CrownfallPlayerKind) -> Option<CrownfallPiece> {
    Some(CrownfallPiece::new(kind, player))
}

fn playing(board: CrownfallBoardState, player: CrownfallPlayerKind) -> CrownfallGame {
    let mut game = CrownfallGame::from_parts(
        board,
        CrownfallGameState::Playing(CrownfallPlayState::WaitingForInput { player }),
        CrownfallRules::standard(),
    );
    game.history = vec![0u32];
    game
}

fn mv(from: usize, to: usize, player: CrownfallPlayerKind) -> CrownfallPlayerAction {
    CrownfallPlayerAction::Move {
        player,
        from: CrownfallBoardCell::new_index(from),
        to: CrownfallBoardCell::new_index(to),
    }
}

// ---------------------------------------------------------------------
// The capture preview agrees with the move
// ---------------------------------------------------------------------

#[test]
fn preview_cells_are_empty_after_the_previewed_move() {
    let mut board = CrownfallBoardState::empty(CrownfallBoardVariant::Normal);
    board.cells_mut()[24] = piece(Knight, Black);
    board.cells_mut()[30] = piece(Knight, White);
    board.cells_mut()[39] = piece(Knight, White);
    board.cells_mut()[0] = piece(CrownfallPieceKind::Spy, Black);
    board.cells_mut()[1] = piece(Knight, Black);
    let preview = board
        .preview_move_captures(
            CrownfallBoardCell::new_index(39),
            CrownfallBoardCell::new_index(32),
            CrownfallRules::standard(),
        )
        .expect("legal move");
    assert_eq!(preview.captured, vec![CrownfallBoardCell::new_index(24)]);
    let mut game = playing(board, White);
    game.apply_action(mv(39, 32, White)).expect("legal move");
    for cell in &preview.captured {
        assert_eq!(game.board.cells()[cell.to_index()], None);
    }
}

#[test]
fn preview_of_a_trapped_mover_agrees_with_the_move() {
    let mut board = CrownfallBoardState::empty(CrownfallBoardVariant::Normal);
    board.cells_mut()[14] = piece(Spy, Black);
    board.cells_mut()[16] = piece(Spy, Black);
    board.cells_mut()[22] = piece(Knight, White);
    board.cells_mut()[47] = piece(Spy, White);
    board.cells_mut()[48] = piece(Knight, White);
    let preview = board
        .preview_move_captures(
            CrownfallBoardCell::new_index(22),
            CrownfallBoardCell::new_index(15),
            CrownfallRules::standard(),
        )
        .expect("legal move");
    assert!(preview.mover_captured);
    let mut game = playing(board, White);
    let result = game.apply_action(mv(22, 15, White)).expect("legal move");
    assert_eq!(game.board.cells()[15], None);
    assert!(matches!(
        result,
        Some(CrownfallTurnResult::Capture { removed, .. }) if removed == CrownfallBoardCell::new_index(15)
    ));
}

#[test]
fn preview_is_none_exactly_when_the_move_is_refused() {
    let game = CrownfallGame::new(CrownfallRules::standard());
    let from = CrownfallBoardCell::new_coord(0, 5, CrownfallBoardVariant::Normal);
    let sideways = CrownfallBoardCell::new_coord(0, 6, CrownfallBoardVariant::Normal);
    let forward = CrownfallBoardCell::new_coord(0, 4, CrownfallBoardVariant::Normal);
    let rules = CrownfallRules::standard();
    assert!(game.board.preview_move_captures(from, sideways, rules).is_none());
    let mut refused = game.clone();
    assert!(refused
        .apply_action(CrownfallPlayerAction::Move { player: White, from, to: sideways })
        .is_err());
    assert!(game.board.preview_move_captures(from, forward, rules).is_some());
    let mut accepted = game.clone();
    assert!(accepted
        .apply_action(CrownfallPlayerAction::Move { player: White, from, to: forward })
        .is_ok());
}

// ---------------------------------------------------------------------
// Engine errors
// ---------------------------------------------------------------------

#[test]
fn knight_removal_of_an_empty_cell_is_rejected() {
    let mut game = CrownfallGame::new(CrownfallRules::standard());
    let at = CrownfallBoardCell::new_index(24);
    let before = game.board;
    assert_eq!(
        game.apply_action(CrownfallPlayerAction::KnightRemoval { player: White, at }),
        Err(CrownfallError::EmptyKnightRemoval(White, at))
    );
    assert_eq!(game.board, before);
}

#[test]
fn knight_removal_of_an_enemy_piece_is_rejected() {
    let mut game = CrownfallGame::new(CrownfallRules::standard());
    let at = CrownfallBoardCell::new_coord(0, 1, CrownfallBoardVariant::Normal);
    assert!(game.board.cells()[at.to_index()].is_some());
    assert_eq!(
        game.apply_action(CrownfallPlayerAction::KnightRemoval { player: White, at }),
        Err(CrownfallError::EnemyKnightRemoval(White, at))
    );
}

#[test]
fn a_refused_action_leaves_the_game_unchanged() {
    let mut game = CrownfallGame::new(CrownfallRules::standard());
    let before = game.clone();
    assert_eq!(
        game.apply_action(mv(10, 17, Black)),
        Err(CrownfallError::NotYourTurn(Black))
    );
    assert_eq!(game, before);
}

// ---------------------------------------------------------------------
// Hash, evaluation, search journal
// ---------------------------------------------------------------------

#[test]
fn side_to_move_changes_the_hash_by_the_toggle() {
    let board = CrownfallBoardState::default();
    let white = position_hash(&board, CrownfallPlayerKind::White);
    let black = position_hash(&board, CrownfallPlayerKind::Black);
    assert_eq!(white ^ black, side_to_move_toggle());
    assert_ne!(white, black);
}

#[test]
fn evaluation_is_antisymmetric_between_the_players() {
    let mut game = CrownfallGame::new(CrownfallRules::standard());
    game.apply_action(mv(36, 29, CrownfallPlayerKind::White)).expect("legal move");
    for personality in [
        CrownfallPersonality::Defensive,
        CrownfallPersonality::Balanced,
        CrownfallPersonality::Aggressive,
    ] {
        let w = evaluate(&game, CrownfallPlayerKind::White, personality);
        let b = evaluate(&game, CrownfallPlayerKind::Black, personality);
        assert_eq!(w, -b);
    }
}

#[test]
fn restore_undoes_a_move() {
    let mut game = CrownfallGame::new(CrownfallRules::standard());
    let before = game.clone();
    let undo = snapshot(&game);
    game.apply_action(mv(36, 29, CrownfallPlayerKind::White)).expect("legal move");
    assert_ne!(game, before);
    restore(&mut game, &undo);
    assert_eq!(game, before);
}

#[test]
fn a_legal_move_hands_the_turn_over_and_counts_toward_no_progress() {
    let mut game = CrownfallGame::new(CrownfallRules::standard());
    let result = game.apply_action(mv(36, 29, CrownfallPlayerKind::White)).expect("legal move");
    assert!(matches!(result, Some(CrownfallTurnResult::PieceMove { .. })));
    assert_eq!(
        game.state,
        CrownfallGameState::Playing(CrownfallPlayState::WaitingForInput {
            player: CrownfallPlayerKind::Black
        })
    );
    assert_eq!(game.moves_since_capture, 1);
    assert_eq!(game.history.len(), 2);
}

// ---------------------------------------------------------------------
// The 7x7 game
// ---------------------------------------------------------------------

fn classic_game() -> classic::Game {
    classic::Game::default()
}

#[test]
fn classic_default_game_has_white_to_move_and_full_armies() {
    let game = classic_game();
    assert!(matches!(
        game.state,
        classic::GameState::Playing(classic::PlayState::WaitingForInput { player: classic::PlayerKind::White })
    ));
    for player in [classic::PlayerKind::White, classic::PlayerKind::Black] {
        assert_eq!(game.board.piece_count(player, classic::PieceKind::Crown), 1);
        assert_eq!(game.board.piece_count(player, classic::PieceKind::Knight), 6);
        assert_eq!(game.board.piece_count(player, classic::PieceKind::Spy), 3);
    }
}

#[test]
fn classic_errors_for_each_refusal() {
    let empty = Cell::new_index(24);
    let black_piece = Cell::new_coord(0, 1);
    let white_knight = Cell::new_coord(0, 5);
    let r = classic_game().handle_player_action(PlayerAction::Move { player: PlayerKind::Black, from: black_piece, to: Cell::new_coord(0, 2) });
    assert_eq!(r.err(), Some(GameError::NotYourTurn(PlayerKind::Black)));
    let r = classic_game().handle_player_action(PlayerAction::Move { player: PlayerKind::White, from: empty, to: Cell::new_index(25) });
    assert_eq!(r.err(), Some(GameError::EmptyMove(PlayerKind::White, empty)));
    let r = classic_game().handle_player_action(PlayerAction::Move { player: PlayerKind::White, from: black_piece, to: Cell::new_coord(0, 2) });
    assert_eq!(r.err(), Some(GameError::EnemyMove(PlayerKind::White, black_piece)));
    let behind = Cell::new_coord(0, 6);
    let r = classic_game().handle_player_action(PlayerAction::Move { player: PlayerKind::White, from: white_knight, to: behind });
    assert_eq!(r.err(), Some(GameError::InvalidDestination(PlayerKind::White, white_knight, behind)));
    let r = classic_game().handle_player_action(PlayerAction::KnightRemoval { player: PlayerKind::White, at: empty });
    assert_eq!(r.err(), Some(GameError::EmptyKnightRemoval(PlayerKind::White, empty)));
    let r = classic_game().handle_player_action(PlayerAction::KnightRemoval { player: PlayerKind::White, at: black_piece });
    assert_eq!(r.err(), Some(GameError::EnemyKnightRemoval(PlayerKind::White, black_piece)));
    let (over, _) = classic_game()
        .handle_player_action(PlayerAction::Surrender { player: PlayerKind::White })
        .expect("surrender is always accepted");
    let r = over.handle_player_action(PlayerAction::Surrender { player: PlayerKind::Black });
    assert_eq!(r.err(), Some(GameError::GameOver(PlayerKind::Black)));
    assert_eq!(GameError::NotYourTurn(PlayerKind::White).message(), "tried to act out of turn");
}

#[test]
fn one_ply_search_takes_the_winning_knight_pincer() {
    let mut board = CrownfallBoardState::empty(CrownfallBoardVariant::Normal);
    board.cells_mut()[24] = piece(CrownfallPieceKind::Crown, Black);
    board.cells_mut()[31] = piece(Knight, White);
    board.cells_mut()[32] = piece(Knight, White);
    let game = playing(board, White);
    let winning = mv(32, 25, White);
    let mut probe = game.clone();
    probe.apply_action(winning).expect("the pincer is a legal move");
    assert!(matches!(probe.state, CrownfallGameState::Victory(White, _)));
    let chosen = crownfall::engine::ai::best_move(&game, White, 1, crownfall::engine::eval::CrownfallPersonality::Balanced)
        .expect("White has legal moves");
    let mut after = game.clone();
    after.apply_action(chosen).expect("the chosen move is legal");
    assert!(matches!(after.state, CrownfallGameState::Victory(White, _)));
}

#[test]
fn piece_bytes_round_trip() {
    let kinds = [CrownfallPieceKind::Crown, Knight, Spy, CrownfallPieceKind::Archer];
    for player in [White, Black] {
        for kind in kinds {
            let p = CrownfallPiece::new(kind, player);
            let byte = p.to_byte();
            assert!((8..16).contains(&byte));
            assert_eq!(CrownfallPiece::from_byte(byte), Some(p));
        }
    }
    assert_eq!(CrownfallPiece::new(CrownfallPieceKind::Crown, White).to_byte(), 8);
    assert_eq!(CrownfallPiece::new(Spy, White).to_byte(), 10);
    assert_eq!(CrownfallPiece::new(CrownfallPieceKind::Archer, Black).to_byte(), 15);
    assert_eq!(CrownfallPiece::from_byte(7), None);
    assert_eq!(CrownfallPiece::from_byte(16), None);
    assert_eq!(CrownfallPiece::from_byte(0), None);
}

#[test]
fn preview_exists_exactly_for_valid_destinations_under_either_capture_rule() {
    let mut board = CrownfallBoardState::empty(CrownfallBoardVariant::Normal);
    board.cells_mut()[30] = piece(Knight, White);
    board.cells_mut()[23] = piece(Knight, White);
    board.cells_mut()[16] = piece(Spy, Black);
    board.cells_mut()[31] = piece(Spy, Black);
    let from = CrownfallBoardCell::new_index(30);
    let plain = CrownfallRules::standard();
    let mandatory = CrownfallRules::standard_mandatory_capture();
    let valid = board.get_valid_destinations_for(from, plain);
    for t in 0..49 {
        let to = CrownfallBoardCell::new_index(t);
        let a = board.preview_move_captures(from, to, plain);
        let b = board.preview_move_captures(from, to, mandatory);
        assert_eq!(a.is_some(), valid.contains(&to));
        assert_eq!(a.is_some(), b.is_some());
        if let (Some(a), Some(b)) = (a, b) {
            assert_eq!(a.captured, b.captured);
            assert_eq!(a.mover_captured, b.mover_captured);
        }
    }
    let empty = CrownfallBoardCell::new_index(0);
    assert!(board.preview_move_captures(empty, CrownfallBoardCell::new_index(1), plain).is_none());
}

#[test]
fn archer_shot_needs_a_covering_non_archer() {
    let mut board = CrownfallBoardState::empty(CrownfallBoardVariant::Normal);
    board.cells_mut()[29] = piece(CrownfallPieceKind::Archer, White);
    board.cells_mut()[24] = piece(Spy, Black);
    board.cells_mut()[25] = piece(Knight, White);
    board.cells_mut()[8] = piece(Knight, Black);
    board.cells_mut()[9] = piece(CrownfallPieceKind::Archer, White);
    board.cells_mut()[48] = piece(CrownfallPieceKind::Crown, White);
    board.cells_mut()[0] = piece(CrownfallPieceKind::Crown, Black);
    let rules = CrownfallRules::standard_archers();
    let preview = board
        .preview_move_captures(CrownfallBoardCell::new_index(29), CrownfallBoardCell::new_index(22), rules)
        .expect("legal move");
    assert_eq!(preview.captured, vec![CrownfallBoardCell::new_index(24)]);
    let mut game = CrownfallGame::from_parts(
        board,
        CrownfallGameState::Playing(CrownfallPlayState::WaitingForInput { player: White }),
        rules,
    );
    game.history = vec![0u32];
    game.apply_action(mv(29, 22, White)).expect("legal move");
    assert_eq!(game.board.cells()[24], None);
    assert_eq!(game.board.cells()[8], piece(Knight, Black));
}

#[test]
fn preview_names_every_enemy_piece_the_move_removes() {
    let mut board = CrownfallBoardState::empty(CrownfallBoardVariant::Normal);
    board.cells_mut()[24] = piece(Knight, Black);
    board.cells_mut()[30] = piece(Knight, White);
    board.cells_mut()[39] = piece(Knight, White);
    board.cells_mut()[0] = piece(Spy, Black);
    board.cells_mut()[1] = piece(Knight, Black);
    let before = board.clone();
    let preview = board
        .preview_move_captures(CrownfallBoardCell::new_index(39), CrownfallBoardCell::new_index(32), CrownfallRules::standard())
        .expect("legal move");
    let mut game = playing(board, White);
    game.apply_action(mv(39, 32, White)).expect("legal move");
    let mut removed = Vec::new();
    for c in 0..49 {
        let was_enemy = matches!(before.cells()[c], Some(p) if p.player() == Black);
        if was_enemy && game.board.cells()[c].is_none() {
            removed.push(CrownfallBoardCell::new_index(c));
        }
    }
    assert_eq!(removed, preview.captured);
}

#[test]
fn archer_shot_reports_a_touching_non_archer_ally_per_target() {
    let mut board = CrownfallBoardState::empty(CrownfallBoardVariant::Normal);
    board.cells_mut()[22] = piece(CrownfallPieceKind::Archer, White);
    board.cells_mut()[24] = piece(Spy, Black);
    board.cells_mut()[25] = piece(Knight, White);
    board.cells_mut()[8] = piece(Knight, Black);
    board.cells_mut()[1] = piece(Spy, White);
    board.cells_mut()[36] = piece(Knight, Black);
    board.cells_mut()[37] = piece(CrownfallPieceKind::Archer, White);
    let shots = board.check_archer_capture(22, White);
    let found: Vec<(usize, usize)> = (0..shots.len).map(|k| (shots.items[k].target, shots.items[k].ally)).collect();
    assert_eq!(found, vec![(8, 1), (24, 25)]);
}

#[test]
fn valid_destinations_follow_each_pieces_shape() {
    let mut board = CrownfallBoardState::empty(CrownfallBoardVariant::Normal);
    board.cells_mut()[24] = piece(Knight, White);
    board.cells_mut()[17] = piece(Spy, Black);
    let plain = CrownfallRules::standard();
    let diagonal = CrownfallRules::standard_diagonal_knights();
    let cells = |v: Vec<CrownfallBoardCell>| v.iter().map(|c| c.to_index()).collect::<Vec<usize>>();
    // White Knight at (3,3): up (3,2) is blocked, left and right are free, never down.
    assert_eq!(cells(board.get_valid_destinations_for(CrownfallBoardCell::new_index(24), plain)), vec![23, 25]);
    // Diagonal Knights: the two forward diagonals (2,2) and (4,2).
    assert_eq!(cells(board.get_valid_destinations_for(CrownfallBoardCell::new_index(24), diagonal)), vec![16, 18]);
    // A Spy steps one tile in any orthogonal direction.
    assert_eq!(cells(board.get_valid_destinations_for(CrownfallBoardCell::new_index(17), plain)), vec![10, 16, 18]);
    assert!(board.get_valid_destinations_for(CrownfallBoardCell::new_index(0), plain).is_empty());
}

#[test]
fn classic_surrender_is_accepted_on_the_opponents_turn() {
    let game = classic_game();
    let (after, result) = classic_game()
        .handle_player_action(PlayerAction::Surrender { player: PlayerKind::Black })
        .expect("a player may concede at any time");
    assert_eq!(result, None);
    assert_eq!(after.state, classic::GameState::Victory(PlayerKind::White));
    assert_eq!(after.board, game.board);
    assert_eq!(after.history, game.history);
    assert_eq!(after.moves_since_capture, game.moves_since_capture);
}

#[test]
fn fnv1a_hasher_matches_the_published_test_vector() {
    let mut hasher = classic::Fnv1aHasher::default();
    hasher.write(b"a");
    assert_eq!(hasher.finish(), 0xaf63dc4c8601ec8c);
    let empty = classic::Fnv1aHasher::default();
    assert_eq!(empty.finish(), 0xcbf29ce484222325);
}

#[test]
fn classic_position_hash_depends_on_the_player_to_move() {
    let game = classic_game();
    let w = classic::hash::position_hash(&game.board, classic::PlayerKind::White);
    let b = classic::hash::position_hash(&game.board, classic::PlayerKind::Black);
    assert_ne!(w, b);
    assert_eq!(w, classic::hash::position_hash(&game.board, classic::PlayerKind::White));
}

#[test]
fn classic_best_move_is_accepted_by_the_game() {
    let game = classic_game();
    let action = classic::ai::best_move(&game, classic::PlayerKind::White, 2).expect("a move exists");
    assert!(game.handle_player_action(action).is_ok());
}

// ---------------------------------------------------------------------
// Framing
// ---------------------------------------------------------------------

#[test]
fn a_frame_is_a_big_endian_length_then_the_body() {
    assert_eq!(encode_frame(&vec![1u8, 2, 3]), vec![0u8, 3, 1, 2, 3]);
    let long = vec![7u8; 300];
    let frame = encode_frame(&long);
    assert_eq!(&frame[..2], &[1u8, 44]);
    assert_eq!(frame.len(), 302);
}

#[test]
fn split_frames_returns_complete_frames_and_leaves_the_rest() {
    let mut buf = encode_frame(&vec![9u8, 8]);
    buf.extend(encode_frame(&vec![]));
    buf.extend(encode_frame(&vec![5u8, 5, 5]));
    let complete = buf.len();
    buf.extend(vec![0u8, 4, 1]);
    let (frames, used) = split_frames(&buf);
    assert_eq!(frames, vec![vec![9u8, 8], vec![], vec![5u8, 5, 5]]);
    assert_eq!(used, complete);
    let (none, zero) = split_frames(&vec![0u8]);
    assert!(none.is_empty());
    assert_eq!(zero, 0);
}

// ---------------------------------------------------------------------
// Server
// ---------------------------------------------------------------------

#[test]
fn server_refuses_new_games_when_full() {
    let mut state = AppState::new(0);
    let out = state.handle_packet(1, Packet::CreateGameRequest);
    assert_eq!(out.len(), 1);
    assert_eq!(out[0].0, 1);
    assert!(matches!(out[0].1, Packet::CreateGameResponse(None)));
    assert_eq!(state.game_count(), 0);
}

#[test]
fn created_games_get_fresh_ids_and_timestamps() {
    let mut state = AppState::new(5);
    state.client_login(1, "alice".to_string());
    let a = state.create_game(1).expect("room for a game");
    let b = state.create_game(1).expect("room for a game");
    assert!(!a.is_empty());
    assert_ne!(a, b);
    let list = state.pending_list();
    assert_eq!(list.len(), 2);
    assert!(list.iter().all(|p| p.created > 0 && p.white_player_name == "alice"));
}

#[test]
fn two_clients_play_a_game_through_packets() {
    let mut state = AppState::new(2);
    let out = state.handle_packet(1, Packet::LoginRequest("alice".to_string()));
    assert!(matches!(out[0].1, Packet::LoginResponse(None)));
    state.handle_packet(2, Packet::LoginRequest("bob".to_string()));

    let out = state.handle_packet(1, Packet::CreateGameRequest);
    let id = match &out[0].1 {
        Packet::CreateGameResponse(Some(id)) => id.clone(),
        other => panic!("unexpected {other:?}"),
    };
    let out = state.handle_packet(1, Packet::PollPendingGameRequest(id.clone()));
    assert!(matches!(out[0].1, Packet::PollPendingGameResponse(PendingGameState::Pending)));

    let out = state.handle_packet(2, Packet::JoinGameRequest(id.clone()));
    assert_eq!(out.len(), 2);
    assert!(matches!(&out[0].1, Packet::JoinGameResponse(echo, true) if *echo == id));
    assert_eq!(out[1].0, 1);
    assert!(matches!(out[1].1, Packet::GameUpdateCommand(_, None)));

    let out = state.handle_packet(1, Packet::PollPendingGameRequest(id.clone()));
    assert!(matches!(out[0].1, Packet::PollPendingGameResponse(PendingGameState::Joined)));
    let out = state.handle_packet(2, Packet::PollGameRequest(id.clone()));
    match &out[0].1 {
        Packet::PollGameResponse(NetGameState::Active(web)) => {
            assert_eq!(web.white_player_name, "alice");
            assert_eq!(web.black_player_name, "bob");
        }
        other => panic!("unexpected {other:?}"),
    }

    let out = state.handle_packet(2, Packet::PerformActionRequest(id.clone(), mv(10, 17, CrownfallPlayerKind::Black)));
    assert_eq!(out.len(), 1);
    assert!(matches!(out[0].1, Packet::PerformActionResponse(PerformActionState::NotYourTurn)));

    let out = state.handle_packet(1, Packet::PerformActionRequest(id.clone(), mv(36, 29, CrownfallPlayerKind::White)));
    assert_eq!(out.len(), 3);
    assert!(matches!(out[0].1, Packet::PerformActionResponse(PerformActionState::Done)));
    assert_eq!(out[1].0, 1);
    assert_eq!(out[2].0, 2);
    assert!(matches!(out[1].1, Packet::GameUpdateCommand(_, Some(CrownfallTurnResult::PieceMove { .. }))));

    let out = state.handle_packet(1, Packet::PerformActionRequest("nope".to_string(), mv(29, 22, CrownfallPlayerKind::White)));
    assert!(matches!(out[0].1, Packet::PerformActionResponse(PerformActionState::InvalidGame)));

    let out = state.handle_packet(1, Packet::LoginRequest("alice".to_string()));
    assert!(matches!(&out[0].1, Packet::LoginResponse(Some(web)) if web.id == id));

    let out = state.handle_packet(1, Packet::LeaveGame(id.clone()));
    assert!(out.is_empty());
    assert_eq!(state.game_count(), 1);
    state.client_disconnect(2);
    state.handle_packet(1, Packet::LeaveGame(id.clone()));
    assert_eq!(state.game_count(), 0);
}

#[test]
fn joining_an_unknown_game_is_refused() {
    let mut state = AppState::new(2);
    state.handle_packet(2, Packet::LoginRequest("bob".to_string()));
    let out = state.handle_packet(2, Packet::JoinGameRequest("missing".to_string()));
    assert_eq!(out.len(), 1);
    assert!(matches!(&out[0].1, Packet::JoinGameResponse(echo, false) if echo == "missing"));
    let out = state.handle_packet(2, Packet::PollPendingGameRequest("missing".to_string()));
    assert!(matches!(out[0].1, Packet::PollPendingGameResponse(PendingGameState::Invalid)));
}

#[test]
fn disconnecting_drops_the_clients_pending_games() {
    let mut state = AppState::new(3);
    state.handle_packet(1, Packet::LoginRequest("alice".to_string()));
    state.handle_packet(1, Packet::CreateGameRequest);
    assert_eq!(state.game_count(), 1);
    state.client_disconnect(1);
    assert_eq!(state.game_count(), 0);
    assert!(state.pending_list().is_empty());
}

#[test]
fn creating_a_game_under_an_existing_id_replaces_it() {
    let mut state = AppState::new(3);
    state.client_login(1, "alice".to_string());
    state.client_login(2, "bob".to_string());
    assert_eq!(state.create_game_with(1, "g".to_string(), 5), Some("g".to_string()));
    assert_eq!(state.create_game_with(2, "g".to_string(), 6), Some("g".to_string()));
    let list = state.pending_list();
    assert_eq!(list.len(), 1);
    assert_eq!(list[0].white_player_name, "bob");
    assert_eq!(list[0].created, 6);
}

#[test]
fn a_client_renaming_itself_keeps_one_name() {
    let mut state = AppState::new(3);
    state.client_login(1, "alice".to_string());
    state.client_login(1, "carol".to_string());
    state.create_game_with(1, "g".to_string(), 1);
    assert_eq!(state.pending_list()[0].white_player_name, "carol");
}

#[test]
fn the_server_rests_longer_while_no_game_exists() {
    let mut state = AppState::new(3);
    assert_eq!(state.sleep_millis(), 2000);
    state.create_game_with(1, "g".to_string(), 1);
    assert_eq!(state.sleep_millis(), 500);
}

#[test]
fn a_stream_of_frames_splits_back_into_its_bodies() {
    let bodies: Vec<Vec<u8>> = vec![b"{\"LoginRequest\":\"a\"}".to_vec(), vec![], vec![0u8; 70000 % 65536]];
    let mut stream = Vec::new();
    for b in &bodies {
        stream.extend(encode_frame(b));
    }
    let (frames, used) = split_frames(&stream);
    assert_eq!(frames, bodies);
    assert_eq!(used, stream.len());
}

fn classic_piece(kind: classic::PieceKind, player: PlayerKind) -> Option<classic::Piece> {
    Some(classic::Piece { kind, player })
}

#[test]
fn classic_ai_takes_a_crown_capture_when_one_is_available() {
    let mut board = classic::BoardState { cells: [None; classic::BOARD_LENGTH * classic::BOARD_LENGTH] };
    board.cells[24] = classic_piece(classic::PieceKind::Crown, PlayerKind::Black);
    board.cells[0] = classic_piece(classic::PieceKind::Spy, PlayerKind::Black);
    board.cells[1] = classic_piece(classic::PieceKind::Knight, PlayerKind::Black);
    board.cells[2] = classic_piece(classic::PieceKind::Spy, PlayerKind::Black);
    board.cells[23] = classic_piece(classic::PieceKind::Knight, PlayerKind::White);
    board.cells[32] = classic_piece(classic::PieceKind::Knight, PlayerKind::White);
    board.cells[46] = classic_piece(classic::PieceKind::Spy, PlayerKind::White);
    board.cells[48] = classic_piece(classic::PieceKind::Crown, PlayerKind::White);
    let game = classic::Game {
        board,
        state: classic::GameState::Playing(classic::PlayState::WaitingForInput { player: PlayerKind::White }),
        history: Vec::new(),
        moves_since_capture: 0,
    };
    let winning = PlayerAction::Move { player: PlayerKind::White, from: Cell::new_index(32), to: Cell::new_index(25) };
    for depth in [1u8, 2] {
        let action = classic::ai::best_move(&game, PlayerKind::White, depth).expect("a move exists");
        assert_eq!(action, winning);
    }
    let (after, _) = game.handle_player_action(winning).expect("legal move");
    assert!(matches!(after.state, classic::GameState::Victory(PlayerKind::White)));
}

#[test]
fn zobrist_keys_are_splitmix64_high_words() {
    // splitmix64's first output from state 0 is 0xe220a8397b1dcdaf.
    assert_eq!(zobrist_key(0), 0xe220a839);
    assert_eq!(side_to_move_toggle(), 0x5d9dc02b);
}

#[test]
fn a_capture_never_adds_pieces() {
    let mut board = CrownfallBoardState::empty(CrownfallBoardVariant::Normal);
    board.cells_mut()[24] = piece(Knight, Black);
    board.cells_mut()[30] = piece(Knight, White);
    board.cells_mut()[39] = piece(Knight, White);
    board.cells_mut()[0] = piece(Spy, Black);
    board.cells_mut()[1] = piece(Knight, Black);
    board.cells_mut()[2] = piece(Knight, Black);
    let mut game = playing(board, White);
    let kinds = [CrownfallPieceKind::Crown, Knight, Spy, CrownfallPieceKind::Archer];
    let before: Vec<usize> = [White, Black].iter().flat_map(|&p| kinds.iter().map(move |&k| (p, k))).map(|(p, k)| game.piece_count(k, p)).collect();
    game.apply_action(mv(39, 32, White)).expect("legal move");
    let after: Vec<usize> = [White, Black].iter().flat_map(|&p| kinds.iter().map(move |&k| (p, k))).map(|(p, k)| game.piece_count(k, p)).collect();
    for (b, a) in before.iter().zip(after.iter()) {
        assert!(a <= b);
    }
    assert_eq!(game.piece_count(Knight, Black), 2);
    assert_eq!(game.piece_count(Knight, White), 1);
}

#[test]
fn engine_errors_describe_themselves() {
    assert_eq!(CrownfallError::CaptureRequired(White).message(), "must play a capturing move this turn");
    assert_eq!(CrownfallError::NotYourTurn(Black).message(), "tried to act out of turn");
}
