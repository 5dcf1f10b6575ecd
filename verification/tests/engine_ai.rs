use crownfall::engine::ai::{best_move, restore, snapshot, CrownfallDifficulty, CrownfallSearcher};
use CrownfallPlayerKind::{Black, White};
use crownfall::engine::eval::CrownfallPersonality;
use crownfall::engine::play::CrownfallGame;
use crownfall::engine::{position_hash, CrownfallBoardCell, CrownfallBoardVariant, CrownfallGameState, CrownfallPlayerAction, CrownfallPlayerKind, CrownfallRules};

/// Plays AI self-play with one persistent searcher per player and checks
/// that every returned move applies legally.
fn assert_persistent_searcher_selfplay(rules: CrownfallRules) {
    let mut searchers = [CrownfallSearcher::new(), CrownfallSearcher::new()];
    let personalities = [CrownfallPersonality::Aggressive, CrownfallPersonality::Defensive];
    let mut game = CrownfallGame::new(rules);
    for _ in 0..60 {
        let player = match game.state {
            CrownfallGameState::Playing(play_state) => play_state.player(),
            _ => break,
        };
        let slot = player.index();
        let action = match searchers[slot].best_move(&game, player, 3, personalities[slot]) {
            Some(action) => action,
            None => break,
        };
        game.apply_action(action).expect("persistent searcher must produce legal moves");
    }
}

#[test]
fn persistent_searcher_plays_legal_games() {
    for rules in [
        CrownfallRules::standard(),
        CrownfallRules::mini(),
        CrownfallRules::grand(),
        CrownfallRules::standard_archers(),
        CrownfallRules::standard_mandatory_capture(),
        CrownfallRules::standard_all_captures_processed(),
        CrownfallRules::standard_diagonal_knights(),
    ] {
        assert_persistent_searcher_selfplay(rules);
    }
}

#[test]
fn searcher_reset_on_context_change_stays_legal() {
    let mut searcher = CrownfallSearcher::new();
    let standard = CrownfallGame::new(CrownfallRules::standard());
    let diagonal = CrownfallGame::new(CrownfallRules::standard_diagonal_knights());
    for _ in 0..3 {
        for (game, personality) in [
            (&standard, CrownfallPersonality::Balanced),
            (&diagonal, CrownfallPersonality::Aggressive),
        ] {
            let action = searcher
                .best_move(game, CrownfallPlayerKind::White, 3, personality)
                .expect("opening position has legal moves");
            game.clone()
                .apply_action(action)
                .expect("searcher must produce a legal move after a context switch");
        }
    }
}

#[test]
fn difficulty_depths_increase() {
    assert_eq!(CrownfallDifficulty::Easy.depth(), 1);
    assert_eq!(CrownfallDifficulty::Medium.depth(), 2);
    assert_eq!(CrownfallDifficulty::Hard.depth(), 3);
    assert_eq!(CrownfallDifficulty::VeryHard.depth(), 4);
    let game = CrownfallGame::new(CrownfallRules::standard());
    assert!(best_move(&game, CrownfallPlayerKind::Black, 2, CrownfallPersonality::Balanced).is_none());
}

/// Applying a move through the quiet path and rolling it back must restore
/// the game exactly.
#[test]
fn journal_restore_roundtrips_every_selfplay_move() {
    for rules in [
        CrownfallRules::standard(),
        CrownfallRules::standard_archers(),
        CrownfallRules::standard_all_captures_processed(),
    ] {
        let mut game = CrownfallGame::new(rules);
        for _ in 0..40 {
            let player = match game.state {
                CrownfallGameState::Playing(play_state) => play_state.player(),
                _ => break,
            };
            let action = match best_move(&game, player, 2, CrownfallPersonality::Balanced) {
                Some(action) => action,
                None => break,
            };
            let before = game.clone();
            let undo = snapshot(&game);
            game.apply_action_quiet(action).expect("AI produces legal moves");
            restore(&mut game, &undo);
            assert_eq!(game, before, "restore must roundtrip under {rules:?}");
            game.apply_action(action).expect("AI produces legal moves");
        }
    }
}

fn assert_hash_parity_over_selfplay(rules: CrownfallRules) {
    let mut game = CrownfallGame::new(rules);
    for _ in 0..80 {
        let player = match game.state {
            CrownfallGameState::Playing(play_state) => play_state.player(),
            _ => break,
        };
        let action = match best_move(&game, player, 2, CrownfallPersonality::Aggressive) {
            Some(action) => action,
            None => break,
        };
        let history_len = game.history.len();
        game.apply_action(action).expect("AI produces legal moves");
        if game.history.len() > history_len {
            assert_eq!(
                *game.history.last().unwrap(),
                position_hash(&game.board, player.opposite()),
                "incremental hash diverged from full recompute under {rules:?}"
            );
        }
    }
}

#[test]
fn incremental_hash_matches_full_recompute() {
    for rules in [
        CrownfallRules::standard(),
        CrownfallRules::mini(),
        CrownfallRules::grand(),
        CrownfallRules::standard_archers(),
        CrownfallRules::mini_archers(),
        CrownfallRules::grand_archers(),
        CrownfallRules::standard_mandatory_capture(),
        CrownfallRules::standard_all_captures_processed(),
        CrownfallRules::standard_diagonal_knights(),
    ] {
        assert_hash_parity_over_selfplay(rules);
    }
}

/// A single moved Knight can complete two independent pincers at once.
#[test]
fn single_move_completes_two_independent_knight_pincers() {
    let rules = CrownfallRules::standard();
    fn c(x: usize, y: usize) -> CrownfallBoardCell {
        CrownfallBoardCell::new_coord(x, y, CrownfallBoardVariant::Normal)
    }
    fn mv(mut game: CrownfallGame, player: CrownfallPlayerKind, from: (usize, usize), to: (usize, usize)) -> CrownfallGame {
        game.apply_action(CrownfallPlayerAction::Move { player, from: c(from.0, from.1), to: c(to.0, to.1) })
            .expect("legal move");
        game
    }
    let mut game = CrownfallGame::new(rules);
    game = mv(game, White, (1, 5), (1, 4));
    game = mv(game, Black, (3, 1), (3, 2));
    game = mv(game, White, (2, 5), (2, 4));
    game = mv(game, Black, (1, 1), (1, 2));
    game = mv(game, White, (0, 5), (0, 4));
    game = mv(game, Black, (5, 1), (5, 2));
    game = mv(game, White, (4, 5), (4, 4));
    game = mv(game, Black, (1, 2), (1, 3));
    game = mv(game, White, (4, 4), (3, 4));
    game = mv(game, Black, (3, 2), (3, 3));
    game = mv(game, White, (2, 4), (2, 3));
    game = mv(game, Black, (2, 1), (2, 2));

    game = mv(game, White, (1, 4), (2, 4));

    let cells = game.board.cells();
    assert!(cells[c(1, 3).to_index()].is_none(), "Black Knight at (1,3) should be captured");
    assert!(cells[c(3, 3).to_index()].is_none(), "Black Spy at (3,3) should be captured");
    assert!(cells[c(2, 4).to_index()].is_none(), "the moved Knight should be sacrificed for capturing the Knight at (1,3)");
    assert!(cells[c(3, 4).to_index()].is_some(), "the partner Knight at (3,4) that completed the Spy pincer should survive");
    assert!(cells[c(0, 4).to_index()].is_some(), "the partner Knight at (0,4) that completed the Knight pincer should survive");
}

#[test]
fn fresh_searcher_and_free_best_move_choose_alike() {
    for rules in [CrownfallRules::standard(), CrownfallRules::mini(), CrownfallRules::standard_archers()] {
        let game = CrownfallGame::new(rules);
        for depth in 1..=3 {
            let free = best_move(&game, White, depth, CrownfallPersonality::Balanced);
            let mut searcher = CrownfallSearcher::new();
            let carried = searcher.best_move(&game, White, depth, CrownfallPersonality::Balanced);
            assert_eq!(free, carried);
            assert!(free.is_some());
        }
    }
}
