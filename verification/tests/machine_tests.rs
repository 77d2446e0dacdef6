use speedtype::app::{App, AppEvent, AppState, GameOptions, StartScreenAction};
use speedtype::game::{GameState, Key, LiveGame, NextState};
use speedtype::langs::{WordSupplier, WordSupplierBasic, WordSupplierRandomized};
use speedtype::text::{TextManager, TextManagerLang};

fn dictionary() -> Vec<String> {
    ["abc", "abc", "abc"].iter().map(|w| w.to_string()).collect()
}

fn fresh_manager() -> TextManagerLang {
    let supplier = WordSupplierRandomized::new(dictionary());
    assert!(supplier.usable());
    let mut manager = TextManager::new(supplier);
    // materialize a few lines, as the first render would
    manager.widget_data(20);
    manager
}

fn options() -> GameOptions {
    GameOptions { time: 1 }
}

#[test]
fn dictionary_is_filtered_and_lowercased() {
    let raw = ["AB", "c", "Hello", "x"].iter().map(|w| w.to_string()).collect();
    let supplier = WordSupplierRandomized::new(raw);
    assert_eq!(supplier.words.len(), 2);
    assert_eq!(supplier.words[0], vec!['a', 'b']);
    assert_eq!(supplier.words[1], vec!['h', 'e', 'l', 'l', 'o']);
}

#[test]
fn empty_dictionary_is_degenerate() {
    let raw = ["a", "b"].iter().map(|w| w.to_string()).collect();
    let supplier = WordSupplierRandomized::new(raw);
    assert!(supplier.words.is_empty());
    assert!(!supplier.usable());
}

#[test]
fn random_supplier_draws_from_dictionary() {
    let raw = vec!["AB".to_string()];
    let mut supplier = WordSupplierRandomized::new(raw);
    // one entry, so every draw must be exactly the lower-cased word
    for _ in 0..10 {
        assert_eq!(supplier.get_word(), vec!['a', 'b']);
    }
}

#[test]
fn basic_supplier_replays_its_word() {
    let mut supplier = WordSupplierBasic::new(vec!['h', 'i']);
    assert_eq!(supplier.get_word(), vec!['h', 'i']);
    assert_eq!(supplier.get_word(), vec!['h', 'i']);
}

#[test]
fn session_starts_on_first_character() {
    let game = LiveGame::new(options(), fresh_manager());
    assert!(matches!(game.state, GameState::BeforeStart(_)));
    // a character event starts the timer, matching the reference or not
    let next = game.handle_events(Some(Key::Char('a')), 100);
    match next {
        NextState::LiveGame(game) => match game.state {
            GameState::Started(started) => {
                assert_eq!(started.time_manager.start_ms, 100);
                assert_eq!(started.time_manager.duration_ms, 1000);
                assert_eq!(started.text_manager.correct(), 1);
            }
            _ => panic!(),
        },
        _ => panic!(),
    }
}

#[test]
fn session_ends_on_expiry_with_frozen_count() {
    let game = LiveGame::new(options(), fresh_manager());
    let game = match game.handle_events(Some(Key::Char('a')), 0) {
        NextState::LiveGame(game) => game,
        _ => panic!(),
    };
    let game = match game.handle_events(Some(Key::Char('b')), 200) {
        NextState::LiveGame(game) => game,
        _ => panic!(),
    };
    // budget is 1000 ms; the next tick after expiry ends the session
    match game.handle_events(None, 1500) {
        NextState::GameEnded(stats) => {
            assert_eq!(stats.acc, 2);
            // rate over the configured budget: 2 * 12000 / 1000
            assert_eq!(stats.wpm, 24);
        }
        _ => panic!(),
    }
}

#[test]
fn escape_exits_running_session() {
    let game = LiveGame::new(options(), fresh_manager());
    let game = match game.handle_events(Some(Key::Char('a')), 0) {
        NextState::LiveGame(game) => game,
        _ => panic!(),
    };
    match game.handle_events(Some(Key::Esc), 500) {
        NextState::Exit => {}
        _ => panic!(),
    }
}

#[test]
fn expiry_takes_precedence_over_escape() {
    // the tie between expiry and Escape on the same tick is fixed: expiry
    // is checked first, so even Escape ends the expired session
    let game = LiveGame::new(options(), fresh_manager());
    let game = match game.handle_events(Some(Key::Char('a')), 0) {
        NextState::LiveGame(game) => game,
        _ => panic!(),
    };
    match game.handle_events(Some(Key::Esc), 2000) {
        NextState::GameEnded(stats) => assert_eq!(stats.acc, 1),
        _ => panic!(),
    }
}

#[test]
fn escape_and_tab_before_start() {
    let game = LiveGame::new(options(), fresh_manager());
    assert!(matches!(game.handle_events(Some(Key::Esc), 0), NextState::Exit));
    let game = LiveGame::new(options(), fresh_manager());
    assert!(matches!(game.handle_events(Some(Key::Tab), 0), NextState::Restart));
}

#[test]
fn tab_resets_running_session() {
    let game = LiveGame::new(options(), fresh_manager());
    let game = match game.handle_events(Some(Key::Char('a')), 0) {
        NextState::LiveGame(game) => game,
        _ => panic!(),
    };
    assert!(matches!(game.handle_events(Some(Key::Tab), 500), NextState::Restart));
}

#[test]
fn running_session_scores_and_unscores() {
    let game = LiveGame::new(options(), fresh_manager());
    // every dictionary entry is "abc", so the reference starts "abc "
    let game = match game.handle_events(Some(Key::Char('a')), 0) {
        NextState::LiveGame(game) => game,
        _ => panic!(),
    };
    let game = match game.handle_events(Some(Key::Char('x')), 100) {
        NextState::LiveGame(game) => game,
        _ => panic!(),
    };
    let game = match game.handle_events(Some(Key::Backspace), 200) {
        NextState::LiveGame(game) => game,
        _ => panic!(),
    };
    match &game.state {
        GameState::Started(started) => {
            assert_eq!(started.text_manager.correct, 1);
            assert_eq!(started.text_manager.user_text, vec!['a']);
        }
        _ => panic!(),
    }
}

#[test]
fn quiet_polls_and_unknown_keys_continue() {
    let game = LiveGame::new(options(), fresh_manager());
    let game = match game.handle_events(None, 0) {
        NextState::LiveGame(game) => game,
        _ => panic!(),
    };
    let game = match game.handle_events(Some(Key::Other), 0) {
        NextState::LiveGame(game) => game,
        _ => panic!(),
    };
    assert!(matches!(game.state, GameState::BeforeStart(_)));
}

#[test]
fn menu_changes_duration_and_starts_game() {
    let app = App::new(GameOptions { time: 60 });
    let app = app
        .handle_events(AppEvent::Menu(StartScreenAction::ChangeTime(30)), fresh_manager())
        .unwrap();
    assert_eq!(app.options.time, 30);
    assert!(matches!(app.state, AppState::StartScreen));
    let app = app
        .handle_events(AppEvent::Menu(StartScreenAction::StartGame), fresh_manager())
        .unwrap();
    match &app.state {
        AppState::LiveGame(game) => match &game.state {
            GameState::BeforeStart(before) => assert_eq!(before.options.time, 30),
            _ => panic!(),
        },
        _ => panic!(),
    }
}

#[test]
fn menu_quit_ends_application() {
    let app = App::new(GameOptions { time: 60 });
    let outcome = app.handle_events(AppEvent::Menu(StartScreenAction::Quit), fresh_manager());
    assert!(outcome.is_none());
}

#[test]
fn session_exit_returns_to_menu() {
    let app = App::new(GameOptions { time: 60 });
    let app = app
        .handle_events(AppEvent::Menu(StartScreenAction::StartGame), fresh_manager())
        .unwrap();
    let app = app
        .handle_events(AppEvent::Game { key: Some(Key::Esc), now_ms: 0 }, fresh_manager())
        .unwrap();
    assert!(matches!(app.state, AppState::StartScreen));
}

#[test]
fn finished_session_shows_results_then_restarts() {
    let app = App::new(GameOptions { time: 1 });
    let app = app
        .handle_events(AppEvent::Menu(StartScreenAction::StartGame), fresh_manager())
        .unwrap();
    let app = app
        .handle_events(AppEvent::Game { key: Some(Key::Char('a')), now_ms: 0 }, fresh_manager())
        .unwrap();
    let app = app
        .handle_events(AppEvent::Game { key: None, now_ms: 5000 }, fresh_manager())
        .unwrap();
    match &app.state {
        AppState::EndGameScreen(stats) => assert_eq!(stats.acc, 1),
        _ => panic!(),
    }
    // Tab on the results screen re-enters a fresh session, same config
    let app = app.handle_events(AppEvent::End(Key::Tab), fresh_manager()).unwrap();
    match &app.state {
        AppState::LiveGame(game) => assert!(matches!(game.state, GameState::BeforeStart(_))),
        _ => panic!(),
    }
}

#[test]
fn results_escape_quits() {
    let app = App::new(GameOptions { time: 1 });
    let app = app
        .handle_events(AppEvent::Menu(StartScreenAction::StartGame), fresh_manager())
        .unwrap();
    let app = app
        .handle_events(AppEvent::Game { key: Some(Key::Char('a')), now_ms: 0 }, fresh_manager())
        .unwrap();
    let app = app
        .handle_events(AppEvent::Game { key: None, now_ms: 5000 }, fresh_manager())
        .unwrap();
    assert!(matches!(app.state, AppState::EndGameScreen(_)));
    // Escape on the results screen is terminal: the application quits
    let outcome = app.handle_events(AppEvent::End(Key::Esc), fresh_manager());
    assert!(outcome.is_none());
}

#[test]
fn mismatched_events_change_nothing() {
    let app = App::new(GameOptions { time: 60 });
    let app = app.handle_events(AppEvent::End(Key::Tab), fresh_manager()).unwrap();
    assert!(matches!(app.state, AppState::StartScreen));
    let app = app
        .handle_events(AppEvent::Game { key: None, now_ms: 0 }, fresh_manager())
        .unwrap();
    assert!(matches!(app.state, AppState::StartScreen));
}
