use vstd::prelude::*;
use crate::game::{
    live_game_stepped, next_state_wf, BeforeStartedGame, GameState, GameStats, Key, LiveGame,
    NextState,
};
use crate::text::TextManagerLang;

verus! {

/// Configuration carried across restarts within one run: the session
/// duration in seconds.
#[derive(Clone, Copy, Debug, PartialEq, Eq, Structural)]
pub struct GameOptions {
    pub time: u32,
}

/// What the start-screen menu (an external collaborator) reports for one
/// interaction.
#[derive(Clone, Copy, Debug, PartialEq, Eq, Structural)]
pub enum StartScreenAction {
    ChangeTime(u32),
    Continue,
    Quit,
    StartGame,
}

pub enum AppState {
    StartScreen,
    LiveGame(LiveGame),
    EndGameScreen(GameStats),
}

/// The application machine: start menu, live session, results screen.
pub struct App {
    pub options: GameOptions,
    pub state: AppState,
}

/// The event one application tick consumes, according to the screen shown:
/// a menu outcome on the start screen, a polled key with a clock reading
/// during a session, a blocking key on the results screen.
pub enum AppEvent {
    Menu(StartScreenAction),
    Game { key: Option<Key>, now_ms: u64 },
    End(Key),
}

impl AppState {
    pub open spec fn wf(&self) -> bool {
        match self {
            AppState::LiveGame(lg) => lg.wf(),
            _ => true,
        }
    }
}

/// A freshly constructed, not yet started session over `fresh`.
pub open spec fn fresh_session(options: GameOptions, fresh: TextManagerLang, a: App) -> bool {
    &&& a.options == options
    &&& a.state matches AppState::LiveGame(lg)
    &&& lg.state == GameState::BeforeStart(
        BeforeStartedGame { text_manager: fresh, options: options },
    )
}

/// How the application folds one session tick's outcome back into a screen:
/// a surviving session stays on screen, an exit returns to the menu, a
/// natural end shows the results, and a restart swaps in a fresh session
/// with the same configuration.
pub open spec fn app_folds_game(
    options: GameOptions,
    fresh: TextManagerLang,
    ns: NextState,
    r: Option<App>,
) -> bool {
    match ns {
        NextState::LiveGame(lg2) => r == Some(
            App { options: options, state: AppState::LiveGame(lg2) },
        ),
        NextState::Exit => r == Some(App { options: options, state: AppState::StartScreen }),
        NextState::GameEnded(stats) => r == Some(
            App { options: options, state: AppState::EndGameScreen(stats) },
        ),
        NextState::Restart => r matches Some(a) && fresh_session(options, fresh, a),
    }
}

/// The whole transition table of one application tick. On the results
/// screen Tab re-enters a fresh session and Escape is terminal: it quits
/// the application. Events of the wrong kind for the current screen change
/// nothing: every state and event combination has a defined transition.
pub open spec fn app_stepped(pre: App, event: AppEvent, fresh: TextManagerLang, r: Option<
    App,
>) -> bool {
    match pre.state {
        AppState::StartScreen => match event {
            AppEvent::Menu(StartScreenAction::Continue) => r == Some(pre),
            AppEvent::Menu(StartScreenAction::Quit) => r == None::<App>,
            AppEvent::Menu(StartScreenAction::StartGame) => r matches Some(a) && fresh_session(
                pre.options,
                fresh,
                a,
            ),
            AppEvent::Menu(StartScreenAction::ChangeTime(t)) => r == Some(
                App { options: GameOptions { time: t }, state: AppState::StartScreen },
            ),
            _ => r == Some(pre),
        },
        AppState::LiveGame(lg) => match event {
            AppEvent::Game { key, now_ms } => exists|ns: NextState|
                #[trigger] live_game_stepped(lg, key, now_ms, ns) && app_folds_game(
                    pre.options,
                    fresh,
                    ns,
                    r,
                ),
            _ => r == Some(pre),
        },
        AppState::EndGameScreen(stats) => match event {
            AppEvent::End(Key::Tab) => r matches Some(a) && fresh_session(pre.options, fresh, a),
            AppEvent::End(Key::Esc) => r == None::<App>,
            _ => r == Some(pre),
        },
    }
}

impl App {
    pub open spec fn wf(&self) -> bool {
        &&& self.options.time > 0
        &&& self.state.wf()
    }

    pub fn new(options: GameOptions) -> (r: App)
        requires
            options.time > 0,
        ensures
            r.options == options,
            r.state == AppState::StartScreen,
            r.wf(),
    {
        App { options, state: AppState::StartScreen }
    }

    /// One application tick: consume the event fitting the current screen
    /// and move to the next screen; `None` means quit. `fresh` is a newly
    /// built, empty session buffer that is swapped in whenever a new
    /// session must begin (menu start, tab restart) and dropped otherwise.
    /// The menu never offers a zero duration, so a `ChangeTime` event
    /// carries a positive time.
    pub fn handle_events(self, event: AppEvent, fresh: TextManagerLang) -> (r: Option<App>)
        requires
            self.wf(),
            fresh.wf(),
            event matches AppEvent::Menu(StartScreenAction::ChangeTime(t)) ==> t > 0,
        ensures
            app_stepped(self, event, fresh, r),
            r matches Some(a) ==> a.wf(),
    {
        match self.state {
            AppState::StartScreen => match event {
                AppEvent::Menu(StartScreenAction::Continue) => Some(
                    App { options: self.options, state: AppState::StartScreen },
                ),
                AppEvent::Menu(StartScreenAction::Quit) => None,
                AppEvent::Menu(StartScreenAction::StartGame) => Some(
                    App {
                        options: self.options,
                        state: AppState::LiveGame(LiveGame::new(self.options, fresh)),
                    },
                ),
                AppEvent::Menu(StartScreenAction::ChangeTime(t)) => Some(
                    App { options: GameOptions { time: t }, state: AppState::StartScreen },
                ),
                _ => Some(App { options: self.options, state: AppState::StartScreen }),
            },
            AppState::LiveGame(lg) => match event {
                AppEvent::Game { key, now_ms } => {
                    let ns = lg.handle_events(key, now_ms);
                    let ghost stepped_to = ns;
                    match ns {
                        NextState::LiveGame(lg2) => Some(
                            App { options: self.options, state: AppState::LiveGame(lg2) },
                        ),
                        NextState::Exit => Some(
                            App { options: self.options, state: AppState::StartScreen },
                        ),
                        NextState::GameEnded(stats) => Some(
                            App { options: self.options, state: AppState::EndGameScreen(stats) },
                        ),
                        NextState::Restart => Some(
                            App {
                                options: self.options,
                                state: AppState::LiveGame(LiveGame::new(self.options, fresh)),
                            },
                        ),
                    }
                },
                _ => Some(App { options: self.options, state: AppState::LiveGame(lg) }),
            },
            AppState::EndGameScreen(stats) => match event {
                AppEvent::End(Key::Tab) => Some(
                    App {
                        options: self.options,
                        state: AppState::LiveGame(LiveGame::new(self.options, fresh)),
                    },
                ),
                AppEvent::End(Key::Esc) => None,
                AppEvent::End(_) => Some(
                    App { options: self.options, state: AppState::EndGameScreen(stats) },
                ),
                _ => Some(App { options: self.options, state: AppState::EndGameScreen(stats) }),
            },
        }
    }
}

} // verus!
