use vstd::prelude::*;
use crate::app::GameOptions;
use crate::text::{stepped_backspace, stepped_char, TextManagerLang};
use crate::timer::{spec_wpm_clamped, TimeManager};

verus! {

/// A decoded key event, as far as the session machine cares: a printable
/// character, backspace, escape, tab, or anything else.
#[derive(Clone, Copy, Debug, PartialEq, Eq, Structural)]
pub enum Key {
    Char(char),
    Backspace,
    Esc,
    Tab,
    Other,
}

/// Final statistics of a finished session: the words-per-minute rate over
/// the full budget, and the correct-character count at expiry.
#[derive(Clone, Copy, Debug, PartialEq, Eq, Structural)]
pub struct GameStats {
    pub wpm: u64,
    pub acc: usize,
}

/// What one tick of a running session asks of the caller.
pub enum GameAction {
    Reset,
    Continue,
    Quit,
    End(GameStats),
}

/// A session whose timer is running: the first keystroke has been typed.
pub struct StartedGame {
    pub time_manager: TimeManager,
    pub text_manager: TextManagerLang,
}

/// A session waiting for its first keystroke; the timer has not started.
pub struct BeforeStartedGame {
    pub text_manager: TextManagerLang,
    pub options: GameOptions,
}

pub enum GameState {
    BeforeStart(BeforeStartedGame),
    Started(StartedGame),
}

pub struct LiveGame {
    pub state: GameState,
}

pub enum NextState {
    LiveGame(LiveGame),
    GameEnded(GameStats),
    Exit,
    Restart,
}

/// The statistics a running session reports when its time budget expires:
/// the rate is computed over the configured budget (not the polled elapsed
/// time) and the accuracy is the correct count frozen at expiry.
pub open spec fn final_stats(s: StartedGame) -> GameStats {
    GameStats {
        wpm: spec_wpm_clamped(s.text_manager.correct as nat, s.time_manager.duration_ms as nat),
        acc: s.text_manager.correct,
    }
}

impl StartedGame {
    pub open spec fn wf(&self) -> bool {
        &&& self.time_manager.wf()
        &&& self.text_manager.wf()
    }

    pub fn new(text_manager: TextManagerLang, duration_ms: u64, now_ms: u64) -> (r: StartedGame)
        requires
            text_manager.wf(),
            duration_ms > 0,
        ensures
            (r.time_manager == TimeManager {
                start_ms: now_ms,
                duration_ms: duration_ms,
                last_wpm_update_ms: now_ms,
                last_wpm: 0,
            }),
            r.text_manager == text_manager,
            r.wf(),
    {
        StartedGame { time_manager: TimeManager::new(duration_ms, now_ms), text_manager }
    }

    /// One tick of a running session: expiry is checked first and ends the
    /// session whatever event arrived with it; otherwise the event is
    /// scored (characters, backspace) or turned into a quit or reset
    /// request; unknown keys and quiet polls continue unchanged.
    pub fn handle_events(&mut self, key: Option<Key>, now_ms: u64) -> (r: GameAction)
        requires
            old(self).wf(),
        ensures
            final(self).wf(),
            final(self).time_manager == old(self).time_manager,
            old(self).time_manager.spec_expired(now_ms) ==> r == GameAction::End(
                final_stats(*old(self)),
            ) && *final(self) == *old(self),
            !old(self).time_manager.spec_expired(now_ms) ==> match key {
                Some(Key::Char(c)) => r == GameAction::Continue && stepped_char(
                    old(self).text_manager,
                    final(self).text_manager,
                    c,
                ),
                Some(Key::Backspace) => r == GameAction::Continue && stepped_backspace(
                    old(self).text_manager,
                    final(self).text_manager,
                ),
                Some(Key::Esc) => r == GameAction::Quit && *final(self) == *old(self),
                Some(Key::Tab) => r == GameAction::Reset && *final(self) == *old(self),
                Some(Key::Other) => r == GameAction::Continue && *final(self) == *old(self),
                None => r == GameAction::Continue && *final(self) == *old(self),
            },
    {
        if self.time_manager.time_expired(now_ms) {
            let correct = self.text_manager.correct();
            let wpm = crate::timer::wpm_from_letters(correct, self.time_manager.duration());
            return GameAction::End(GameStats { wpm, acc: correct });
        }
        match key {
            Some(Key::Char(c)) => {
                self.text_manager.handle_char(c);
                GameAction::Continue
            },
            Some(Key::Backspace) => {
                self.text_manager.handle_backspace();
                GameAction::Continue
            },
            Some(Key::Esc) => GameAction::Quit,
            Some(Key::Tab) => GameAction::Reset,
            Some(Key::Other) => GameAction::Continue,
            None => GameAction::Continue,
        }
    }

    /// Share of the time budget spent, for the progress gauge.
    pub fn gauge_percent(&self, now_ms: u64) -> (r: u16)
        requires
            self.wf(),
        ensures
            r == self.time_manager.spec_percent(now_ms),
            r <= 100,
    {
        self.time_manager.percent_elapsed(now_ms)
    }
}

impl GameState {
    pub open spec fn wf(&self) -> bool {
        match self {
            GameState::BeforeStart(g) => g.text_manager.wf() && g.options.time > 0,
            GameState::Started(s) => s.wf(),
        }
    }

    pub fn new(options: GameOptions, text_manager: TextManagerLang) -> (r: GameState)
        requires
            text_manager.wf(),
            options.time > 0,
        ensures
            (r == GameState::BeforeStart(
                BeforeStartedGame { text_manager: text_manager, options: options },
            )),
            r.wf(),
    {
        GameState::BeforeStart(BeforeStartedGame { text_manager, options })
    }
}

/// The whole transition table of one session tick, relating the session
/// before the tick, the event and clock reading handed in, and the
/// resulting `NextState`.
pub open spec fn live_game_stepped(
    pre: LiveGame,
    key: Option<Key>,
    now_ms: u64,
    r: NextState,
) -> bool {
    match pre.state {
        GameState::BeforeStart(g) => match key {
            None => r == NextState::LiveGame(pre),
            Some(Key::Char(c)) => {
                &&& r matches NextState::LiveGame(lg)
                &&& lg.state matches GameState::Started(s)
                &&& (s.time_manager == TimeManager {
                    start_ms: now_ms,
                    duration_ms: (g.options.time * 1000) as u64,
                    last_wpm_update_ms: now_ms,
                    last_wpm: 0,
                })
                &&& stepped_char(g.text_manager, s.text_manager, c)
            },
            Some(Key::Backspace) => {
                &&& r matches NextState::LiveGame(lg)
                &&& lg.state matches GameState::BeforeStart(g2)
                &&& g2.options == g.options
                &&& stepped_backspace(g.text_manager, g2.text_manager)
            },
            Some(Key::Esc) => r == NextState::Exit,
            Some(Key::Tab) => r == NextState::Restart,
            Some(Key::Other) => r == NextState::LiveGame(pre),
        },
        GameState::Started(s) => {
            if s.time_manager.spec_expired(now_ms) {
                r == NextState::GameEnded(final_stats(s))
            } else {
                match key {
                    None => r == NextState::LiveGame(pre),
                    Some(Key::Char(c)) => {
                        &&& r matches NextState::LiveGame(lg)
                        &&& lg.state matches GameState::Started(s2)
                        &&& s2.time_manager == s.time_manager
                        &&& stepped_char(s.text_manager, s2.text_manager, c)
                    },
                    Some(Key::Backspace) => {
                        &&& r matches NextState::LiveGame(lg)
                        &&& lg.state matches GameState::Started(s2)
                        &&& s2.time_manager == s.time_manager
                        &&& stepped_backspace(s.text_manager, s2.text_manager)
                    },
                    Some(Key::Esc) => r == NextState::Exit,
                    Some(Key::Tab) => r == NextState::Restart,
                    Some(Key::Other) => r == NextState::LiveGame(pre),
                }
            }
        },
    }
}

/// Well-formedness of a tick's outcome: a surviving session is still
/// well-formed.
pub open spec fn next_state_wf(r: NextState) -> bool {
    match r {
        NextState::LiveGame(lg) => lg.wf(),
        _ => true,
    }
}

impl LiveGame {
    pub open spec fn wf(&self) -> bool {
        self.state.wf()
    }

    pub fn new(options: GameOptions, text_manager: TextManagerLang) -> (r: LiveGame)
        requires
            text_manager.wf(),
            options.time > 0,
        ensures
            (r.state == GameState::BeforeStart(
                BeforeStartedGame { text_manager: text_manager, options: options },
            )),
            r.wf(),
    {
        LiveGame { state: GameState::new(options, text_manager) }
    }

    /// One tick of the session machine. Before the first keystroke, a
    /// character starts the timer (that is how a session begins), backspace
    /// is applied without starting it, Escape exits and Tab restarts. Once
    /// running, the tick follows `StartedGame::handle_events`: expiry first,
    /// then the event.
    pub fn handle_events(self, key: Option<Key>, now_ms: u64) -> (r: NextState)
        requires
            self.wf(),
        ensures
            live_game_stepped(self, key, now_ms, r),
            next_state_wf(r),
    {
        match self.state {
            GameState::BeforeStart(mut game) => match key {
                Some(Key::Char(c)) => {
                    game.text_manager.handle_char(c);
                    let duration_ms = (game.options.time as u64) * 1000;
                    NextState::LiveGame(
                        LiveGame {
                            state: GameState::Started(
                                StartedGame::new(game.text_manager, duration_ms, now_ms),
                            ),
                        },
                    )
                },
                Some(Key::Backspace) => {
                    game.text_manager.handle_backspace();
                    NextState::LiveGame(LiveGame { state: GameState::BeforeStart(game) })
                },
                Some(Key::Esc) => NextState::Exit,
                Some(Key::Tab) => NextState::Restart,
                Some(Key::Other) => NextState::LiveGame(
                    LiveGame { state: GameState::BeforeStart(game) },
                ),
                None => NextState::LiveGame(LiveGame { state: GameState::BeforeStart(game) }),
            },
            GameState::Started(mut runner) => match runner.handle_events(key, now_ms) {
                GameAction::Continue => NextState::LiveGame(
                    LiveGame { state: GameState::Started(runner) },
                ),
                GameAction::Quit => NextState::Exit,
                GameAction::Reset => NextState::Restart,
                GameAction::End(game_stats) => NextState::GameEnded(game_stats),
            },
        }
    }
}

/// Session flow: from a session that has not started, a character event
/// (matching the reference or not) always yields a running session whose
/// timer starts at the tick's clock reading, with the configured budget.
pub proof fn lemma_first_char_starts(g: BeforeStartedGame, c: char, now_ms: u64, r: NextState)
    requires
        live_game_stepped(
            LiveGame { state: GameState::BeforeStart(g) },
            Some(Key::Char(c)),
            now_ms,
            r,
        ),
    ensures
        r matches NextState::LiveGame(lg) && lg.state matches GameState::Started(s)
            && s.time_manager.start_ms == now_ms && s.time_manager.duration_ms == g.options.time
            * 1000,
{
}

/// Session flow: once the budget has expired, the very next tick ends a
/// running session whatever event arrived with it; the reported accuracy is
/// the correct count frozen at expiry and the rate is computed over the
/// configured budget, not the polled elapsed time.
pub proof fn lemma_expiry_ends_session(s: StartedGame, key: Option<Key>, now_ms: u64, r: NextState)
    requires
        s.time_manager.spec_expired(now_ms),
        live_game_stepped(LiveGame { state: GameState::Started(s) }, key, now_ms, r),
    ensures
        r == NextState::GameEnded(final_stats(s)),
        final_stats(s).acc == s.text_manager.correct,
{
}

/// Escape priority: from a running session whose budget has not expired,
/// an Escape event always yields the exit signal. The tie with expiry is
/// fixed the other way: expiry is checked before the event, so on an
/// expired tick even Escape ends the session (`lemma_expiry_ends_session`).
pub proof fn lemma_escape_exits(s: StartedGame, now_ms: u64, r: NextState)
    requires
        !s.time_manager.spec_expired(now_ms),
        live_game_stepped(LiveGame { state: GameState::Started(s) }, Some(Key::Esc), now_ms, r),
    ensures
        r == NextState::Exit,
{
}

} // verus!
