use vstd::prelude::*;

use crate::menu::level::Level;
use crate::menu::screen::Screen;
use crate::menu::session_request::SessionRequest;

verus! {

/// What a [`MenuState`] holds: the visible screen, the screen that opened the
/// settings, and the level of the running session.
#[derive(Debug, Clone, Copy, PartialEq, Eq, Structural)]
pub struct MenuView {
    pub screen: Screen,
    pub settings_return: Screen,
    pub active_level: Option<Level>,
}

impl MenuView {
    /// The states that navigation can reach from the start screen: gameplay
    /// and its pause menu always have a session behind them, the start screen
    /// never has one, and settings go back only to the start or pause screen.
    pub open spec fn wf(self) -> bool {
        &&& (self.screen == Screen::Gameplay || self.screen == Screen::Pause || self.screen
            == Screen::GameOver) ==> self.active_level is Some
        &&& self.settings_return == Screen::Start || self.settings_return == Screen::Pause
        &&& (self.screen == Screen::Settings && self.settings_return == Screen::Pause)
            ==> self.active_level is Some
        &&& self.screen == Screen::Start ==> self.active_level is None
        &&& (self.screen == Screen::Settings && self.settings_return == Screen::Start)
            ==> self.active_level is None
    }

    pub open spec fn initial() -> MenuView {
        MenuView { screen: Screen::Start, settings_return: Screen::Start, active_level: None }
    }

    pub open spec fn with_screen(self, screen: Screen) -> MenuView {
        MenuView { screen, ..self }
    }

    pub open spec fn open_level_selection(self) -> MenuView {
        self.with_screen(Screen::LevelSelection)
    }

    pub open spec fn select_level(self, level: Level) -> MenuView {
        MenuView { screen: Screen::Gameplay, active_level: Some(level), ..self }
    }

    pub open spec fn restart_active_level(self) -> (MenuView, Option<SessionRequest>) {
        match self.active_level {
            Some(level) => (self.with_screen(Screen::Gameplay), Some(SessionRequest::Replace(level))),
            None => (self, None),
        }
    }

    pub open spec fn cancel_level_selection(self) -> (MenuView, bool) {
        if self.screen != Screen::LevelSelection {
            (self, false)
        } else if self.active_level is Some {
            (self.with_screen(Screen::Pause), true)
        } else {
            (self.with_screen(Screen::Start), true)
        }
    }

    pub open spec fn pause(self) -> (MenuView, bool) {
        if self.screen != Screen::Gameplay || self.active_level is None {
            (self, false)
        } else {
            (self.with_screen(Screen::Pause), true)
        }
    }

    pub open spec fn resume(self) -> (MenuView, bool) {
        if self.screen != Screen::Pause {
            (self, false)
        } else {
            (self.with_screen(Screen::Gameplay), true)
        }
    }

    pub open spec fn open_settings(self) -> (MenuView, bool) {
        if self.screen != Screen::Start && self.screen != Screen::Pause {
            (self, false)
        } else {
            (MenuView { screen: Screen::Settings, settings_return: self.screen, ..self }, true)
        }
    }

    pub open spec fn close_settings(self) -> (MenuView, bool) {
        if self.screen != Screen::Settings {
            (self, false)
        } else {
            (self.with_screen(self.settings_return), true)
        }
    }

    /// The session's last life is lost: live or paused gameplay ends on the
    /// game-over screen.
    pub open spec fn game_over(self) -> (MenuView, bool) {
        if (self.screen == Screen::Gameplay || self.screen == Screen::Pause) && self.active_level is Some {
            (self.with_screen(Screen::GameOver), true)
        } else {
            (self, false)
        }
    }

    pub open spec fn return_to_start(self) -> (MenuView, Option<SessionRequest>) {
        (
            MenuView { screen: Screen::Start, active_level: None, ..self },
            if self.active_level is Some {
                Some(SessionRequest::Stop)
            } else {
                None
            },
        )
    }
}

/// Pure navigation state for the game menu and active level session.
#[derive(Debug, Clone, Copy, PartialEq, Eq, Structural)]
pub struct MenuState {
    screen: Screen,
    settings_return: Screen,
    active_level: Option<Level>,
}

impl View for MenuState {
    type V = MenuView;

    closed spec fn view(&self) -> MenuView {
        MenuView {
            screen: self.screen,
            settings_return: self.settings_return,
            active_level: self.active_level,
        }
    }
}

impl MenuState {
    /// The start screen with no session.
    pub fn new() -> (r: MenuState)
        ensures
            r@ == MenuView::initial(),
    {
        MenuState { screen: Screen::Start, settings_return: Screen::Start, active_level: None }
    }

    /// Returns the currently visible menu screen.
    pub fn screen(self) -> (r: Screen)
        ensures
            r == self@.screen,
    {
        self.screen
    }

    /// Returns the level backing the current gameplay session, if any.
    pub fn active_level(self) -> (r: Option<Level>)
        ensures
            r == self@.active_level,
    {
        self.active_level
    }

    /// Opens level selection from the current menu context.
    pub fn open_level_selection(&mut self)
        ensures
            final(self)@ == old(self)@.open_level_selection(),
    {
        self.screen = Screen::LevelSelection;
    }

    /// Selects `level`, enters gameplay, and returns the required lifecycle effect.
    pub fn select_level(&mut self, level: Level) -> (r: SessionRequest)
        ensures
            final(self)@ == old(self)@.select_level(level),
            r == SessionRequest::Replace(level),
    {
        self.active_level = Some(level);
        self.screen = Screen::Gameplay;
        SessionRequest::Replace(level)
    }

    /// Restarts the active level after defeat and returns to live gameplay.
    pub fn restart_active_level(&mut self) -> (r: Option<SessionRequest>)
        ensures
            (final(self)@, r) == old(self)@.restart_active_level(),
    {
        match self.active_level {
            Some(level) => {
                self.screen = Screen::Gameplay;
                Some(SessionRequest::Replace(level))
            },
            None => None,
        }
    }

    /// Returns from level selection; `false` means the transition was unavailable.
    pub fn cancel_level_selection(&mut self) -> (r: bool)
        ensures
            (final(self)@, r) == old(self)@.cancel_level_selection(),
    {
        if self.screen != Screen::LevelSelection {
            return false;
        }
        self.screen = if self.active_level.is_some() {
            Screen::Pause
        } else {
            Screen::Start
        };
        true
    }

    /// Pauses live gameplay; `false` means no live gameplay screen was active.
    pub fn pause(&mut self) -> (r: bool)
        ensures
            (final(self)@, r) == old(self)@.pause(),
    {
        if self.screen != Screen::Gameplay || self.active_level.is_none() {
            return false;
        }
        self.screen = Screen::Pause;
        true
    }

    /// Resumes paused gameplay; `false` means the pause screen was not active.
    pub fn resume(&mut self) -> (r: bool)
        ensures
            (final(self)@, r) == old(self)@.resume(),
    {
        if self.screen != Screen::Pause {
            return false;
        }
        self.screen = Screen::Gameplay;
        true
    }

    /// Opens settings; `false` means the current screen cannot open them.
    pub fn open_settings(&mut self) -> (r: bool)
        ensures
            (final(self)@, r) == old(self)@.open_settings(),
    {
        if self.screen != Screen::Start && self.screen != Screen::Pause {
            return false;
        }
        self.settings_return = self.screen;
        self.screen = Screen::Settings;
        true
    }

    /// Closes settings to their opener; `false` means settings were not open.
    pub fn close_settings(&mut self) -> (r: bool)
        ensures
            (final(self)@, r) == old(self)@.close_settings(),
    {
        if self.screen != Screen::Settings {
            return false;
        }
        self.screen = self.settings_return;
        true
    }

    /// Shows the game-over screen for a running session; `false` means no
    /// session was on screen.
    pub fn game_over(&mut self) -> (r: bool)
        ensures
            (final(self)@, r) == old(self)@.game_over(),
    {
        if (self.screen != Screen::Gameplay && self.screen != Screen::Pause) || self.active_level.is_none() {
            return false;
        }
        self.screen = Screen::GameOver;
        true
    }

    /// Returns home and requests that any active session be stopped.
    pub fn return_to_start(&mut self) -> (r: Option<SessionRequest>)
        ensures
            (final(self)@, r) == old(self)@.return_to_start(),
    {
        let request = if self.active_level.is_some() {
            Some(SessionRequest::Stop)
        } else {
            None
        };
        self.active_level = None;
        self.screen = Screen::Start;
        request
    }
}

impl Default for MenuState {
    fn default() -> (r: MenuState)
        ensures
            r@ == MenuView::initial(),
    {
        MenuState::new()
    }
}

/// Every navigation step keeps the menu among its reachable states, which
/// the start screen is one of: live gameplay and its pause menu always have a
/// level session behind them.
pub proof fn lemma_menu_steps_keep_wf(v: MenuView, level: Level)
    requires
        v.wf(),
    ensures
        MenuView::initial().wf(),
        v.open_level_selection().wf(),
        v.select_level(level).wf(),
        v.restart_active_level().0.wf(),
        v.cancel_level_selection().0.wf(),
        v.pause().0.wf(),
        v.resume().0.wf(),
        v.open_settings().0.wf(),
        v.close_settings().0.wf(),
        v.game_over().0.wf(),
        v.return_to_start().0.wf(),
{
}

/// Settings close back to the screen that opened them, with the session kept.
pub proof fn lemma_settings_return_to_opener(v: MenuView)
    requires
        v.open_settings().1,
    ensures
        v.open_settings().0.close_settings().1,
        v.open_settings().0.close_settings().0.screen == v.screen,
        v.open_settings().0.close_settings().0.active_level == v.active_level,
{
}

/// Resuming right after a successful pause restores the exact state.
pub proof fn lemma_pause_then_resume(v: MenuView)
    requires
        v.pause().1,
    ensures
        v.pause().0.resume() == (v, true),
{
}

/// A selected level runs until the player returns home, which stops it.
pub proof fn lemma_select_then_return_stops(v: MenuView, level: Level)
    ensures
        v.select_level(level).screen == Screen::Gameplay,
        v.select_level(level).active_level == Some(level),
        v.select_level(level).return_to_start().1 == Some(SessionRequest::Stop),
        v.select_level(level).return_to_start().0.active_level is None,
        v.select_level(level).return_to_start().0.screen == Screen::Start,
{
}

} // verus!
