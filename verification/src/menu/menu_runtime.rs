use vstd::prelude::*;

use crate::menu::display_preferences::DisplayPreferences;
use crate::menu::game_ui::{
    build_buttons, button_at, button_rect, contains_point, entry_is, lays_out, menu_entries, placed,
    move_selection, screen_canvas, spec_panel, Button, MenuLayout, FULLSCREEN, GAME_OVER_MAIN_MENU, LEVEL_BACK, LEVEL_ONE, LEVEL_TWO,
    MAIN_MENU, MAX_LAYOUT_RESOLUTIONS, PAUSE_LEVELS, PAUSE_QUIT, PAUSE_SETTINGS, QUIT,
    RESOLUTION_BASE, RESUME, SETTINGS_BACK, START, START_SETTINGS,
};
use crate::menu::level::Level;
use crate::menu::menu_state::{MenuState, MenuView};
use crate::menu::resolution_options::Mode;
use crate::menu::screen::Screen;
use crate::draw::{Color, DrawRect, DrawText, Rect};
use crate::messages::PlayerDefeated;
use crate::text::{decimal, lemma_decimal_len, str_eq};

verus! {

/// An extension that the menu loads and unloads.
#[derive(Debug, Clone, Copy, PartialEq, Eq, Structural)]
pub enum Extension {
    /// The player character.
    Will,
    /// The extension of a level.
    Level(Level),
}

impl Extension {
    pub open spec fn spec_name(self) -> Seq<char> {
        match self {
            Extension::Will => "will"@,
            Extension::Level(level) => level.spec_extension_name(),
        }
    }

    /// The extension's name in the engine's catalog.
    pub fn name(self) -> (r: &'static str)
        ensures
            r@ == self.spec_name(),
    {
        match self {
            Extension::Will => "will",
            Extension::Level(level) => level.extension_name(),
        }
    }
}

/// Something the menu asks the engine to do.
#[derive(Debug, Clone, Copy, PartialEq, Eq, Structural)]
pub enum MenuEffect {
    /// Pause or unpause the native simulation.
    SetPaused(bool),
    /// Discard the native world of the current session.
    ResetWorld,
    /// Instantiate an extension.
    Load(Extension),
    /// Shut an extension down.
    Unload(Extension),
    /// Switch the display to these preferences.
    ApplyDisplay(DisplayPreferences),
    /// Persist these preferences.
    SaveDisplay(DisplayPreferences),
    /// Quit the game.
    RequestExit,
}

/// Effects that start `next`, replacing the session of `previous` if any:
/// pause, unload the character and the old level, reset the world, load the
/// new level and then the character, and unpause.
pub open spec fn spec_replace_session(previous: Option<Level>, next: Level) -> Seq<MenuEffect> {
    seq![MenuEffect::SetPaused(true)] + match previous {
        Some(level) => seq![
            MenuEffect::Unload(Extension::Will),
            MenuEffect::Unload(Extension::Level(level)),
        ],
        None => Seq::empty(),
    } + seq![
        MenuEffect::ResetWorld,
        MenuEffect::Load(Extension::Level(next)),
        MenuEffect::Load(Extension::Will),
        MenuEffect::SetPaused(false),
    ]
}

/// Effects that end the session of `level` without a replacement.
pub open spec fn spec_stop_session(level: Level) -> Seq<MenuEffect> {
    seq![
        MenuEffect::SetPaused(true),
        MenuEffect::Unload(Extension::Will),
        MenuEffect::Unload(Extension::Level(level)),
        MenuEffect::ResetWorld,
    ]
}

pub fn replace_session(previous: Option<Level>, next: Level) -> (r: Vec<MenuEffect>)
    ensures
        r@ == spec_replace_session(previous, next),
{
    let mut out: Vec<MenuEffect> = Vec::new();
    out.push(MenuEffect::SetPaused(true));
    if let Some(level) = previous {
        out.push(MenuEffect::Unload(Extension::Will));
        out.push(MenuEffect::Unload(Extension::Level(level)));
    }
    out.push(MenuEffect::ResetWorld);
    out.push(MenuEffect::Load(Extension::Level(next)));
    out.push(MenuEffect::Load(Extension::Will));
    out.push(MenuEffect::SetPaused(false));
    assert(out@ =~= spec_replace_session(previous, next));
    out
}

pub fn stop_session(level: Level) -> (r: Vec<MenuEffect>)
    ensures
        r@ == spec_stop_session(level),
{
    let mut out: Vec<MenuEffect> = Vec::new();
    out.push(MenuEffect::SetPaused(true));
    out.push(MenuEffect::Unload(Extension::Will));
    out.push(MenuEffect::Unload(Extension::Level(level)));
    out.push(MenuEffect::ResetWorld);
    assert(out@ =~= spec_stop_session(level));
    out
}

/// What a [`MenuRuntime`] holds.
pub struct RuntimeView {
    pub menu: MenuView,
    pub preferences: DisplayPreferences,
    pub resolutions: Seq<Mode>,
    pub window_size: (u32, u32),
    pub selected: usize,
}

impl RuntimeView {
    /// The ids of the buttons the current screen shows.
    pub open spec fn entries(self) -> Seq<(u32, Seq<char>)> {
        menu_entries(self.menu.screen, self.preferences, self.resolutions)
    }

    pub open spec fn with_selected(self, selected: usize) -> RuntimeView {
        RuntimeView { selected, ..self }
    }

    /// A menu step that, like every screen change, resets the selection.
    pub open spec fn navigate(self, menu: MenuView) -> RuntimeView {
        RuntimeView { menu, selected: 0, ..self }
    }

    pub open spec fn with_preferences(self, preferences: DisplayPreferences) -> RuntimeView {
        RuntimeView { preferences, ..self }
    }

    /// What activating the button `id` does.
    pub open spec fn activate(self, id: u32) -> (RuntimeView, Seq<MenuEffect>) {
        let m = self.menu;
        if id == QUIT || id == PAUSE_QUIT {
            (self, seq![MenuEffect::RequestExit])
        } else if id == START || id == PAUSE_LEVELS {
            (self.navigate(m.open_level_selection()), Seq::empty())
        } else if id == START_SETTINGS || id == PAUSE_SETTINGS {
            (self.navigate(m.open_settings().0), Seq::empty())
        } else if id == LEVEL_ONE {
            (self.navigate(m.select_level(Level::One)), spec_replace_session(m.active_level, Level::One))
        } else if id == LEVEL_TWO {
            (self.navigate(m.select_level(Level::Two)), spec_replace_session(m.active_level, Level::Two))
        } else if id == LEVEL_BACK {
            (self.navigate(m.cancel_level_selection().0), Seq::empty())
        } else if id == RESUME {
            if m.resume().1 {
                (self.navigate(m.resume().0), seq![MenuEffect::SetPaused(false)])
            } else {
                (self, Seq::empty())
            }
        } else if id == MAIN_MENU || id == GAME_OVER_MAIN_MENU {
            (
                self.navigate(m.return_to_start().0),
                match m.active_level {
                    Some(level) => spec_stop_session(level),
                    None => Seq::empty(),
                },
            )
        } else if id == FULLSCREEN {
            let p = DisplayPreferences { fullscreen: !self.preferences.fullscreen, ..self.preferences };
            (self.with_preferences(p), seq![MenuEffect::ApplyDisplay(p), MenuEffect::SaveDisplay(p)])
        } else if id == SETTINGS_BACK {
            (self.navigate(m.close_settings().0), Seq::empty())
        } else if id >= RESOLUTION_BASE && id - RESOLUTION_BASE < self.resolutions.len() {
            let mode = self.resolutions[id - RESOLUTION_BASE];
            let p = DisplayPreferences { width: mode.0, height: mode.1, ..self.preferences };
            (self.with_preferences(p), seq![MenuEffect::ApplyDisplay(p), MenuEffect::SaveDisplay(p)])
        } else {
            (self, Seq::empty())
        }
    }

    /// What the Escape key does: pause or resume gameplay, or step back
    /// out of settings and level selection.
    pub open spec fn escape(self) -> (RuntimeView, Seq<MenuEffect>) {
        let m = self.menu;
        match m.screen {
            Screen::Gameplay => if m.pause().1 {
                (self.navigate(m.pause().0), seq![MenuEffect::SetPaused(true)])
            } else {
                (self, Seq::empty())
            },
            Screen::Pause => if m.resume().1 {
                (self.navigate(m.resume().0), seq![MenuEffect::SetPaused(false)])
            } else {
                (self, Seq::empty())
            },
            Screen::Settings => (self.navigate(m.close_settings().0), Seq::empty()),
            Screen::LevelSelection => (self.navigate(m.cancel_level_selection().0), Seq::empty()),
            Screen::Start | Screen::GameOver => (self, Seq::empty()),
        }
    }

    /// What the news that Will lost the last life does: a session on screen
    /// ends on the game-over screen, with the simulation paused.
    pub open spec fn defeated(self) -> (RuntimeView, Seq<MenuEffect>) {
        if self.menu.game_over().1 {
            (self.navigate(self.menu.game_over().0), seq![MenuEffect::SetPaused(true)])
        } else {
            (self, Seq::empty())
        }
    }

    /// The selection after moving by `delta` among the visible buttons.
    pub open spec fn moved(self, delta: int) -> usize {
        let n = self.entries().len() as int;
        if n == 0 {
            0
        } else {
            ((self.selected as int + delta) % n) as usize
        }
    }

    /// What a key press does.
    pub open spec fn key(self, key: Seq<char>) -> (RuntimeView, Seq<MenuEffect>) {
        if key == "Escape"@ {
            self.escape()
        } else if key == "Up"@ || key == "W"@ || key == "Left"@ || key == "A"@ {
            (self.with_selected(self.moved(-1)), Seq::empty())
        } else if key == "Down"@ || key == "S"@ || key == "Right"@ || key == "D"@ {
            (self.with_selected(self.moved(1)), Seq::empty())
        } else if key == "Return"@ || key == "Enter"@ || key == "Space"@ {
            if self.selected < self.entries().len() {
                self.activate(self.entries()[self.selected as int].0)
            } else {
                (self, Seq::empty())
            }
        } else {
            (self, Seq::empty())
        }
    }

    /// The panel the current screen's buttons stand in.
    pub open spec fn panel(self) -> crate::draw::Rect {
        spec_panel(screen_canvas(), self.entries().len())
    }

    /// Whether button `i` of the current screen is under the logical point.
    pub open spec fn hits(self, i: int, x: int, y: int) -> bool {
        let r = button_rect(self.panel(), i);
        0 <= i < self.entries().len() && r.x <= x < r.x + r.width && r.y <= y < r.y + r.height
    }

    /// The button under a logical point, if any.
    pub open spec fn hit(self, x: int, y: int) -> Option<int> {
        if exists|i: int| self.hits(i, x, y) {
            Some(choose|i: int| self.hits(i, x, y))
        } else {
            None
        }
    }

    /// What moving the pointer to a logical point does.
    pub open spec fn pointer_move(self, x: int, y: int) -> RuntimeView {
        match self.hit(x, y) {
            Some(i) => self.with_selected(i as usize),
            None => self,
        }
    }

    /// What pressing a mouse button at a logical point does: the primary
    /// button selects and activates the button under it.
    pub open spec fn pointer_down(self, button: u8, x: int, y: int) -> (RuntimeView, Seq<MenuEffect>) {
        if button != 1 {
            (self, Seq::empty())
        } else {
            match self.hit(x, y) {
                Some(i) => self.with_selected(i as usize).activate(self.entries()[i].0),
                None => (self, Seq::empty()),
            }
        }
    }
}

/// Two buttons of one panel never overlap.
pub proof fn lemma_buttons_disjoint(v: RuntimeView, i: int, j: int, x: int, y: int)
    requires
        v.resolutions.len() <= MAX_LAYOUT_RESOLUTIONS,
        v.hits(i, x, y),
        v.hits(j, x, y),
    ensures
        i == j,
{
    let p = v.panel();
    let n = v.entries().len();
    assert(n <= MAX_LAYOUT_RESOLUTIONS + 2);
    assert(0 <= p.y <= 300);
    assert(0 <= i * 54 <= 54 * (MAX_LAYOUT_RESOLUTIONS + 2)) by (nonlinear_arith)
        requires
            0 <= i < MAX_LAYOUT_RESOLUTIONS + 2,
    ;
    assert(0 <= j * 54 <= 54 * (MAX_LAYOUT_RESOLUTIONS + 2)) by (nonlinear_arith)
        requires
            0 <= j < MAX_LAYOUT_RESOLUTIONS + 2,
    ;
    assert(button_rect(p, i).y == p.y + 104 + i * 54);
    assert(button_rect(p, j).y == p.y + 104 + j * 54);
}

/// The menu's navigation state, display settings and keyboard selection.
pub struct MenuRuntime {
    menu: MenuState,
    preferences: DisplayPreferences,
    resolutions: Vec<Mode>,
    window_size: (u32, u32),
    selected: usize,
}

impl View for MenuRuntime {
    type V = RuntimeView;

    closed spec fn view(&self) -> RuntimeView {
        RuntimeView {
            menu: self.menu@,
            preferences: self.preferences,
            resolutions: self.resolutions@,
            window_size: self.window_size,
            selected: self.selected,
        }
    }
}

impl MenuRuntime {
    #[verifier::type_invariant]
    spec fn inv(self) -> bool {
        self.resolutions@.len() <= MAX_LAYOUT_RESOLUTIONS
    }

    /// The preferences a saved record restores: the record's, when it loads
    /// and names an offered resolution, else the defaults.
    pub open spec fn restored_preferences(resolutions: Seq<Mode>, saved: Option<Seq<u8>>) -> DisplayPreferences {
        match saved {
            Some(b) => match DisplayPreferences::spec_decode(b) {
                Some(p) => if resolutions.contains((p.width, p.height)) {
                    p
                } else {
                    DisplayPreferences { width: 800, height: 600, fullscreen: false }
                },
                None => DisplayPreferences { width: 800, height: 600, fullscreen: false },
            },
            None => DisplayPreferences { width: 800, height: 600, fullscreen: false },
        }
    }

    /// The start screen with the offered resolutions and the saved
    /// preferences, if any; the effect applies the chosen display.
    pub fn new(resolutions: Vec<Mode>, saved: Option<&[u8]>) -> (r: (MenuRuntime, Vec<MenuEffect>))
        requires
            resolutions@.len() <= MAX_LAYOUT_RESOLUTIONS,
        ensures
            r.0@.menu == MenuView::initial(),
            r.0@.resolutions == resolutions@,
            r.0@.window_size == (800u32, 600u32),
            r.0@.selected == 0,
            r.0@.preferences == Self::restored_preferences(
                resolutions@,
                match saved {
                    Some(b) => Some(b@),
                    None => None,
                },
            ),
            r.1@ == seq![MenuEffect::ApplyDisplay(r.0@.preferences)],
    {
        let mut preferences = DisplayPreferences { width: 800, height: 600, fullscreen: false };
        if let Some(bytes) = saved {
            if let Some(p) = DisplayPreferences::decode(bytes) {
                let mut found = false;
                let mut i: usize = 0;
                while i < resolutions.len()
                    invariant
                        i <= resolutions@.len(),
                        found == exists|j: int| 0 <= j < i && resolutions@[j] == (p.width, p.height),
                    decreases resolutions@.len() - i,
                {
                    if resolutions[i].0 == p.width && resolutions[i].1 == p.height {
                        found = true;
                    }
                    i = i + 1;
                }
                if found {
                    preferences = p;
                }
            }
        }
        let runtime = MenuRuntime {
            menu: MenuState::new(),
            preferences,
            resolutions,
            window_size: (800, 600),
            selected: 0,
        };
        let mut effects: Vec<MenuEffect> = Vec::new();
        effects.push(MenuEffect::ApplyDisplay(preferences));
        (runtime, effects)
    }

    pub fn menu(&self) -> (r: MenuState)
        ensures
            r@ == self@.menu,
    {
        self.menu
    }

    pub fn preferences(&self) -> (r: DisplayPreferences)
        ensures
            r == self@.preferences,
    {
        self.preferences
    }

    pub fn selected(&self) -> (r: usize)
        ensures
            r == self@.selected,
    {
        self.selected
    }

    pub fn window_size(&self) -> (r: (u32, u32))
        ensures
            r == self@.window_size,
    {
        self.window_size
    }

    /// Records the window's physical size after a display change.
    pub fn set_window_size(&mut self, width: u32, height: u32)
        ensures
            final(self)@ == (RuntimeView { window_size: (width, height), ..old(self)@ }),
    {
        proof {
            use_type_invariant(&*self);
        }
        self.window_size = (width, height);
    }

    /// The buttons the current screen shows.
    pub fn buttons(&self) -> (r: Vec<Button>)
        ensures
            lays_out(
                MenuLayout { panel: self@.panel(), buttons: r },
                screen_canvas(),
                self@.entries(),
            ),
    {
        proof {
            use_type_invariant(self);
        }
        build_buttons(self.menu.screen(), self.preferences, self.resolutions.as_slice())
    }

    fn navigate_to(&mut self, menu: MenuState)
        ensures
            final(self)@ == old(self)@.navigate(menu@),
    {
        proof {
            use_type_invariant(&*self);
        }
        self.menu = menu;
        self.selected = 0;
    }

    /// Activates the button `id`.
    pub fn activate_button(&mut self, id: u32) -> (r: Vec<MenuEffect>)
        ensures
            (final(self)@, r@) == old(self)@.activate(id),
    {
        proof {
            use_type_invariant(&*self);
        }
        let mut menu = self.menu;
        if id == QUIT || id == PAUSE_QUIT {
            let mut out: Vec<MenuEffect> = Vec::new();
            out.push(MenuEffect::RequestExit);
            return out;
        }
        if id == START || id == PAUSE_LEVELS {
            menu.open_level_selection();
            self.navigate_to(menu);
            Vec::new()
        } else if id == START_SETTINGS || id == PAUSE_SETTINGS {
            menu.open_settings();
            self.navigate_to(menu);
            Vec::new()
        } else if id == LEVEL_ONE {
            let previous = menu.active_level();
            menu.select_level(Level::One);
            self.navigate_to(menu);
            replace_session(previous, Level::One)
        } else if id == LEVEL_TWO {
            let previous = menu.active_level();
            menu.select_level(Level::Two);
            self.navigate_to(menu);
            replace_session(previous, Level::Two)
        } else if id == LEVEL_BACK {
            menu.cancel_level_selection();
            self.navigate_to(menu);
            Vec::new()
        } else if id == RESUME {
            if menu.resume() {
                self.navigate_to(menu);
                let mut out: Vec<MenuEffect> = Vec::new();
                out.push(MenuEffect::SetPaused(false));
                out
            } else {
                Vec::new()
            }
        } else if id == MAIN_MENU || id == GAME_OVER_MAIN_MENU {
            let active = menu.active_level();
            menu.return_to_start();
            self.navigate_to(menu);
            match active {
                Some(level) => stop_session(level),
                None => Vec::new(),
            }
        } else if id == FULLSCREEN {
            self.preferences.fullscreen = !self.preferences.fullscreen;
            let mut out: Vec<MenuEffect> = Vec::new();
            out.push(MenuEffect::ApplyDisplay(self.preferences));
            out.push(MenuEffect::SaveDisplay(self.preferences));
            out
        } else if id == SETTINGS_BACK {
            menu.close_settings();
            self.navigate_to(menu);
            Vec::new()
        } else if id >= RESOLUTION_BASE && ((id - RESOLUTION_BASE) as usize) < self.resolutions.len() {
            let mode = self.resolutions[(id - RESOLUTION_BASE) as usize];
            self.preferences.width = mode.0;
            self.preferences.height = mode.1;
            let mut out: Vec<MenuEffect> = Vec::new();
            out.push(MenuEffect::ApplyDisplay(self.preferences));
            out.push(MenuEffect::SaveDisplay(self.preferences));
            out
        } else {
            Vec::new()
        }
    }

    /// Handles the Escape key.
    pub fn handle_escape(&mut self) -> (r: Vec<MenuEffect>)
        ensures
            (final(self)@, r@) == old(self)@.escape(),
    {
        proof {
            use_type_invariant(&*self);
        }
        let mut menu = self.menu;
        match menu.screen() {
            Screen::Gameplay => {
                if menu.pause() {
                    self.navigate_to(menu);
                    let mut out: Vec<MenuEffect> = Vec::new();
                    out.push(MenuEffect::SetPaused(true));
                    out
                } else {
                    Vec::new()
                }
            },
            Screen::Pause => {
                if menu.resume() {
                    self.navigate_to(menu);
                    let mut out: Vec<MenuEffect> = Vec::new();
                    out.push(MenuEffect::SetPaused(false));
                    out
                } else {
                    Vec::new()
                }
            },
            Screen::Settings => {
                menu.close_settings();
                self.navigate_to(menu);
                Vec::new()
            },
            Screen::LevelSelection => {
                menu.cancel_level_selection();
                self.navigate_to(menu);
                Vec::new()
            },
            Screen::Start | Screen::GameOver => Vec::new(),
        }
    }

    /// Will lost the last life.
    pub fn player_defeated(&mut self) -> (r: Vec<MenuEffect>)
        ensures
            (final(self)@, r@) == old(self)@.defeated(),
    {
        proof {
            use_type_invariant(&*self);
        }
        let mut menu = self.menu;
        if menu.game_over() {
            self.navigate_to(menu);
            let mut out: Vec<MenuEffect> = Vec::new();
            out.push(MenuEffect::SetPaused(true));
            out
        } else {
            Vec::new()
        }
    }

    /// A game message on `topic`: the announcement that Will lost the last
    /// life ends the session on the game-over screen; anything else, or a
    /// payload that does not decode, changes nothing.
    pub fn on_game_message(&mut self, topic: &str, payload: &[u8]) -> (r: Vec<MenuEffect>)
        ensures
            (final(self)@, r@) == if topic@ == PlayerDefeated::TOPIC@ && PlayerDefeated::spec_decode(payload@) is Ok {
                old(self)@.defeated()
            } else {
                (old(self)@, Seq::empty())
            },
    {
        if str_eq(topic, PlayerDefeated::TOPIC) && PlayerDefeated::decode(payload).is_ok() {
            self.player_defeated()
        } else {
            Vec::new()
        }
    }

    /// Handles a key press by its key name.
    pub fn handle_key(&mut self, key: &str) -> (r: Vec<MenuEffect>)
        ensures
            (final(self)@, r@) == old(self)@.key(key@),
    {
        proof {
            use_type_invariant(&*self);
        }
        if str_eq(key, "Escape") {
            return self.handle_escape();
        }
        let buttons = self.buttons();
        let n = buttons.len();
        if str_eq(key, "Up") || str_eq(key, "W") || str_eq(key, "Left") || str_eq(key, "A") {
            self.selected = move_selection(self.selected, n, -1);
            Vec::new()
        } else if str_eq(key, "Down") || str_eq(key, "S") || str_eq(key, "Right") || str_eq(key, "D") {
            self.selected = move_selection(self.selected, n, 1);
            Vec::new()
        } else if str_eq(key, "Return") || str_eq(key, "Enter") || str_eq(key, "Space") {
            if self.selected < n {
                let id = buttons[self.selected].id;
                assert(entry_is_id(buttons@[self.selected as int], self@.entries()[self.selected as int]));
                self.activate_button(id)
            } else {
                Vec::new()
            }
        } else {
            Vec::new()
        }
    }

    fn button_under(&self, x: i32, y: i32) -> (r: Option<(usize, u32)>)
        ensures
            match self@.hit(x as int, y as int) {
                Some(i) => r == Some((i as usize, self@.entries()[i].0)),
                None => r is None,
            },
    {
        proof {
            use_type_invariant(self);
        }
        let buttons = self.buttons();
        match button_at(buttons.as_slice(), x, y) {
            Some(i) => {
                assert(self@.hits(i as int, x as int, y as int));
                let ghost c = choose|j: int| self@.hits(j, x as int, y as int);
                proof {
                    lemma_buttons_disjoint(self@, i as int, c, x as int, y as int);
                }
                Some((i, buttons[i].id))
            },
            None => {
                assert forall|j: int| !self@.hits(j, x as int, y as int) by {
                    if 0 <= j < buttons@.len() {
                        assert(!contains_point(buttons@[j], x as int, y as int));
                    }
                }
                None
            },
        }
    }

    /// Moves the keyboard selection to the button under the pointer, given
    /// in logical screen coordinates.
    pub fn handle_pointer_move(&mut self, x: i32, y: i32)
        ensures
            final(self)@ == old(self)@.pointer_move(x as int, y as int),
    {
        proof {
            use_type_invariant(&*self);
        }
        if let Some((index, _)) = self.button_under(x, y) {
            self.selected = index;
        }
    }

    /// Handles a mouse button press at a logical screen point.
    pub fn handle_pointer_down(&mut self, button: u8, x: i32, y: i32) -> (r: Vec<MenuEffect>)
        ensures
            (final(self)@, r@) == old(self)@.pointer_down(button, x as int, y as int),
    {
        proof {
            use_type_invariant(&*self);
        }
        if button != 1 {
            return Vec::new();
        }
        match self.button_under(x, y) {
            Some((index, id)) => {
                self.selected = index;
                self.activate_button(id)
            },
            None => Vec::new(),
        }
    }
}

/// Whether a button carries the id of an entry.
pub open spec fn entry_is_id(b: Button, e: (u32, Seq<char>)) -> bool {
    b.id == e.0
}

/// What the engine runs, as far as the menu's effects decide it: the loaded
/// extensions and whether the native simulation is paused.
pub struct EngineView {
    pub loaded: Set<Extension>,
    pub paused: bool,
}

pub open spec fn apply_effect(w: EngineView, e: MenuEffect) -> EngineView {
    match e {
        MenuEffect::SetPaused(p) => EngineView { paused: p, ..w },
        MenuEffect::Load(x) => EngineView { loaded: w.loaded.insert(x), ..w },
        MenuEffect::Unload(x) => EngineView { loaded: w.loaded.remove(x), ..w },
        _ => w,
    }
}

/// The engine after carrying out `effects` in order.
pub open spec fn apply_effects(w: EngineView, effects: Seq<MenuEffect>) -> EngineView
    decreases effects.len(),
{
    if effects.len() == 0 {
        w
    } else {
        apply_effects(apply_effect(w, effects[0]), effects.drop_first())
    }
}

/// The extensions a session of `active` runs: the level and the character.
pub open spec fn session_extensions(active: Option<Level>) -> Set<Extension> {
    match active {
        Some(level) => set![Extension::Level(level), Extension::Will],
        None => Set::empty(),
    }
}

/// The engine runs exactly the menu's session, and that session's
/// simulation runs exactly while gameplay is on screen.
pub open spec fn in_step(v: RuntimeView, w: EngineView) -> bool {
    &&& w.loaded == session_extensions(v.menu.active_level)
    &&& v.menu.active_level is Some ==> (w.paused <==> v.menu.screen != Screen::Gameplay)
}

proof fn lemma_apply_concat(w: EngineView, a: Seq<MenuEffect>, b: Seq<MenuEffect>)
    ensures
        apply_effects(w, a + b) == apply_effects(apply_effects(w, a), b),
    decreases a.len(),
{
    if a.len() == 0 {
        assert(a + b =~= b);
    } else {
        assert((a + b).drop_first() =~= a.drop_first() + b);
        lemma_apply_concat(apply_effect(w, a[0]), a.drop_first(), b);
    }
}

/// Replacing a session leaves the new level and the character loaded and
/// the simulation running; stopping one unloads both and leaves it paused.
pub proof fn lemma_session_effects(w: EngineView, previous: Option<Level>, next: Level)
    requires
        w.loaded == session_extensions(previous),
    ensures
        apply_effects(w, spec_replace_session(previous, next)).loaded == session_extensions(Some(next)),
        !apply_effects(w, spec_replace_session(previous, next)).paused,
        previous matches Some(level) ==> apply_effects(w, spec_stop_session(level)).loaded == Set::<Extension>::empty(),
        previous matches Some(level) ==> apply_effects(w, spec_stop_session(level)).paused,
{
    reveal_with_fuel(apply_effects, 8);
    let tail = seq![
        MenuEffect::ResetWorld,
        MenuEffect::Load(Extension::Level(next)),
        MenuEffect::Load(Extension::Will),
        MenuEffect::SetPaused(false),
    ];
    let mid: Seq<MenuEffect> = match previous {
        Some(level) => seq![
            MenuEffect::Unload(Extension::Will),
            MenuEffect::Unload(Extension::Level(level)),
        ],
        None => Seq::empty(),
    };
    let head = seq![MenuEffect::SetPaused(true)];
    lemma_apply_concat(w, head + mid, tail);
    lemma_apply_concat(w, head, mid);
    let w2 = apply_effects(w, head + mid);
    assert(w2.loaded =~= Set::<Extension>::empty());
    assert(apply_effects(w2, tail).loaded =~= session_extensions(Some(next)));
    if let Some(level) = previous {
        assert(apply_effects(w, spec_stop_session(level)).loaded =~= Set::<Extension>::empty());
    }
}

/// Activating any button the current screen shows keeps the engine in step
/// with the menu.
pub proof fn lemma_activate_keeps_engine_in_step(v: RuntimeView, w: EngineView, i: int)
    requires
        v.menu.wf(),
        in_step(v, w),
        0 <= i < v.entries().len(),
    ensures
        v.activate(v.entries()[i].0).0.menu.wf(),
        in_step(v.activate(v.entries()[i].0).0, apply_effects(w, v.activate(v.entries()[i].0).1)),
{
    reveal_with_fuel(apply_effects, 3);
    let id = v.entries()[i].0;
    crate::menu::menu_state::lemma_menu_steps_keep_wf(v.menu, Level::One);
    crate::menu::menu_state::lemma_menu_steps_keep_wf(v.menu, Level::Two);
    lemma_session_effects(w, v.menu.active_level, Level::One);
    lemma_session_effects(w, v.menu.active_level, Level::Two);
    if v.menu.screen == Screen::Settings {
        assert(1 <= i <= v.resolutions.len() ==> id == (RESOLUTION_BASE + (i - 1)) as u32);
    }
}

/// Every key press keeps the engine in step with the menu.
pub proof fn lemma_key_keeps_engine_in_step(v: RuntimeView, w: EngineView, key: Seq<char>)
    requires
        v.menu.wf(),
        in_step(v, w),
    ensures
        v.key(key).0.menu.wf(),
        in_step(v.key(key).0, apply_effects(w, v.key(key).1)),
{
    reveal_with_fuel(apply_effects, 2);
    crate::menu::menu_state::lemma_menu_steps_keep_wf(v.menu, Level::One);
    if key != "Escape"@ && (key == "Return"@ || key == "Enter"@ || key == "Space"@)
        && v.selected < v.entries().len() {
        lemma_activate_keeps_engine_in_step(v, w, v.selected as int);
    }
}

/// Every mouse press keeps the engine in step with the menu.
pub proof fn lemma_pointer_keeps_engine_in_step(v: RuntimeView, w: EngineView, button: u8, x: int, y: int)
    requires
        v.menu.wf(),
        in_step(v, w),
    ensures
        v.pointer_down(button, x, y).0.menu.wf(),
        in_step(v.pointer_down(button, x, y).0, apply_effects(w, v.pointer_down(button, x, y).1)),
{
    if button == 1 {
        if let Some(i) = v.hit(x, y) {
            assert(v.hits(i, x, y));
            lemma_activate_keeps_engine_in_step(v.with_selected(i as usize), w, i);
        }
    }
}

/// The news of a defeat keeps the engine in step with the menu: the session
/// stays loaded and paused on the game-over screen.
pub proof fn lemma_defeat_keeps_engine_in_step(v: RuntimeView, w: EngineView)
    requires
        v.menu.wf(),
        in_step(v, w),
    ensures
        v.defeated().0.menu.wf(),
        in_step(v.defeated().0, apply_effects(w, v.defeated().1)),
        v.defeated().1.len() > 0 ==> v.defeated().0.menu.screen == Screen::GameOver,
{
    reveal_with_fuel(apply_effects, 2);
    crate::menu::menu_state::lemma_menu_steps_keep_wf(v.menu, Level::One);
}

/// At startup no extension of a session is loaded and the menu is in step.
pub proof fn lemma_startup_in_step(v: RuntimeView, paused: bool)
    requires
        v.menu == MenuView::initial(),
    ensures
        v.menu.wf(),
        in_step(v, EngineView { loaded: Set::empty(), paused }),
{
}

/// Effects that end the running session when the menu shuts down.
pub fn shutdown(runtime: &MenuRuntime) -> (r: Vec<MenuEffect>)
    ensures
        r@ == match runtime@.menu.active_level {
            Some(level) => spec_stop_session(level),
            None => Seq::empty(),
        },
{
    match runtime.menu().active_level() {
        Some(level) => stop_session(level),
        None => Vec::new(),
    }
}

pub const MENU_LAYER: u8 = 250;

pub open spec fn panel_color() -> Color {
    (14, 18, 30, 255)
}

pub open spec fn border_color() -> Color {
    (85, 190, 220, 255)
}

pub open spec fn title_color() -> Color {
    (235, 248, 255, 255)
}

pub open spec fn subtitle_color() -> Color {
    (145, 178, 195, 255)
}

pub open spec fn button_color() -> Color {
    (34, 52, 78, 255)
}

pub open spec fn selected_color() -> Color {
    (45, 132, 160, 255)
}

/// Title and subtitle of a screen.
pub open spec fn spec_title_for(screen: Screen) -> (Seq<char>, Seq<char>) {
    match screen {
        Screen::Start => ("ARTIFICIAL WILL"@, "A machine with a will of its own"@),
        Screen::LevelSelection => ("SELECT LEVEL"@, "Choose where Will wakes"@),
        Screen::Pause => ("SYSTEM PAUSED"@, "Escape resumes the simulation"@),
        Screen::Settings => ("DISPLAY SETTINGS"@, "Changes apply immediately"@),
        Screen::GameOver => ("GAME OVER"@, "Will has no lives left"@),
        Screen::Gameplay => (""@, ""@),
    }
}

/// Title and subtitle of a screen.
pub fn title_for(screen: Screen) -> (r: (&'static str, &'static str))
    ensures
        (r.0@, r.1@) == spec_title_for(screen),
{
    match screen {
        Screen::Start => ("ARTIFICIAL WILL", "A machine with a will of its own"),
        Screen::LevelSelection => ("SELECT LEVEL", "Choose where Will wakes"),
        Screen::Pause => ("SYSTEM PAUSED", "Escape resumes the simulation"),
        Screen::Settings => ("DISPLAY SETTINGS", "Changes apply immediately"),
        Screen::GameOver => ("GAME OVER", "Will has no lives left"),
        Screen::Gameplay => ("", ""),
    }
}

/// One menu drawing command.
#[derive(Debug, PartialEq, Eq)]
pub enum MenuDraw {
    Rect(DrawRect),
    Text(DrawText),
}

/// A menu drawing command, with the text as characters.
pub enum DrawSpec {
    Rect(DrawRect),
    Text { text: Seq<char>, x: int, y: int, size: u16, color: Color },
}

/// Whether a command is the one `s` describes, on the menu layer in screen space.
pub open spec fn draws(d: MenuDraw, s: DrawSpec) -> bool {
    match s {
        DrawSpec::Rect(r) => d == MenuDraw::Rect(r),
        DrawSpec::Text { text, x, y, size, color } => match d {
            MenuDraw::Text(t) => t.text@ == text && t.x == x && t.y == y && t.size == size
                && t.color == color && t.layer == MENU_LAYER && t.screen_space,
            _ => false,
        },
    }
}

pub open spec fn menu_rect(r: Rect, filled: bool, color: Color) -> DrawSpec {
    DrawSpec::Rect(
        DrawRect {
            x: r.x,
            y: r.y,
            w: r.width,
            h: r.height,
            filled,
            color,
            layer: MENU_LAYER,
            screen_space: true,
        },
    )
}

/// Where a label of `len` characters, eight pixels each, starts so that it
/// is centered in a button at `x` that is `width` wide.
pub open spec fn centered_text_x(x: int, width: int, len: int) -> int {
    let d = width - len * 8;
    x + if d >= 0 {
        d / 2
    } else {
        -((-d) / 2)
    }
}

/// The commands for button `i`: its background, a `>` marker when it is
/// selected, and its centered label.
pub open spec fn button_draws(v: RuntimeView, i: int) -> Seq<DrawSpec> {
    let r = button_rect(v.panel(), i);
    let label = v.entries()[i].1;
    let selected = i == v.selected;
    seq![
        menu_rect(
            r,
            true,
            if selected {
                selected_color()
            } else {
                button_color()
            },
        ),
    ] + if selected {
        seq![DrawSpec::Text { text: ">"@, x: r.x + 14, y: r.y + 12, size: 18, color: title_color() }]
    } else {
        Seq::empty()
    } + seq![
        DrawSpec::Text {
            text: label,
            x: centered_text_x(r.x as int, r.width as int, label.len() as int),
            y: r.y + 12,
            size: 16,
            color: title_color(),
        },
    ]
}

/// The commands of the first `k` buttons.
pub open spec fn buttons_draws(v: RuntimeView, k: int) -> Seq<DrawSpec>
    decreases k,
{
    if k <= 0 {
        Seq::empty()
    } else {
        buttons_draws(v, k - 1) + button_draws(v, k - 1)
    }
}

/// What the menu draws in a frame: during gameplay a single transparent
/// pixel at the origin; otherwise the panel with border, title and subtitle,
/// then each button.
pub open spec fn spec_ui(v: RuntimeView) -> Seq<DrawSpec> {
    if v.menu.screen == Screen::Gameplay {
        seq![menu_rect(Rect { x: 0i32, y: 0i32, width: 1, height: 1 }, true, (0, 0, 0, 0))]
    } else {
        let p = v.panel();
        let (title, subtitle) = spec_title_for(v.menu.screen);
        seq![
            menu_rect(p, true, panel_color()),
            menu_rect(p, false, border_color()),
            DrawSpec::Text { text: title, x: p.x + 28, y: p.y + 22, size: 24, color: title_color() },
            DrawSpec::Text {
                text: subtitle,
                x: p.x + 28,
                y: p.y + 58,
                size: 14,
                color: subtitle_color(),
            },
        ] + buttons_draws(v, v.entries().len() as int)
    }
}

/// Every label the menu shows fits in 26 characters.
pub proof fn lemma_labels_short(v: RuntimeView, i: int)
    requires
        0 <= i < v.entries().len(),
    ensures
        v.entries()[i].1.len() <= 26,
{
    reveal_strlit("Start");
    reveal_strlit("Settings");
    reveal_strlit("Quit");
    reveal_strlit("Level One");
    reveal_strlit("Level Two");
    reveal_strlit("Press Enter to Main Menu");
    reveal_strlit("Back");
    reveal_strlit("Resume");
    reveal_strlit("Level Selection");
    reveal_strlit("Main Menu");
    reveal_strlit("Fullscreen: On");
    reveal_strlit("Fullscreen: Off");
    reveal_strlit(" x ");
    reveal_strlit("  <");
    reveal_strlit("");
    if v.menu.screen == Screen::Settings && 1 <= i <= v.resolutions.len() {
        let mode = v.resolutions[i - 1];
        lemma_decimal_len(mode.0 as nat);
        lemma_decimal_len(mode.1 as nat);
    }
}

fn push_rect(out: &mut Vec<MenuDraw>, r: Rect, filled: bool, color: Color)
    ensures
        final(out)@.len() == old(out)@.len() + 1,
        final(out)@.subrange(0, old(out)@.len() as int) == old(out)@,
        draws(final(out)@[old(out)@.len() as int], menu_rect(r, filled, color)),
{
    out.push(
        MenuDraw::Rect(
            DrawRect {
                x: r.x,
                y: r.y,
                w: r.width,
                h: r.height,
                filled,
                color,
                layer: MENU_LAYER,
                screen_space: true,
            },
        ),
    );
    assert(final(out)@.subrange(0, old(out)@.len() as int) =~= old(out)@);
}

fn push_text(out: &mut Vec<MenuDraw>, text: &str, x: i32, y: i32, size: u16, color: Color)
    ensures
        final(out)@.len() == old(out)@.len() + 1,
        final(out)@.subrange(0, old(out)@.len() as int) == old(out)@,
        draws(
            final(out)@[old(out)@.len() as int],
            DrawSpec::Text { text: text@, x: x as int, y: y as int, size, color },
        ),
{
    out.push(
        MenuDraw::Text(
            DrawText {
                text: String::from_str(text),
                x,
                y,
                size,
                color,
                layer: MENU_LAYER,
                screen_space: true,
            },
        ),
    );
    assert(final(out)@.subrange(0, old(out)@.len() as int) =~= old(out)@);
}

/// Whether the commands drawn are the ones `s` describes, one for one.
pub open spec fn draws_all(d: Seq<MenuDraw>, s: Seq<DrawSpec>) -> bool {
    d.len() == s.len() && forall|i: int| 0 <= i < d.len() ==> draws(#[trigger] d[i], s[i])
}

/// The commands that draw the menu this frame.
pub fn publish_ui(runtime: &MenuRuntime) -> (r: Vec<MenuDraw>)
    ensures
        draws_all(r@, spec_ui(runtime@)),
{
    let ghost v = runtime@;
    proof {
        use_type_invariant(runtime);
    }
    let mut out: Vec<MenuDraw> = Vec::new();
    let screen = runtime.menu().screen();
    if screen == Screen::Gameplay {
        push_rect(&mut out, Rect { x: 0, y: 0, width: 1, height: 1 }, true, (0, 0, 0, 0));
        return out;
    }
    let buttons = runtime.buttons();
    let n = buttons.len();
    let ghost p = v.panel();
    let height = crate::menu::game_ui::panel_height(n);
    let panel = Rect {
        x: 190,
        y: if height <= 600 {
            ((600 - height) / 2) as i32
        } else {
            0
        },
        width: 420,
        height,
    };
    assert(panel == p);
    push_rect(&mut out, panel, true, (14, 18, 30, 255));
    push_rect(&mut out, panel, false, (85, 190, 220, 255));
    let (title, subtitle) = title_for(screen);
    push_text(&mut out, title, panel.x + 28, panel.y + 22, 24, (235, 248, 255, 255));
    push_text(&mut out, subtitle, panel.x + 28, panel.y + 58, 14, (145, 178, 195, 255));
    let ghost header = out@;
    assert(draws_all(header, spec_ui(v).subrange(0, 4)));
    let selected = runtime.selected();
    let mut i: usize = 0;
    while i < n
        invariant
            n == buttons@.len(),
            n == v.entries().len(),
            i <= n,
            v == runtime@,
            selected == v.selected,
            v.menu.screen != Screen::Gameplay,
            lays_out(MenuLayout { panel: p, buttons }, screen_canvas(), v.entries()),
            p == v.panel(),
            header.len() == 4,
            out@.len() >= 4,
            v.resolutions.len() <= MAX_LAYOUT_RESOLUTIONS,
            0 <= p.y <= 300,
            p.x == 190,
            p.width == 420,
            out@.subrange(0, 4) == header,
            draws_all(header, spec_ui(v).subrange(0, 4)),
            draws_all(out@.subrange(4, out@.len() as int), buttons_draws(v, i as int)),
        decreases n - i,
    {
        let b = &buttons[i];
        assert(placed(buttons@[i as int], v.entries()[i as int], button_rect(p, i as int)));
        proof {
            lemma_labels_short(v, i as int);
            assert(0 <= (i as int) * 54 <= 54 * (MAX_LAYOUT_RESOLUTIONS + 2)) by (nonlinear_arith)
                requires
                    i < MAX_LAYOUT_RESOLUTIONS + 2,
            ;
        }
        let ghost before = out@;
        push_rect(
            &mut out,
            Rect { x: b.x, y: b.y, width: b.width, height: b.height },
            true,
            if i == selected {
                (45, 132, 160, 255)
            } else {
                (34, 52, 78, 255)
            },
        );
        if i == selected {
            push_text(&mut out, ">", b.x + 14, b.y + 12, 18, (235, 248, 255, 255));
        }
        let count = b.label.as_str().unicode_len();
        let d = b.width as i32 - (count as i32) * 8;
        let text_x = b.x + if d >= 0 {
            d / 2
        } else {
            -((-d) / 2)
        };
        push_text(&mut out, b.label.as_str(), text_x, b.y + 12, 16, (235, 248, 255, 255));
        proof {
            let bd = button_draws(v, i as int);
            let tail = out@.subrange(4, out@.len() as int);
            assert(tail =~= before.subrange(4, before.len() as int) + out@.subrange(
                before.len() as int,
                out@.len() as int,
            ));
            assert(buttons_draws(v, i + 1) == buttons_draws(v, i as int) + bd);
            assert(out@.subrange(0, 4) =~= header);
        }
        i = i + 1;
    }
    proof {
        assert(spec_ui(v) =~= spec_ui(v).subrange(0, 4) + buttons_draws(v, n as int));
        assert(out@ =~= out@.subrange(0, 4) + out@.subrange(4, out@.len() as int));
    }
    out
}

/// Any of Up, W, Left and A moves the selection to the previous button of
/// the screen, from the first to the last; any of Down, S, Right and D to
/// the next, from the last to the first. Nothing else changes and the
/// engine is asked for nothing.
pub proof fn lemma_direction_keys_move_the_selection(v: RuntimeView, key: Seq<char>)
    requires
        0 < v.entries().len(),
        v.selected < v.entries().len(),
    ensures
        (key == "Up"@ || key == "W"@ || key == "Left"@ || key == "A"@) ==> v.key(key) == (
            RuntimeView {
                selected: (if v.selected == 0 {
                    v.entries().len() - 1
                } else {
                    v.selected - 1
                }) as usize,
                ..v
            },
            Seq::<MenuEffect>::empty(),
        ),
        (key == "Down"@ || key == "S"@ || key == "Right"@ || key == "D"@) ==> v.key(key) == (
            RuntimeView {
                selected: (if v.selected + 1 == v.entries().len() {
                    0
                } else {
                    v.selected + 1
                }) as usize,
                ..v
            },
            Seq::<MenuEffect>::empty(),
        ),
{
    reveal_strlit("Escape");
    reveal_strlit("Up");
    reveal_strlit("W");
    reveal_strlit("Left");
    reveal_strlit("A");
    reveal_strlit("Down");
    reveal_strlit("S");
    reveal_strlit("Right");
    reveal_strlit("D");
    reveal_strlit("Return");
    reveal_strlit("Enter");
    reveal_strlit("Space");
    assert("Escape"@.len() == 6);
    if key == "Up"@ || key == "W"@ || key == "Left"@ || key == "A"@ {
        assert(key != "Escape"@) by {
            assert(key.len() != 6 || key[0] != 'E');
        }
    }
    if key == "Down"@ || key == "S"@ || key == "Right"@ || key == "D"@ {
        assert(key != "Escape"@) by {
            assert(key.len() != 6 || key[0] != 'E');
        }
        assert(key != "Up"@ && key != "W"@ && key != "Left"@ && key != "A"@) by {
            assert(key[0] != 'U' && key[0] != 'W' && key[0] != 'L' && key[0] != 'A');
        }
    }
    let n = v.entries().len() as int;
    if v.selected == 0 {
        assert((v.selected as int - 1) % n == n - 1) by (nonlinear_arith)
            requires
                v.selected == 0,
                n > 0,
        ;
    } else {
        assert((v.selected as int - 1) % n == v.selected - 1) by (nonlinear_arith)
            requires
                0 < v.selected < n,
        ;
    }
    if v.selected + 1 == n {
        assert((v.selected as int + 1) % n == 0) by (nonlinear_arith)
            requires
                v.selected + 1 == n,
        ;
    } else {
        assert((v.selected as int + 1) % n == v.selected + 1) by (nonlinear_arith)
            requires
                v.selected + 1 < n,
                0 <= v.selected,
        ;
    }
}

} // verus!
