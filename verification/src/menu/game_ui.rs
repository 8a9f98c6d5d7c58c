use vstd::prelude::*;

use crate::draw::Rect;
use crate::menu::display_preferences::DisplayPreferences;
use crate::menu::resolution_options::Mode;
use crate::menu::screen::Screen;
use crate::text::{decimal, labelled_number, push_decimal};

verus! {

pub const START: u32 = 1;
pub const START_SETTINGS: u32 = 2;
pub const QUIT: u32 = 3;
pub const LEVEL_ONE: u32 = 10;
pub const LEVEL_TWO: u32 = 11;
pub const LEVEL_BACK: u32 = 12;
pub const RESUME: u32 = 20;
pub const PAUSE_SETTINGS: u32 = 21;
pub const PAUSE_LEVELS: u32 = 22;
pub const MAIN_MENU: u32 = 23;
pub const PAUSE_QUIT: u32 = 24;
pub const GAME_OVER_MAIN_MENU: u32 = 25;
pub const FULLSCREEN: u32 = 30;
pub const SETTINGS_BACK: u32 = 31;
pub const RESOLUTION_BASE: u32 = 100;

/// Logical size of the screen the menu is laid out on.
pub const SCREEN_WIDTH: i32 = 800;
pub const SCREEN_HEIGHT: i32 = 600;

pub const PANEL_WIDTH: u32 = 420;
pub const TITLE_HEIGHT: u32 = 104;
pub const PANEL_PADDING: u32 = 28;
pub const BUTTON_HEIGHT: u32 = 44;
pub const BUTTON_GAP: u32 = 10;

/// Most resolution buttons the settings screen can lay out on the logical
/// screen with `i32` coordinates: with `n` of them the last button starts
/// `104 + (n + 1) * 54` pixels down, which must not pass `i32::MAX`.
pub const MAX_LAYOUT_RESOLUTIONS: usize = 39_768_212;

/// The area a menu is centered in.
#[derive(Debug, Clone, Copy, PartialEq, Eq, Structural)]
pub struct Canvas {
    pub width: u32,
    pub height: u32,
}

/// A labelled, positioned menu button.
#[derive(Debug, Clone, PartialEq, Eq)]
pub struct Button {
    pub id: u32,
    pub label: String,
    pub x: i32,
    pub y: i32,
    pub width: u32,
    pub height: u32,
}

/// A centered panel and its buttons, top to bottom.
#[derive(Debug, Clone, PartialEq, Eq)]
pub struct MenuLayout {
    pub panel: Rect,
    pub buttons: Vec<Button>,
}

/// The label of a resolution button; the current one is marked with `  <`.
pub open spec fn resolution_label(mode: Mode, preferences: DisplayPreferences) -> Seq<char> {
    decimal(mode.0 as nat) + " x "@ + decimal(mode.1 as nat) + if mode == (
    preferences.width,
    preferences.height,
    ) {
        "  <"@
    } else {
        ""@
    }
}

/// The settings entries: fullscreen toggle, one entry per resolution, back.
pub open spec fn settings_entries(preferences: DisplayPreferences, resolutions: Seq<Mode>) -> Seq<
    (u32, Seq<char>),
> {
    seq![
        (
            FULLSCREEN,
            if preferences.fullscreen {
                "Fullscreen: On"@
            } else {
                "Fullscreen: Off"@
            },
        ),
    ] + Seq::new(
        resolutions.len(),
        |i: int| ((RESOLUTION_BASE + i) as u32, resolution_label(resolutions[i], preferences)),
    ) + seq![(SETTINGS_BACK, "Back"@)]
}

/// The id and label of each button a screen shows, top to bottom.
pub open spec fn menu_entries(
    screen: Screen,
    preferences: DisplayPreferences,
    resolutions: Seq<Mode>,
) -> Seq<(u32, Seq<char>)> {
    match screen {
        Screen::Start => seq![(START, "Start"@), (START_SETTINGS, "Settings"@), (QUIT, "Quit"@)],
        Screen::LevelSelection => seq![(LEVEL_ONE, "Level One"@), (LEVEL_TWO, "Level Two"@)],
        Screen::Pause => seq![
            (RESUME, "Resume"@),
            (PAUSE_SETTINGS, "Settings"@),
            (PAUSE_LEVELS, "Level Selection"@),
            (MAIN_MENU, "Main Menu"@),
            (PAUSE_QUIT, "Quit"@),
        ],
        Screen::Settings => settings_entries(preferences, resolutions),
        Screen::GameOver => seq![(GAME_OVER_MAIN_MENU, "Press Enter to Main Menu"@)],
        Screen::Gameplay => Seq::empty(),
    }
}

/// Height of a panel with `n` buttons: title area, buttons with gaps between
/// them, and bottom padding.
pub open spec fn spec_panel_height(n: nat) -> nat {
    if n == 0 {
        (TITLE_HEIGHT + PANEL_PADDING) as nat
    } else {
        (TITLE_HEIGHT + n * BUTTON_HEIGHT + (n - 1) * BUTTON_GAP + PANEL_PADDING) as nat
    }
}

/// Offset that centers a length `inner` inside `outer`, or zero when it does not fit.
pub open spec fn center_offset(outer: nat, inner: nat) -> int {
    if outer >= inner {
        (outer - inner) / 2
    } else {
        0
    }
}

/// The panel of a menu with `n` buttons on `canvas`.
pub open spec fn spec_panel(canvas: Canvas, n: nat) -> Rect {
    let width = if canvas.width < PANEL_WIDTH {
        canvas.width
    } else {
        PANEL_WIDTH
    };
    Rect {
        x: center_offset(canvas.width as nat, width as nat) as i32,
        y: center_offset(canvas.height as nat, spec_panel_height(n)) as i32,
        width,
        height: spec_panel_height(n) as u32,
    }
}

/// Button `i` of a panel: inset by the padding, stacked below the title.
pub open spec fn button_rect(panel: Rect, i: int) -> Rect {
    Rect {
        x: (panel.x + PANEL_PADDING) as i32,
        y: (panel.y + TITLE_HEIGHT + i * (BUTTON_HEIGHT + BUTTON_GAP)) as i32,
        width: if panel.width >= 2 * PANEL_PADDING {
            (panel.width - 2 * PANEL_PADDING) as u32
        } else {
            0
        },
        height: BUTTON_HEIGHT,
    }
}

/// Whether `b` is the entry `e` placed at `r`.
pub open spec fn placed(b: Button, e: (u32, Seq<char>), r: Rect) -> bool {
    &&& b.id == e.0
    &&& b.label@ == e.1
    &&& b.x == r.x
    &&& b.y == r.y
    &&& b.width == r.width
    &&& b.height == r.height
}

/// Whether `layout` is the menu of `entries` centered on `canvas`.
pub open spec fn lays_out(layout: MenuLayout, canvas: Canvas, entries: Seq<(u32, Seq<char>)>) -> bool {
    &&& layout.panel == spec_panel(canvas, entries.len())
    &&& layout.buttons@.len() == entries.len()
    &&& forall|i: int|
        0 <= i < entries.len() ==> placed(
            #[trigger] layout.buttons@[i],
            entries[i],
            button_rect(layout.panel, i),
        )
}

/// Whether a built entry holds the id and label `e`.
pub open spec fn entry_is(b: (u32, String), e: (u32, Seq<char>)) -> bool {
    b.0 == e.0 && b.1@ == e.1
}

/// Height of a panel with `n` buttons.
pub fn panel_height(n: usize) -> (r: u32)
    requires
        n <= MAX_LAYOUT_RESOLUTIONS + 2,
    ensures
        r == spec_panel_height(n as nat),
{
    if n == 0 {
        TITLE_HEIGHT + PANEL_PADDING
    } else {
        let n32 = n as u32;
        TITLE_HEIGHT + n32 * BUTTON_HEIGHT + (n32 - 1) * BUTTON_GAP + PANEL_PADDING
    }
}

fn label_entry(id: u32, label: &str) -> (r: (u32, String))
    ensures
        r.0 == id,
        r.1@ == label@,
{
    (id, String::from_str(label))
}

fn resolution_entry(mode: Mode, preferences: DisplayPreferences) -> (r: String)
    ensures
        r@ == resolution_label(mode, preferences),
{
    proof {
        reveal_strlit("");
    }
    let mut s = labelled_number("", mode.0);
    s.append(" x ");
    push_decimal(&mut s, mode.1);
    if mode.0 == preferences.width && mode.1 == preferences.height {
        s.append("  <");
    } else {
        s.append("");
    }
    assert(s@ =~= resolution_label(mode, preferences));
    s
}

/// The id and label of each button `screen` shows.
pub fn menu_buttons(
    screen: Screen,
    preferences: DisplayPreferences,
    resolutions: &[Mode],
) -> (r: Vec<(u32, String)>)
    requires
        screen == Screen::Settings ==> resolutions@.len() <= MAX_LAYOUT_RESOLUTIONS,
    ensures
        r@.len() == menu_entries(screen, preferences, resolutions@).len(),
        forall|i: int|
            0 <= i < r@.len() ==> entry_is(#[trigger] r@[i], menu_entries(screen, preferences, resolutions@)[i]),
{
    let ghost e = menu_entries(screen, preferences, resolutions@);
    let mut out: Vec<(u32, String)> = Vec::new();
    match screen {
        Screen::Start => {
            out.push(label_entry(START, "Start"));
            out.push(label_entry(START_SETTINGS, "Settings"));
            out.push(label_entry(QUIT, "Quit"));
            assert forall|j: int| 0 <= j < out@.len() implies entry_is(#[trigger] out@[j], e[j]) by {
                assert(e =~= seq![(START, "Start"@), (START_SETTINGS, "Settings"@), (QUIT, "Quit"@)]);
            }
        },
        Screen::LevelSelection => {
            out.push(label_entry(LEVEL_ONE, "Level One"));
            out.push(label_entry(LEVEL_TWO, "Level Two"));
            assert forall|j: int| 0 <= j < out@.len() implies entry_is(#[trigger] out@[j], e[j]) by {
                assert(e =~= seq![(LEVEL_ONE, "Level One"@), (LEVEL_TWO, "Level Two"@)]);
            }
        },
        Screen::GameOver => {
            out.push(label_entry(GAME_OVER_MAIN_MENU, "Press Enter to Main Menu"));
            assert forall|j: int| 0 <= j < out@.len() implies entry_is(#[trigger] out@[j], e[j]) by {
                assert(e =~= seq![(GAME_OVER_MAIN_MENU, "Press Enter to Main Menu"@)]);
            }
        },
        Screen::Pause => {
            out.push(label_entry(RESUME, "Resume"));
            out.push(label_entry(PAUSE_SETTINGS, "Settings"));
            out.push(label_entry(PAUSE_LEVELS, "Level Selection"));
            out.push(label_entry(MAIN_MENU, "Main Menu"));
            out.push(label_entry(PAUSE_QUIT, "Quit"));
            assert forall|j: int| 0 <= j < out@.len() implies entry_is(#[trigger] out@[j], e[j]) by {
                assert(e =~= seq![
                    (RESUME, "Resume"@),
                    (PAUSE_SETTINGS, "Settings"@),
                    (PAUSE_LEVELS, "Level Selection"@),
                    (MAIN_MENU, "Main Menu"@),
                    (PAUSE_QUIT, "Quit"@),
                ]);
            }
        },
        Screen::Settings => {
            out.push(
                label_entry(
                    FULLSCREEN,
                    if preferences.fullscreen {
                        "Fullscreen: On"
                    } else {
                        "Fullscreen: Off"
                    },
                ),
            );
            let n = resolutions.len();
            let mut i: usize = 0;
            while i < n
                invariant
                    n == resolutions@.len(),
                    n <= MAX_LAYOUT_RESOLUTIONS,
                    i <= n,
                    screen == Screen::Settings,
                    e == menu_entries(screen, preferences, resolutions@),
                    out@.len() == i + 1,
                    forall|j: int|
                        0 <= j < out@.len() ==> entry_is(#[trigger] out@[j], e[j]),
                decreases n - i,
            {
                let label = resolution_entry(resolutions[i], preferences);
                assert(e[i + 1] == ((RESOLUTION_BASE + i) as u32, resolution_label(resolutions@[i as int], preferences)));
                out.push((RESOLUTION_BASE + i as u32, label));
                i = i + 1;
            }
            assert(e.len() == n + 2);
            let ghost old_out = out@;
            assert(e[n + 1] == (SETTINGS_BACK, "Back"@));
            out.push(label_entry(SETTINGS_BACK, "Back"));
            assert forall|j: int| 0 <= j < out@.len() implies entry_is(#[trigger] out@[j], e[j]) by {
                if j < n + 1 {
                    assert(out@[j] == old_out[j]);
                }
            }
        },
        Screen::Gameplay => {},
    }
    out
}

/// Lays out the buttons `screen` shows in a panel centered on `canvas`.
pub fn build_layout(
    canvas: Canvas,
    screen: Screen,
    preferences: DisplayPreferences,
    resolutions: &[Mode],
) -> (r: MenuLayout)
    requires
        layout_fits(canvas, menu_entries(screen, preferences, resolutions@).len()),
    ensures
        lays_out(r, canvas, menu_entries(screen, preferences, resolutions@)),
{
    let ghost e = menu_entries(screen, preferences, resolutions@);
    assert(screen == Screen::Settings ==> e.len() == resolutions@.len() + 2);
    let entries = menu_buttons(screen, preferences, resolutions);
    let n = entries.len();
    let height = panel_height(n);
    let width = if canvas.width < PANEL_WIDTH {
        canvas.width
    } else {
        PANEL_WIDTH
    };
    let x = ((canvas.width - width) / 2) as i32;
    let y = if canvas.height >= height {
        ((canvas.height - height) / 2) as i32
    } else {
        0
    };
    let panel = Rect { x, y, width, height };
    assert(panel == spec_panel(canvas, e.len()));
    let button_width = if width >= 2 * PANEL_PADDING {
        width - 2 * PANEL_PADDING
    } else {
        0
    };
    let mut buttons: Vec<Button> = Vec::new();
    let mut i: usize = 0;
    while i < n
        invariant
            n == entries@.len(),
            n == e.len(),
            n <= MAX_LAYOUT_RESOLUTIONS + 2,
            0 <= x,
            0 <= y,
            n > 0 ==> x + PANEL_PADDING <= i32::MAX,
            n > 0 ==> y + TITLE_HEIGHT + (n - 1) * 54 <= i32::MAX,
            panel == spec_panel(canvas, e.len()),
            panel.x == x,
            panel.y == y,
            button_width == button_rect(panel, 0).width,
            i <= n,
            buttons@.len() == i,
            forall|j: int| 0 <= j < n ==> entry_is(#[trigger] entries@[j], e[j]),
            forall|j: int| 0 <= j < i ==> placed(#[trigger] buttons@[j], e[j], button_rect(panel, j)),
        decreases n - i,
    {
        assert(entry_is(entries@[i as int], e[i as int]));
        assert((i as int) * 54 <= (n - 1) * 54) by (nonlinear_arith)
            requires
                i <= n - 1,
        ;
        let button = Button {
            id: entries[i].0,
            label: entries[i].1.clone(),
            x: x + PANEL_PADDING as i32,
            y: y + TITLE_HEIGHT as i32 + (i as i32) * ((BUTTON_HEIGHT + BUTTON_GAP) as i32),
            width: button_width,
            height: BUTTON_HEIGHT,
        };
        buttons.push(button);
        i = i + 1;
    }
    MenuLayout { panel, buttons }
}

/// The buttons `screen` shows, laid out on the logical screen.
pub fn build_buttons(
    screen: Screen,
    preferences: DisplayPreferences,
    resolutions: &[Mode],
) -> (r: Vec<Button>)
    requires
        resolutions@.len() <= MAX_LAYOUT_RESOLUTIONS,
    ensures
        lays_out(
            MenuLayout { panel: spec_panel(screen_canvas(), r@.len()), buttons: r },
            screen_canvas(),
            menu_entries(screen, preferences, resolutions@),
        ),
{
    let layout = build_layout(
        Canvas { width: SCREEN_WIDTH as u32, height: SCREEN_HEIGHT as u32 },
        screen,
        preferences,
        resolutions,
    );
    layout.buttons
}

/// The logical screen as a canvas.
pub open spec fn screen_canvas() -> Canvas {
    Canvas { width: SCREEN_WIDTH as u32, height: SCREEN_HEIGHT as u32 }
}

/// Whether every button of a menu of `n` entries on `canvas` has `i32`
/// coordinates: the buttons' left edge and the last button's top.
pub open spec fn layout_fits(canvas: Canvas, n: nat) -> bool {
    n > 0 ==> {
        let panel = spec_panel(canvas, n);
        &&& center_offset(canvas.width as nat, panel.width as nat) + PANEL_PADDING <= i32::MAX
        &&& center_offset(canvas.height as nat, spec_panel_height(n)) + TITLE_HEIGHT + (n - 1) * (BUTTON_HEIGHT
            + BUTTON_GAP) <= i32::MAX
    }
}

/// Whether the point lies inside the button.
pub open spec fn contains_point(b: Button, x: int, y: int) -> bool {
    b.x <= x < b.x + b.width && b.y <= y < b.y + b.height
}

/// The first button under a point given in logical screen coordinates.
pub fn button_at(buttons: &[Button], x: i32, y: i32) -> (r: Option<usize>)
    ensures
        r is None ==> forall|i: int| 0 <= i < buttons@.len() ==> !contains_point(#[trigger] buttons@[i], x as int, y as int),
        r matches Some(i) ==> i < buttons@.len() && contains_point(buttons@[i as int], x as int, y as int)
            && forall|j: int| 0 <= j < i ==> !contains_point(#[trigger] buttons@[j], x as int, y as int),
{
    let n = buttons.len();
    let mut i: usize = 0;
    while i < n
        invariant
            n == buttons@.len(),
            i <= n,
            forall|j: int| 0 <= j < i ==> !contains_point(#[trigger] buttons@[j], x as int, y as int),
        decreases n - i,
    {
        let b = &buttons[i];
        let (bx, by) = (b.x as i64, b.y as i64);
        let (px, py) = (x as i64, y as i64);
        if bx <= px && px < bx + b.width as i64 && by <= py && py < by + b.height as i64 {
            return Some(i);
        }
        i = i + 1;
    }
    None
}

/// Moves a keyboard selection by `delta` among `len` buttons, wrapping
/// around at both ends; with no buttons the selection stays at 0.
pub fn move_selection(selected: usize, len: usize, delta: i32) -> (r: usize)
    ensures
        len == 0 ==> r == 0,
        len > 0 ==> r < len && r as int == (selected as int + delta as int) % (len as int),
{
    if len == 0 {
        return 0;
    }
    let s = selected % len;
    let ghost a = selected as int;
    let ghost m = len as int;
    proof {
        vstd::arithmetic::div_mod::lemma_fundamental_div_mod(a, m);
    }
    if delta >= 0 {
        let step = (delta as usize) % len;
        let r = if step < len - s {
            s + step
        } else {
            s - (len - step)
        };
        proof {
            let d = delta as int;
            vstd::arithmetic::div_mod::lemma_fundamental_div_mod(d, m);
            let q1 = a / m;
            let q2 = d / m;
            let k: int = if step < len - s { 0 } else { 1 };
            assert(a + d == m * (q1 + q2 + k) + r) by (nonlinear_arith)
                requires
                    a == m * q1 + s,
                    d == m * q2 + step,
                    r == s + step - m * k,
            ;
            vstd::arithmetic::div_mod::lemma_mod_multiples_vanish(q1 + q2 + k, r as int, m);
            vstd::arithmetic::div_mod::lemma_small_mod(r as nat, m as nat);
        }
        r
    } else {
        let back = ((-(delta as i64)) as usize) % len;
        let r = if s >= back {
            s - back
        } else {
            s + (len - back)
        };
        proof {
            let nd = -(delta as int);
            vstd::arithmetic::div_mod::lemma_fundamental_div_mod(nd, m);
            let q1 = a / m;
            let q2 = nd / m;
            let k: int = if s >= back { 0 } else { 1 };
            assert(a + delta as int == m * (q1 - q2 - k) + r) by (nonlinear_arith)
                requires
                    a == m * q1 + s,
                    nd == m * q2 + back,
                    delta as int == -nd,
                    r == s - back + m * k,
            ;
            vstd::arithmetic::div_mod::lemma_mod_multiples_vanish(q1 - q2 - k, r as int, m);
            vstd::arithmetic::div_mod::lemma_small_mod(r as nat, m as nat);
        }
        r
    }
}

} // verus!
