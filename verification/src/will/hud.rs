use vstd::prelude::*;

use crate::draw::{command_is, Color, CommandSpec, DrawCommand, Rect};
use crate::messages::PlayerStats;
use crate::text::{decimal, labelled_number};
use crate::will::combat_state::EXPERIENCE_PER_LEVEL;

verus! {

pub const HUD_LAYER: u8 = 235;
pub const HUD_TEXT_LAYER: u8 = 237;

/// Width in pixels of a full experience bar.
pub const PROGRESS_WIDTH: u32 = 58;

pub open spec fn panel_color() -> Color {
    (8, 14, 24, 224)
}

pub open spec fn border_color() -> Color {
    (55, 91, 112, 255)
}

pub open spec fn life_color() -> Color {
    (245, 92, 102, 255)
}

pub open spec fn level_color() -> Color {
    (104, 218, 232, 255)
}

pub open spec fn experience_color() -> Color {
    (123, 214, 126, 255)
}

pub open spec fn coins_color() -> Color {
    (248, 197, 76, 255)
}

pub open spec fn track_color() -> Color {
    (29, 49, 47, 255)
}

/// Experience gathered inside the current level, out of three: what lies
/// above the level's threshold, capped at a full bar (saturating, as the
/// stats may not come from a consistent state).
pub open spec fn experience_in_level(stats: PlayerStats) -> int {
    let below = if stats.level == 0 {
        0
    } else {
        stats.level - 1
    };
    let floor = if below * 3 > u32::MAX {
        u32::MAX as int
    } else {
        below * 3
    };
    let above = if stats.experience >= floor {
        stats.experience - floor
    } else {
        0
    };
    if above < 3 {
        above
    } else {
        3
    }
}

/// Width of the experience bar's filled part.
pub open spec fn progress_width(stats: PlayerStats) -> int {
    experience_in_level(stats) * 58 / 3
}

pub open spec fn rect(x: i32, y: i32, width: u32, height: u32) -> Rect {
    Rect { x, y, width, height }
}

/// The HUD strip: a panel with border, lives, level and experience texts,
/// the experience bar's track and fill, and the coins.
pub open spec fn spec_commands(stats: PlayerStats) -> Seq<CommandSpec> {
    seq![
        CommandSpec::Rectangle { bounds: rect(14, 14, 438, 54), filled: true, color: panel_color(), layer: HUD_LAYER },
        CommandSpec::Rectangle { bounds: rect(14, 14, 438, 54), filled: false, color: border_color(), layer: (HUD_LAYER + 1) as u8 },
        CommandSpec::Text { text: "LIVES "@ + decimal(stats.lives as nat), x: 28, y: 29, size: 18, color: life_color(), layer: HUD_TEXT_LAYER },
        CommandSpec::Text { text: "LV "@ + decimal(stats.level as nat), x: 126, y: 29, size: 18, color: level_color(), layer: HUD_TEXT_LAYER },
        CommandSpec::Text { text: "XP "@ + decimal(stats.experience as nat), x: 202, y: 29, size: 18, color: experience_color(), layer: HUD_TEXT_LAYER },
        CommandSpec::Rectangle { bounds: rect(260, 37, 58, 8), filled: true, color: track_color(), layer: (HUD_LAYER + 1) as u8 },
        CommandSpec::Rectangle { bounds: rect(260, 37, progress_width(stats) as u32, 8), filled: true, color: experience_color(), layer: HUD_TEXT_LAYER },
        CommandSpec::Text { text: "COINS "@ + decimal(stats.coins as nat), x: 330, y: 29, size: 18, color: coins_color(), layer: HUD_TEXT_LAYER },
    ]
}

/// The commands that draw the HUD for `stats`.
pub fn commands(stats: PlayerStats) -> (r: Vec<DrawCommand>)
    ensures
        r@.len() == spec_commands(stats).len(),
        forall|i: int| 0 <= i < r@.len() ==> command_is(#[trigger] r@[i], spec_commands(stats)[i]),
{
    let below = stats.level.saturating_sub(1);
    let level_floor = if below > u32::MAX / EXPERIENCE_PER_LEVEL {
        u32::MAX
    } else {
        below * EXPERIENCE_PER_LEVEL
    };
    let above = stats.experience.saturating_sub(level_floor);
    let experience_in = if above < EXPERIENCE_PER_LEVEL {
        above
    } else {
        EXPERIENCE_PER_LEVEL
    };
    let width = experience_in * PROGRESS_WIDTH / EXPERIENCE_PER_LEVEL;
    assert(width == progress_width(stats));
    let mut out: Vec<DrawCommand> = Vec::new();
    out.push(DrawCommand::Rectangle { bounds: Rect { x: 14, y: 14, width: 438, height: 54 }, filled: true, color: (8, 14, 24, 224), layer: HUD_LAYER });
    out.push(DrawCommand::Rectangle { bounds: Rect { x: 14, y: 14, width: 438, height: 54 }, filled: false, color: (55, 91, 112, 255), layer: HUD_LAYER + 1 });
    out.push(DrawCommand::Text { text: labelled_number("LIVES ", stats.lives as u32), x: 28, y: 29, size: 18, color: (245, 92, 102, 255), layer: HUD_TEXT_LAYER });
    out.push(DrawCommand::Text { text: labelled_number("LV ", stats.level), x: 126, y: 29, size: 18, color: (104, 218, 232, 255), layer: HUD_TEXT_LAYER });
    out.push(DrawCommand::Text { text: labelled_number("XP ", stats.experience), x: 202, y: 29, size: 18, color: (123, 214, 126, 255), layer: HUD_TEXT_LAYER });
    out.push(DrawCommand::Rectangle { bounds: Rect { x: 260, y: 37, width: 58, height: 8 }, filled: true, color: (29, 49, 47, 255), layer: HUD_LAYER + 1 });
    out.push(DrawCommand::Rectangle { bounds: Rect { x: 260, y: 37, width, height: 8 }, filled: true, color: (123, 214, 126, 255), layer: HUD_TEXT_LAYER });
    out.push(DrawCommand::Text { text: labelled_number("COINS ", stats.coins), x: 330, y: 29, size: 18, color: (248, 197, 76, 255), layer: HUD_TEXT_LAYER });
    out
}

/// The bar never overflows its track, and it is full exactly when the
/// experience reaches the next level's threshold.
pub proof fn lemma_progress_within_track(stats: PlayerStats)
    ensures
        0 <= progress_width(stats) <= 58,
        progress_width(stats) == 58 <==> experience_in_level(stats) == 3,
{
}

} // verus!
