//! Immediate-mode drawing commands that the game asks the renderer for.
use vstd::prelude::*;

verus! {

/// An RGBA color.
pub type Color = (u8, u8, u8, u8);

/// A rectangle in pixels.
#[derive(Debug, Clone, Copy, PartialEq, Eq, Structural)]
pub struct Rect {
    pub x: i32,
    pub y: i32,
    pub width: u32,
    pub height: u32,
}

/// One rectangle to draw this frame, in screen or world space.
#[derive(Debug, Clone, Copy, PartialEq, Eq)]
pub struct DrawRect {
    pub x: i32,
    pub y: i32,
    pub w: u32,
    pub h: u32,
    pub filled: bool,
    pub color: Color,
    pub layer: u8,
    pub screen_space: bool,
}

/// One text to draw this frame, in screen or world space.
#[derive(Debug, PartialEq, Eq)]
pub struct DrawText {
    pub text: String,
    pub x: i32,
    pub y: i32,
    pub size: u16,
    pub color: Color,
    pub layer: u8,
    pub screen_space: bool,
}

/// A screen-space HUD drawing command.
#[derive(Debug, PartialEq, Eq)]
pub enum DrawCommand {
    Rectangle { bounds: Rect, filled: bool, color: Color, layer: u8 },
    Text { text: String, x: i32, y: i32, size: u16, color: Color, layer: u8 },
}

/// A HUD drawing command, with the text as characters.
pub enum CommandSpec {
    Rectangle { bounds: Rect, filled: bool, color: Color, layer: u8 },
    Text { text: Seq<char>, x: i32, y: i32, size: u16, color: Color, layer: u8 },
}

/// Whether a command is the one `s` describes.
pub open spec fn command_is(c: DrawCommand, s: CommandSpec) -> bool {
    match (c, s) {
        (
            DrawCommand::Rectangle { bounds, filled, color, layer },
            CommandSpec::Rectangle { bounds: b2, filled: f2, color: c2, layer: l2 },
        ) => bounds == b2 && filled == f2 && color == c2 && layer == l2,
        (
            DrawCommand::Text { text, x, y, size, color, layer },
            CommandSpec::Text { text: t2, x: x2, y: y2, size: s2, color: c2, layer: l2 },
        ) => text@ == t2 && x == x2 && y == y2 && size == s2 && color == c2 && layer == l2,
        _ => false,
    }
}

} // verus!
