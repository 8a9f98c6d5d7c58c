//! How an entity's sprite sheet is shown.
use vstd::prelude::*;

use crate::float_bits::F32Bits;

verus! {

/// A sprite sheet and the animation over its frames.
#[derive(Debug, Clone, Copy, PartialEq, Eq, Structural)]
pub struct Sprite {
    pub sprite_id: u32,
    pub frame_w: u32,
    pub frame_h: u32,
    pub frame_count: u32,
    /// Seconds per frame.
    pub frame_duration: F32Bits,
}

/// A sprite with its sheet layout, draw size and playback.
#[derive(Debug, Clone, Copy, PartialEq, Eq, Structural)]
pub struct SpritePresentation {
    pub sprite: Sprite,
    pub frames_per_row: u32,
    pub draw_w: u32,
    pub draw_h: u32,
    pub looping: bool,
    pub advance_while_stopped: bool,
    pub flip_h: bool,
    pub flip_v: bool,
}

} // verus!
