use vstd::prelude::*;

use crate::float_bits::F32Bits;
use crate::levels::slime_field::{SlimeAnimation, SlimeVisual};
use crate::messages::WILL_ENTITY_ID;
use crate::presentation::{Sprite, SpritePresentation};

verus! {

pub const GRASS_SPRITE_ID: u32 = 20;
pub const ROCK_CLUSTER_SPRITE_ID: u32 = 21;
pub const BOULDER_SPRITE_ID: u32 = 22;
pub const ROCK_FRAME_SIZE: u32 = 128;
pub const SLIME_FRAME_SIZE: u32 = 64;
pub const ROCK_ID_START: u32 = 100;
pub const SLIME_ID_START: u32 = 200;

/// Half the width and height of a slime's collider, in whole pixels.
pub const SLIME_HALF_W: u32 = 18;
pub const SLIME_HALF_H: u32 = 14;

/// Will's spawn point in whole pixels.
pub const WILL_SPAWN_PIXELS: i32 = 464;

/// A fixed rock obstacle: its art, position, collider half-size and draw size.
#[derive(Debug, Clone, Copy, PartialEq, Eq, Structural)]
pub struct Rock {
    pub sprite_id: u32,
    pub x: i32,
    pub y: i32,
    pub half_w: u32,
    pub half_h: u32,
    pub draw_w: u32,
    pub draw_h: u32,
}

impl Rock {
    pub open spec fn spec_cluster(x: i32, y: i32) -> Rock {
        Rock { sprite_id: ROCK_CLUSTER_SPRITE_ID, x, y, half_w: 34, half_h: 28, draw_w: 96, draw_h: 96 }
    }

    pub open spec fn spec_boulder(x: i32, y: i32) -> Rock {
        Rock { sprite_id: BOULDER_SPRITE_ID, x, y, half_w: 28, half_h: 20, draw_w: 76, draw_h: 68 }
    }

    /// A wide cluster of rocks.
    pub fn cluster(x: i32, y: i32) -> (r: Rock)
        ensures
            r == Rock::spec_cluster(x, y),
    {
        Rock { sprite_id: ROCK_CLUSTER_SPRITE_ID, x, y, half_w: 34, half_h: 28, draw_w: 96, draw_h: 96 }
    }

    /// A single boulder.
    pub fn boulder(x: i32, y: i32) -> (r: Rock)
        ensures
            r == Rock::spec_boulder(x, y),
    {
        Rock { sprite_id: BOULDER_SPRITE_ID, x, y, half_w: 28, half_h: 20, draw_w: 76, draw_h: 68 }
    }
}

/// The rocks of the overgrown ruin.
pub open spec fn spec_rocks() -> Seq<Rock> {
    seq![
        Rock::spec_cluster(128, 128),
        Rock::spec_boulder(320, 144),
        Rock::spec_cluster(576, 128),
        Rock::spec_boulder(832, 160),
        Rock::spec_boulder(160, 320),
        Rock::spec_cluster(368, 288),
        Rock::spec_cluster(672, 304),
        Rock::spec_boulder(880, 336),
        Rock::spec_cluster(144, 544),
        Rock::spec_boulder(368, 528),
        Rock::spec_cluster(672, 512),
        Rock::spec_boulder(880, 576),
        Rock::spec_boulder(192, 768),
        Rock::spec_cluster(480, 800),
        Rock::spec_boulder(800, 800),
    ]
}

pub fn rocks() -> (r: Vec<Rock>)
    ensures
        r@ == spec_rocks(),
{
    let r = vec![
        Rock::cluster(128, 128),
        Rock::boulder(320, 144),
        Rock::cluster(576, 128),
        Rock::boulder(832, 160),
        Rock::boulder(160, 320),
        Rock::cluster(368, 288),
        Rock::cluster(672, 304),
        Rock::boulder(880, 336),
        Rock::cluster(144, 544),
        Rock::boulder(368, 528),
        Rock::cluster(672, 512),
        Rock::boulder(880, 576),
        Rock::boulder(192, 768),
        Rock::cluster(480, 800),
        Rock::boulder(800, 800),
    ];
    assert(r@ =~= spec_rocks());
    r
}

/// Where a slime starts, in whole pixels, and which of the three sprite
/// sets it wears.
#[derive(Debug, Clone, Copy, PartialEq, Eq, Structural)]
pub struct SlimePlacement {
    pub sprite_set: usize,
    pub x: i32,
    pub y: i32,
}

pub open spec fn spec_slimes() -> Seq<SlimePlacement> {
    seq![
        SlimePlacement { sprite_set: 0, x: 480, y: 288 },
        SlimePlacement { sprite_set: 1, x: 480, y: 576 },
        SlimePlacement { sprite_set: 2, x: 240, y: 528 },
        SlimePlacement { sprite_set: 0, x: 800, y: 512 },
        SlimePlacement { sprite_set: 1, x: 640, y: 752 },
        SlimePlacement { sprite_set: 2, x: 416, y: 720 },
    ]
}

pub fn slimes() -> (r: Vec<SlimePlacement>)
    ensures
        r@ == spec_slimes(),
{
    let r = vec![
        SlimePlacement { sprite_set: 0, x: 480, y: 288 },
        SlimePlacement { sprite_set: 1, x: 480, y: 576 },
        SlimePlacement { sprite_set: 2, x: 240, y: 528 },
        SlimePlacement { sprite_set: 0, x: 800, y: 512 },
        SlimePlacement { sprite_set: 1, x: 640, y: 752 },
        SlimePlacement { sprite_set: 2, x: 416, y: 720 },
    ];
    assert(r@ =~= spec_slimes());
    r
}

pub open spec fn abs(x: int) -> int {
    if x < 0 {
        -x
    } else {
        x
    }
}

/// Whether two centered boxes stand apart by more than `margin` on some axis.
pub open spec fn apart(x1: int, y1: int, x2: int, y2: int, reach_x: int, reach_y: int) -> bool {
    abs(x1 - x2) > reach_x || abs(y1 - y2) > reach_y
}

/// The rock field is dense, keeps a margin of 32 pixels around Will's
/// spawn point, and every rock's art covers its collider.
pub proof fn lemma_rock_field(i: int)
    requires
        0 <= i < spec_rocks().len(),
    ensures
        spec_rocks().len() >= 14,
        apart(
            WILL_SPAWN_PIXELS as int,
            WILL_SPAWN_PIXELS as int,
            spec_rocks()[i].x as int,
            spec_rocks()[i].y as int,
            spec_rocks()[i].half_w + 32,
            spec_rocks()[i].half_h + 32,
        ),
        spec_rocks()[i].sprite_id == ROCK_CLUSTER_SPRITE_ID || spec_rocks()[i].sprite_id == BOULDER_SPRITE_ID,
        spec_rocks()[i].half_w > 0 && spec_rocks()[i].half_h > 0,
        spec_rocks()[i].draw_w > 2 * spec_rocks()[i].half_w,
        spec_rocks()[i].draw_h > 2 * spec_rocks()[i].half_h,
{
}

/// The six slimes start clear of Will and of every rock.
pub proof fn lemma_slimes_clear(i: int, k: int)
    requires
        0 <= i < spec_slimes().len(),
        0 <= k < spec_rocks().len(),
    ensures
        spec_slimes().len() == 6,
        spec_slimes()[i].sprite_set < 3,
        apart(
            WILL_SPAWN_PIXELS as int,
            WILL_SPAWN_PIXELS as int,
            spec_slimes()[i].x as int,
            spec_slimes()[i].y as int,
            SLIME_HALF_W + 10,
            SLIME_HALF_H + 27,
        ),
        apart(
            spec_rocks()[k].x as int,
            spec_rocks()[k].y as int,
            spec_slimes()[i].x as int,
            spec_slimes()[i].y as int,
            spec_rocks()[k].half_w + SLIME_HALF_W,
            spec_rocks()[k].half_h + SLIME_HALF_H,
        ),
{
}

/// Rock ids follow Will's and end before the slime ids, which run on
/// without gaps.
pub proof fn lemma_entity_ids()
    ensures
        ROCK_ID_START > WILL_ENTITY_ID,
        ROCK_ID_START + spec_rocks().len() < SLIME_ID_START,
        (SLIME_ID_START + spec_slimes().len() - 1) - SLIME_ID_START + 1 == spec_slimes().len(),
{
}

/// The sheet a slime's animation plays: sprite id, frame count, seconds per
/// frame and whether it loops.
pub open spec fn spec_slime_sheet(sprite_set: int, animation: SlimeAnimation) -> (u32, u32, F32Bits, bool) {
    match animation {
        SlimeAnimation::Idle => ((30 + sprite_set) as u32, 6, F32Bits(0x3e23_d70a), true),
        SlimeAnimation::Walk => ((33 + sprite_set) as u32, 8, F32Bits(0x3dcc_cccd), true),
        SlimeAnimation::Attack => (
            (36 + sprite_set) as u32,
            if sprite_set == 0 {
                10
            } else if sprite_set == 1 {
                11
            } else {
                9
            },
            F32Bits(0x3da3_d70a),
            false,
        ),
        SlimeAnimation::Hurt => ((39 + sprite_set) as u32, 5, F32Bits(0x3da3_d70a), false),
        SlimeAnimation::Death => ((42 + sprite_set) as u32, 10, F32Bits(0x3da3_d70a), false),
    }
}

pub fn slime_sheet(sprite_set: usize, animation: SlimeAnimation) -> (r: (u32, u32, F32Bits, bool))
    requires
        sprite_set < 3,
    ensures
        r == spec_slime_sheet(sprite_set as int, animation),
{
    let set = sprite_set as u32;
    match animation {
        SlimeAnimation::Idle => (30 + set, 6, F32Bits(0x3e23_d70a), true),
        SlimeAnimation::Walk => (33 + set, 8, F32Bits(0x3dcc_cccd), true),
        SlimeAnimation::Attack => (
            36 + set,
            if set == 0 {
                10
            } else if set == 1 {
                11
            } else {
                9
            },
            F32Bits(0x3da3_d70a),
            false,
        ),
        SlimeAnimation::Hurt => (39 + set, 5, F32Bits(0x3da3_d70a), false),
        SlimeAnimation::Death => (42 + set, 10, F32Bits(0x3da3_d70a), false),
    }
}

pub open spec fn spec_slime_presentation(sprite_set: int, animation: SlimeAnimation) -> SpritePresentation {
    let (sprite_id, frame_count, frame_duration, looping) = spec_slime_sheet(sprite_set, animation);
    SpritePresentation {
        sprite: Sprite { sprite_id, frame_w: SLIME_FRAME_SIZE, frame_h: SLIME_FRAME_SIZE, frame_count, frame_duration },
        frames_per_row: frame_count,
        draw_w: SLIME_FRAME_SIZE,
        draw_h: SLIME_FRAME_SIZE,
        looping,
        advance_while_stopped: true,
        flip_h: false,
        flip_v: false,
    }
}

/// How a slime of a sprite set shows an animation: one row of frames,
/// advancing even while it stands still.
pub fn slime_presentation(sprite_set: usize, animation: SlimeAnimation) -> (r: SpritePresentation)
    requires
        sprite_set < 3,
    ensures
        r == spec_slime_presentation(sprite_set as int, animation),
{
    let (sprite_id, frame_count, frame_duration, looping) = slime_sheet(sprite_set, animation);
    SpritePresentation {
        sprite: Sprite { sprite_id, frame_w: SLIME_FRAME_SIZE, frame_h: SLIME_FRAME_SIZE, frame_count, frame_duration },
        frames_per_row: frame_count,
        draw_w: SLIME_FRAME_SIZE,
        draw_h: SLIME_FRAME_SIZE,
        looping,
        advance_while_stopped: true,
        flip_h: false,
        flip_v: false,
    }
}

/// How a rock shows: its single frame, scaled to its draw size.
pub fn rock_presentation(rock: Rock) -> (r: SpritePresentation)
    ensures
        r == (SpritePresentation {
            sprite: Sprite {
                sprite_id: rock.sprite_id,
                frame_w: ROCK_FRAME_SIZE,
                frame_h: ROCK_FRAME_SIZE,
                frame_count: 1,
                frame_duration: F32Bits(0),
            },
            frames_per_row: 1,
            draw_w: rock.draw_w,
            draw_h: rock.draw_h,
            looping: false,
            advance_while_stopped: false,
            flip_h: false,
            flip_v: false,
        }),
{
    SpritePresentation {
        sprite: Sprite {
            sprite_id: rock.sprite_id,
            frame_w: ROCK_FRAME_SIZE,
            frame_h: ROCK_FRAME_SIZE,
            frame_count: 1,
            frame_duration: F32Bits(0),
        },
        frames_per_row: 1,
        draw_w: rock.draw_w,
        draw_h: rock.draw_h,
        looping: false,
        advance_while_stopped: false,
        flip_h: false,
        flip_v: false,
    }
}

/// Idle and walking loop; the one-shot reactions play once.
pub proof fn lemma_only_movement_loops(sprite_set: int, animation: SlimeAnimation)
    requires
        0 <= sprite_set < 3,
    ensures
        spec_slime_presentation(sprite_set, animation).looping <==> (animation == SlimeAnimation::Idle
            || animation == SlimeAnimation::Walk),
        30 <= spec_slime_presentation(sprite_set, animation).sprite.sprite_id <= 44,
{
}

/// What the engine is asked to do to show a slime's new look.
#[derive(Debug, Clone, Copy, PartialEq, Eq, Structural)]
pub enum SlimeOp {
    /// Remove the slime's body.
    Despawn { entity_id: u32 },
    /// Put back a body that nothing collides with, where the slime died.
    SpawnRemains { entity_id: u32, x: F32Bits, y: F32Bits, presentation: SpritePresentation },
    /// Show the slime's animation.
    SetSprite { entity_id: u32, presentation: SpritePresentation },
}

/// A slime's new look: a dying slime first trades its body for one without
/// a collider, so that Will walks over the remains; every look then shows
/// its animation.
pub open spec fn spec_visual_ops(visual: SlimeVisual) -> Seq<SlimeOp> {
    let presentation = spec_slime_presentation(visual.sprite_set as int, visual.animation);
    if visual.animation == SlimeAnimation::Death {
        seq![
            SlimeOp::Despawn { entity_id: visual.entity_id },
            SlimeOp::SpawnRemains { entity_id: visual.entity_id, x: visual.x, y: visual.y, presentation },
            SlimeOp::SetSprite { entity_id: visual.entity_id, presentation },
        ]
    } else {
        seq![SlimeOp::SetSprite { entity_id: visual.entity_id, presentation }]
    }
}

pub fn visual_ops(visual: SlimeVisual) -> (r: Vec<SlimeOp>)
    requires
        visual.sprite_set < 3,
    ensures
        r@ == spec_visual_ops(visual),
{
    let presentation = slime_presentation(visual.sprite_set, visual.animation);
    let mut out: Vec<SlimeOp> = Vec::new();
    if visual.animation == SlimeAnimation::Death {
        out.push(SlimeOp::Despawn { entity_id: visual.entity_id });
        out.push(SlimeOp::SpawnRemains { entity_id: visual.entity_id, x: visual.x, y: visual.y, presentation });
    }
    out.push(SlimeOp::SetSprite { entity_id: visual.entity_id, presentation });
    assert(out@ =~= spec_visual_ops(visual));
    out
}

} // verus!
