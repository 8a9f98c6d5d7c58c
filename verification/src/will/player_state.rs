use vstd::prelude::*;

use crate::float_bits::F32Bits;
use crate::messages::AttackDirection;
use crate::presentation::{Sprite, SpritePresentation};

verus! {

pub const IDLE_DOWN_SPRITE_ID: u32 = 1;
pub const IDLE_UP_SPRITE_ID: u32 = 4;
pub const IDLE_SIDE_SPRITE_ID: u32 = 5;
pub const WALK_DOWN_SPRITE_ID: u32 = 6;
pub const WALK_UP_SPRITE_ID: u32 = 7;
pub const WALK_SIDE_SPRITE_ID: u32 = 8;
pub const ATTACK_DOWN_SPRITE_ID: u32 = 9;
pub const ATTACK_UP_SPRITE_ID: u32 = 10;
pub const ATTACK_SIDE_SPRITE_ID: u32 = 11;

pub const FRAME_SIZE: u32 = 64;
pub const DRAW_SIZE: u32 = 128;
pub const FRAMES_PER_ROW: u32 = 4;
pub const LOOPING_FRAME_COUNT: u32 = 5;
pub const ATTACK_FRAME_COUNT: u32 = 2;

/// Bit pattern of `0.125`, seconds per animation frame.
pub const FRAME_DURATION_BITS: u32 = 0x3e00_0000;

/// Bit pattern of `0.25`, how long a swing lasts: two frames.
pub const ATTACK_DURATION_BITS: u32 = 0x3e80_0000;

/// Bit pattern of `f32::EPSILON`.
pub const EPSILON_BITS: u32 = 0x3400_0000;

/// What Will is doing.
#[derive(Debug, Clone, Copy, PartialEq, Eq, Structural)]
pub enum PlayerMode {
    Idle,
    Moving,
    Attacking,
    /// Reeling from a hit: input is locked until recovery.
    Damaged,
}

/// The way a character faces.
#[derive(Debug, Clone, Copy, PartialEq, Eq, Structural)]
pub enum Facing {
    Up,
    Down,
    Left,
    Right,
    UpLeft,
    UpRight,
    DownLeft,
    DownRight,
}

/// Whether the sign bit of a single-precision pattern is set.
pub open spec fn negative_sign(x: F32Bits) -> bool {
    x.0 >= 0x8000_0000
}

/// The cardinal facing of a velocity along its dominant axis, horizontal on
/// ties; none when both components are zero. Screen y grows downwards.
pub open spec fn spec_cardinal_from_velocity(vx: F32Bits, vy: F32Bits) -> Option<Facing> {
    if vx.zero() && vy.zero() {
        None
    } else if vx.magnitude() >= vy.magnitude() {
        Some(
            if negative_sign(vx) {
                Facing::Left
            } else {
                Facing::Right
            },
        )
    } else {
        Some(
            if negative_sign(vy) {
                Facing::Up
            } else {
                Facing::Down
            },
        )
    }
}

pub fn cardinal_from_velocity(vx: F32Bits, vy: F32Bits) -> (r: Option<Facing>)
    ensures
        r == spec_cardinal_from_velocity(vx, vy),
{
    if vx.is_zero() && vy.is_zero() {
        None
    } else if vx.0 % 0x8000_0000 >= vy.0 % 0x8000_0000 {
        Some(
            if vx.0 >= 0x8000_0000 {
                Facing::Left
            } else {
                Facing::Right
            },
        )
    } else {
        Some(
            if vy.0 >= 0x8000_0000 {
                Facing::Up
            } else {
                Facing::Down
            },
        )
    }
}

/// What a [`PlayerState`] holds.
#[derive(Debug, Clone, Copy, PartialEq, Eq, Structural)]
pub struct PlayerView {
    pub mode: PlayerMode,
    pub facing: Facing,
    pub attack_button_down: bool,
    pub attack_remaining: F32Bits,
}

/// Will's animation state: mode, facing, and the swing in progress.
#[derive(Debug, Clone, Copy, PartialEq, Eq, Structural)]
pub struct PlayerState {
    mode: PlayerMode,
    facing: Facing,
    attack_button_down: bool,
    attack_remaining: F32Bits,
}

impl View for PlayerState {
    type V = PlayerView;

    closed spec fn view(&self) -> PlayerView {
        PlayerView {
            mode: self.mode,
            facing: self.facing,
            attack_button_down: self.attack_button_down,
            attack_remaining: self.attack_remaining,
        }
    }
}

/// Whether a facing shows the mirrored side sheet.
pub open spec fn faces_right(f: Facing) -> bool {
    f == Facing::Right || f == Facing::UpRight || f == Facing::DownRight
}

impl PlayerView {
    pub open spec fn initial() -> PlayerView {
        PlayerView {
            mode: PlayerMode::Idle,
            facing: Facing::Down,
            attack_button_down: false,
            attack_remaining: F32Bits(0),
        }
    }

    /// A press of the attack button starts a swing only on the press edge,
    /// when no swing is running and Will is not reeling.
    pub open spec fn press_attack(self) -> (PlayerView, bool) {
        if self.attack_button_down || self.mode == PlayerMode::Damaged {
            (self, false)
        } else if self.mode == PlayerMode::Attacking {
            (PlayerView { attack_button_down: true, ..self }, false)
        } else {
            (
                PlayerView {
                    attack_button_down: true,
                    mode: PlayerMode::Attacking,
                    attack_remaining: F32Bits(ATTACK_DURATION_BITS),
                    ..self
                },
                true,
            )
        }
    }

    pub open spec fn start_damage(self) -> (PlayerView, bool) {
        if self.mode == PlayerMode::Damaged {
            (self, false)
        } else {
            (PlayerView { mode: PlayerMode::Damaged, attack_remaining: F32Bits(0), ..self }, true)
        }
    }

    pub open spec fn recover_from_damage(self) -> (PlayerView, bool) {
        if self.mode != PlayerMode::Damaged {
            (self, false)
        } else {
            (PlayerView { mode: PlayerMode::Idle, ..self }, true)
        }
    }

    /// A frame with the swing timer now at `remaining` and velocity `(vx, vy)`:
    /// reeling ignores it; a swing still running keeps mode and facing;
    /// otherwise the mode follows whether Will moves, the facing follows the
    /// dominant axis of motion, and the result says whether either changed.
    pub open spec fn tick(self, remaining: F32Bits, vx: F32Bits, vy: F32Bits) -> (PlayerView, bool) {
        if self.mode == PlayerMode::Damaged {
            (self, false)
        } else if self.mode == PlayerMode::Attacking && remaining.above(F32Bits(EPSILON_BITS)) {
            (PlayerView { attack_remaining: remaining, ..self }, false)
        } else {
            let mode = if vx.zero() && vy.zero() {
                PlayerMode::Idle
            } else {
                PlayerMode::Moving
            };
            let facing = match spec_cardinal_from_velocity(vx, vy) {
                Some(f) => f,
                None => self.facing,
            };
            (
                PlayerView { mode, facing, attack_remaining: F32Bits(0), ..self },
                self.mode != mode || self.facing != facing,
            )
        }
    }

    pub open spec fn attack_direction(self) -> AttackDirection {
        match self.facing {
            Facing::Up => AttackDirection::Up,
            Facing::Down => AttackDirection::Down,
            Facing::Left | Facing::UpLeft | Facing::DownLeft => AttackDirection::Left,
            _ => AttackDirection::Right,
        }
    }

    /// The sheet for the mode and facing: down, up or side (the side sheet
    /// mirrored when facing right); a swing plays its two frames once, and a
    /// hit shows a single frozen idle frame.
    pub open spec fn presentation(self) -> SpritePresentation {
        let row = match self.facing {
            Facing::Down => 0int,
            Facing::Up => 1int,
            _ => 2int,
        };
        let sprite_id = match self.mode {
            PlayerMode::Idle | PlayerMode::Damaged => if row == 0 {
                IDLE_DOWN_SPRITE_ID
            } else if row == 1 {
                IDLE_UP_SPRITE_ID
            } else {
                IDLE_SIDE_SPRITE_ID
            },
            PlayerMode::Moving => if row == 0 {
                WALK_DOWN_SPRITE_ID
            } else if row == 1 {
                WALK_UP_SPRITE_ID
            } else {
                WALK_SIDE_SPRITE_ID
            },
            PlayerMode::Attacking => if row == 0 {
                ATTACK_DOWN_SPRITE_ID
            } else if row == 1 {
                ATTACK_UP_SPRITE_ID
            } else {
                ATTACK_SIDE_SPRITE_ID
            },
        };
        let frame_count = match self.mode {
            PlayerMode::Attacking => ATTACK_FRAME_COUNT,
            PlayerMode::Damaged => 1,
            _ => LOOPING_FRAME_COUNT,
        };
        SpritePresentation {
            sprite: Sprite {
                sprite_id,
                frame_w: FRAME_SIZE,
                frame_h: FRAME_SIZE,
                frame_count,
                frame_duration: F32Bits(FRAME_DURATION_BITS),
            },
            frames_per_row: FRAMES_PER_ROW,
            draw_w: DRAW_SIZE,
            draw_h: DRAW_SIZE,
            looping: self.mode == PlayerMode::Idle || self.mode == PlayerMode::Moving,
            advance_while_stopped: true,
            flip_h: faces_right(self.facing),
            flip_v: false,
        }
    }
}

impl Default for PlayerState {
    fn default() -> (r: PlayerState)
        ensures
            r@ == PlayerView::initial(),
    {
        PlayerState {
            mode: PlayerMode::Idle,
            facing: Facing::Down,
            attack_button_down: false,
            attack_remaining: F32Bits(0),
        }
    }
}

impl PlayerState {
    pub fn mode(&self) -> (r: PlayerMode)
        ensures
            r == self@.mode,
    {
        self.mode
    }

    /// Seconds left of the running swing.
    pub fn attack_remaining(&self) -> (r: F32Bits)
        ensures
            r == self@.attack_remaining,
    {
        self.attack_remaining
    }

    pub fn press_attack(&mut self) -> (r: bool)
        ensures
            (final(self)@, r) == old(self)@.press_attack(),
    {
        if self.attack_button_down || self.mode == PlayerMode::Damaged {
            return false;
        }
        self.attack_button_down = true;
        if self.mode == PlayerMode::Attacking {
            return false;
        }
        self.mode = PlayerMode::Attacking;
        self.attack_remaining = F32Bits(ATTACK_DURATION_BITS);
        true
    }

    pub fn release_attack(&mut self)
        ensures
            final(self)@ == (PlayerView { attack_button_down: false, ..old(self)@ }),
    {
        self.attack_button_down = false;
    }

    /// Enters the hit reaction; `false` when already reeling.
    pub fn start_damage(&mut self) -> (r: bool)
        ensures
            (final(self)@, r) == old(self)@.start_damage(),
    {
        if self.mode == PlayerMode::Damaged {
            return false;
        }
        self.mode = PlayerMode::Damaged;
        self.attack_remaining = F32Bits(0);
        true
    }

    /// Leaves the hit reaction; `false` when not reeling.
    pub fn recover_from_damage(&mut self) -> (r: bool)
        ensures
            (final(self)@, r) == old(self)@.recover_from_damage(),
    {
        if self.mode != PlayerMode::Damaged {
            return false;
        }
        self.mode = PlayerMode::Idle;
        true
    }

    /// Advances a frame; `remaining` is the swing timer less the frame's time.
    /// Returns whether the presentation changed.
    pub fn tick(&mut self, remaining: F32Bits, vx: F32Bits, vy: F32Bits) -> (r: bool)
        ensures
            (final(self)@, r) == old(self)@.tick(remaining, vx, vy),
    {
        if self.mode == PlayerMode::Damaged {
            return false;
        }
        if self.mode == PlayerMode::Attacking && remaining.is_above(F32Bits(EPSILON_BITS)) {
            self.attack_remaining = remaining;
            return false;
        }
        let mode = if vx.is_zero() && vy.is_zero() {
            PlayerMode::Idle
        } else {
            PlayerMode::Moving
        };
        let facing = match cardinal_from_velocity(vx, vy) {
            Some(f) => f,
            None => self.facing,
        };
        let changed = self.mode != mode || self.facing != facing;
        self.mode = mode;
        self.facing = facing;
        self.attack_remaining = F32Bits(0);
        changed
    }

    /// The direction of a swing: the frozen cardinal facing.
    pub fn attack_direction(&self) -> (r: AttackDirection)
        ensures
            r == self@.attack_direction(),
    {
        match self.facing {
            Facing::Up => AttackDirection::Up,
            Facing::Down => AttackDirection::Down,
            Facing::Left | Facing::UpLeft | Facing::DownLeft => AttackDirection::Left,
            _ => AttackDirection::Right,
        }
    }

    pub fn presentation(&self) -> (r: SpritePresentation)
        ensures
            r == self@.presentation(),
    {
        let row: u8 = match self.facing {
            Facing::Down => 0,
            Facing::Up => 1,
            _ => 2,
        };
        let sprite_id = match self.mode {
            PlayerMode::Idle | PlayerMode::Damaged => if row == 0 {
                IDLE_DOWN_SPRITE_ID
            } else if row == 1 {
                IDLE_UP_SPRITE_ID
            } else {
                IDLE_SIDE_SPRITE_ID
            },
            PlayerMode::Moving => if row == 0 {
                WALK_DOWN_SPRITE_ID
            } else if row == 1 {
                WALK_UP_SPRITE_ID
            } else {
                WALK_SIDE_SPRITE_ID
            },
            PlayerMode::Attacking => if row == 0 {
                ATTACK_DOWN_SPRITE_ID
            } else if row == 1 {
                ATTACK_UP_SPRITE_ID
            } else {
                ATTACK_SIDE_SPRITE_ID
            },
        };
        let frame_count = match self.mode {
            PlayerMode::Attacking => ATTACK_FRAME_COUNT,
            PlayerMode::Damaged => 1,
            _ => LOOPING_FRAME_COUNT,
        };
        SpritePresentation {
            sprite: Sprite {
                sprite_id,
                frame_w: FRAME_SIZE,
                frame_h: FRAME_SIZE,
                frame_count,
                frame_duration: F32Bits(FRAME_DURATION_BITS),
            },
            frames_per_row: FRAMES_PER_ROW,
            draw_w: DRAW_SIZE,
            draw_h: DRAW_SIZE,
            looping: self.mode == PlayerMode::Idle || self.mode == PlayerMode::Moving,
            advance_while_stopped: true,
            flip_h: self.facing == Facing::Right || self.facing == Facing::UpRight || self.facing
                == Facing::DownRight,
            flip_v: false,
        }
    }
}

/// A swing freezes the facing: frames of the swing keep the direction
/// of attack whatever the movement.
pub proof fn lemma_swing_freezes_facing(v: PlayerView, remaining: F32Bits, vx: F32Bits, vy: F32Bits)
    requires
        v.mode == PlayerMode::Attacking,
        remaining.above(F32Bits(EPSILON_BITS)),
    ensures
        v.tick(remaining, vx, vy).0.facing == v.facing,
        v.tick(remaining, vx, vy).0.attack_direction() == v.attack_direction(),
        !v.tick(remaining, vx, vy).1,
{
}

/// A swing cannot be buffered or retriggered by holding the button: only
/// a press after a release, outside a running swing, starts one.
pub proof fn lemma_attack_edge_triggered(v: PlayerView)
    ensures
        v.press_attack().1 ==> v.press_attack().0.press_attack() == (v.press_attack().0, false),
        v.press_attack().1 <==> (!v.attack_button_down && v.mode != PlayerMode::Attacking
            && v.mode != PlayerMode::Damaged),
{
}

/// While reeling, Will ignores frames and swings until recovery.
pub proof fn lemma_damage_locks_actions(v: PlayerView, remaining: F32Bits, vx: F32Bits, vy: F32Bits)
    requires
        v.mode == PlayerMode::Damaged,
    ensures
        v.tick(remaining, vx, vy) == (v, false),
        v.press_attack() == (v, false),
        v.start_damage() == (v, false),
        v.recover_from_damage().1,
        v.recover_from_damage().0.mode == PlayerMode::Idle,
{
}

/// Outside a hit reaction, a press of the attack button starts a swing
/// exactly when the button was released since its last press and no swing
/// is running; the swing shows the two-frame, one-shot attack sheet for a
/// quarter second. Any other press starts nothing and is not kept: when the
/// running swing ends, after a release, Will walks or stands, not swings.
pub proof fn lemma_attack_press_outside_reeling(
    v: PlayerView,
    remaining: F32Bits,
    vx: F32Bits,
    vy: F32Bits,
)
    requires
        v.mode != PlayerMode::Damaged,
    ensures
        v.press_attack().1 <==> (!v.attack_button_down && v.mode != PlayerMode::Attacking),
        v.press_attack().1 ==> {
            let w = v.press_attack().0;
            &&& w.mode == PlayerMode::Attacking
            &&& w.attack_remaining == F32Bits(ATTACK_DURATION_BITS)
            &&& w.facing == v.facing
            &&& w.presentation().sprite.frame_count == 2
            &&& !w.presentation().looping
        },
        !v.press_attack().1 ==> {
            let w = v.press_attack().0;
            &&& w.mode == v.mode
            &&& w.attack_remaining == v.attack_remaining
            &&& w.facing == v.facing
        },
        !v.press_attack().1 && v.mode == PlayerMode::Attacking && !remaining.above(F32Bits(EPSILON_BITS)) ==> {
            let released = PlayerView { attack_button_down: false, ..v.press_attack().0 };
            released.tick(remaining, vx, vy).0.mode != PlayerMode::Attacking
        },
{
}

/// A swing goes the way Will faces: up or down when facing straight up or
/// down, left for any facing with a leftward part, right for any with a
/// rightward part.
pub proof fn lemma_swing_goes_the_way_will_faces(v: PlayerView)
    ensures
        v.facing == Facing::Up ==> v.attack_direction() == AttackDirection::Up,
        v.facing == Facing::Down ==> v.attack_direction() == AttackDirection::Down,
        (v.facing == Facing::Left || v.facing == Facing::UpLeft || v.facing == Facing::DownLeft) ==> v.attack_direction()
            == AttackDirection::Left,
        (v.facing == Facing::Right || v.facing == Facing::UpRight || v.facing == Facing::DownRight) ==> v.attack_direction()
            == AttackDirection::Right,
{
}

/// After a frame in which Will moves freely (not reeling, no swing still
/// running), the next swing goes the way he moved along the dominant axis
/// of his velocity, horizontal on ties: up when moving up the screen
/// (negative y), down when moving down, left or right likewise.
pub proof fn lemma_swing_follows_the_walk(v: PlayerView, remaining: F32Bits, vx: F32Bits, vy: F32Bits)
    requires
        v.mode != PlayerMode::Damaged,
        !(v.mode == PlayerMode::Attacking && remaining.above(F32Bits(EPSILON_BITS))),
        !(vx.zero() && vy.zero()),
    ensures
        vx.magnitude() >= vy.magnitude() ==> v.tick(remaining, vx, vy).0.attack_direction() == if negative_sign(vx) {
            AttackDirection::Left
        } else {
            AttackDirection::Right
        },
        vx.magnitude() < vy.magnitude() ==> v.tick(remaining, vx, vy).0.attack_direction() == if negative_sign(vy) {
            AttackDirection::Up
        } else {
            AttackDirection::Down
        },
{
}

} // verus!
