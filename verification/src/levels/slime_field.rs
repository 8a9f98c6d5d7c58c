use vstd::prelude::*;

use crate::float_bits::F32Bits;
use crate::messages::{AttackDirection, AttackRequested, AttackTarget, HitConfirmed, RewardGranted, WILL_ENTITY_ID};

verus! {

pub const SLIME_HEALTH: u8 = 2;
pub const SLIME_EXPERIENCE: u32 = 1;

/// Bit pattern of `72.0`, a slime's chase speed.
pub const SLIME_SPEED_BITS: u32 = 0x4290_0000;

/// Bit pattern of `360.0`, how far a slime notices Will.
pub const SLIME_AWARENESS_RADIUS_BITS: u32 = 0x43b4_0000;

/// Bit pattern of `62.0 * 62.0`: within this squared distance a slime winds up an attack.
pub const SLIME_ATTACK_RANGE_SQUARED_BITS: u32 = 0x4570_4000;

/// Bit pattern of `72.0 * 72.0`: within this squared distance a strike lands.
pub const SLIME_ATTACK_HIT_RANGE_SQUARED_BITS: u32 = 0x45a2_0000;

/// Bit pattern of `0.70`, seconds between a finished attack and the next windup.
pub const SLIME_ATTACK_COOLDOWN_BITS: u32 = 0x3f33_3333;

/// Bit pattern of `0.40`, seconds a hurt slime reels.
pub const SLIME_HURT_DURATION_BITS: u32 = 0x3ecc_cccd;

/// Bit pattern of `0.80`, seconds a slime's death animation plays.
pub const SLIME_DEATH_DURATION_BITS: u32 = 0x3f4c_cccd;

/// Bit patterns of `18.0` and `14.0`, half a slime collider's width and height.
pub const SLIME_COLLIDER_HALF_W_BITS: u32 = 0x4190_0000;
pub const SLIME_COLLIDER_HALF_H_BITS: u32 = 0x4160_0000;

/// The animation a slime plays.
#[derive(Debug, Clone, Copy, PartialEq, Eq, Structural)]
pub enum SlimeAnimation {
    Idle,
    Walk,
    Attack,
    Hurt,
    Death,
}

/// Seconds an attack of a sprite set lasts: `0.80`, `0.88` or `0.72`.
pub open spec fn spec_attack_duration(sprite_set: int) -> F32Bits {
    if sprite_set == 0 {
        F32Bits(0x3f4c_cccd)
    } else if sprite_set == 1 {
        F32Bits(0x3f61_47ae)
    } else {
        F32Bits(0x3f38_51ec)
    }
}

/// Seconds of an attack left when its strike lands: the attack's duration
/// times `1.0 - 0.55`, as single precision computes it.
pub open spec fn spec_impact_remaining(sprite_set: int) -> F32Bits {
    if sprite_set == 0 {
        F32Bits(0x3eb8_51eb)
    } else if sprite_set == 1 {
        F32Bits(0x3eca_c083)
    } else {
        F32Bits(0x3ea5_e354)
    }
}

pub fn attack_duration(sprite_set: usize) -> (r: F32Bits)
    ensures
        r == spec_attack_duration(sprite_set as int),
{
    if sprite_set == 0 {
        F32Bits(0x3f4c_cccd)
    } else if sprite_set == 1 {
        F32Bits(0x3f61_47ae)
    } else {
        F32Bits(0x3f38_51ec)
    }
}

pub fn impact_remaining(sprite_set: usize) -> (r: F32Bits)
    ensures
        r == spec_impact_remaining(sprite_set as int),
{
    if sprite_set == 0 {
        F32Bits(0x3eb8_51eb)
    } else if sprite_set == 1 {
        F32Bits(0x3eca_c083)
    } else {
        F32Bits(0x3ea5_e354)
    }
}

/// Where a slime starts and which sprite set it wears.
#[derive(Debug, Clone, Copy, PartialEq, Eq, Structural)]
pub struct SlimeSpawn {
    pub sprite_set: usize,
    pub x: F32Bits,
    pub y: F32Bits,
}

impl SlimeSpawn {
    pub fn new(sprite_set: usize, x: F32Bits, y: F32Bits) -> (r: SlimeSpawn)
        ensures
            r == (SlimeSpawn { sprite_set, x, y }),
    {
        SlimeSpawn { sprite_set, x, y }
    }
}

/// One slime.
#[derive(Debug, Clone, Copy, PartialEq, Eq, Structural)]
pub struct SlimeState {
    pub entity_id: u32,
    pub x: F32Bits,
    pub y: F32Bits,
    pub health: u8,
    pub sprite_set: usize,
    pub animation: SlimeAnimation,
    pub reaction_remaining: F32Bits,
    pub attack_impact_pending: bool,
    pub attack_cooldown_remaining: F32Bits,
}

#[derive(Debug, Clone, Copy, PartialEq, Eq, Structural)]
pub struct SlimeVelocity {
    pub entity_id: u32,
    pub vx: F32Bits,
    pub vy: F32Bits,
}

/// What a slime looks like now, for republishing its sprite.
#[derive(Debug, Clone, Copy, PartialEq, Eq, Structural)]
pub struct SlimeVisual {
    pub entity_id: u32,
    pub sprite_set: usize,
    pub animation: SlimeAnimation,
    pub x: F32Bits,
    pub y: F32Bits,
}

/// A strike on Will and where it came from.
#[derive(Debug, Clone, Copy, PartialEq, Eq, Structural)]
pub struct SlimeDamage {
    pub amount: u8,
    pub source_x: F32Bits,
    pub source_y: F32Bits,
}

/// A swing that hit a slime.
#[derive(Debug, Clone, Copy, PartialEq, Eq, Structural)]
pub struct SlimeHit {
    pub hit: HitConfirmed,
    pub defeated: bool,
    pub reward: Option<RewardGranted>,
    pub visual: SlimeVisual,
}

/// What the slimes ask for in one frame.
#[derive(Debug, Clone, PartialEq, Eq)]
pub struct SlimeTick {
    pub velocities: Vec<SlimeVelocity>,
    pub visuals: Vec<SlimeVisual>,
    pub damages: Vec<SlimeDamage>,
    pub despawns: Vec<u32>,
}

/// The measurements of one slime for one frame, taken in single precision:
/// its cooldown and reaction timers less the frame's time (never below
/// zero), its squared distance to Will, and the velocity that chases Will.
#[derive(Debug, Clone, Copy, PartialEq, Eq, Structural)]
pub struct SlimeFrame {
    pub cooldown_remaining: F32Bits,
    pub reaction_remaining: F32Bits,
    pub distance_squared: F32Bits,
    pub pursuit_vx: F32Bits,
    pub pursuit_vy: F32Bits,
}

/// What one slime asks for in one frame.
#[derive(Debug, Clone, Copy, PartialEq, Eq)]
pub struct SlimeStep {
    pub velocity: Option<(F32Bits, F32Bits)>,
    pub visual: bool,
    pub damage: bool,
    pub despawn: bool,
}

pub open spec fn no_step() -> SlimeStep {
    SlimeStep { velocity: None, visual: false, damage: false, despawn: false }
}

pub open spec fn visual_of(s: SlimeState) -> SlimeVisual {
    SlimeVisual { entity_id: s.entity_id, sprite_set: s.sprite_set, animation: s.animation, x: s.x, y: s.y }
}

pub open spec fn is_reaction(a: SlimeAnimation) -> bool {
    a == SlimeAnimation::Attack || a == SlimeAnimation::Hurt || a == SlimeAnimation::Death
}

/// A slime free to act: it winds up an attack when Will is in range and the
/// cooldown is over, and otherwise idles in range or chases Will, showing
/// walk or idle by whether it moves.
pub open spec fn act(s: SlimeState, f: SlimeFrame, damage: bool) -> (SlimeState, SlimeStep) {
    let in_range = f.distance_squared.at_most(F32Bits(SLIME_ATTACK_RANGE_SQUARED_BITS));
    if in_range && s.attack_cooldown_remaining.at_most(F32Bits(0)) {
        (
            SlimeState {
                animation: SlimeAnimation::Attack,
                reaction_remaining: spec_attack_duration(s.sprite_set as int),
                attack_impact_pending: true,
                ..s
            },
            SlimeStep { velocity: Some((F32Bits(0), F32Bits(0))), visual: true, damage, despawn: false },
        )
    } else {
        let (vx, vy) = if in_range {
            (F32Bits(0), F32Bits(0))
        } else {
            (f.pursuit_vx, f.pursuit_vy)
        };
        let desired = if vx.zero() && vy.zero() {
            SlimeAnimation::Idle
        } else {
            SlimeAnimation::Walk
        };
        (
            SlimeState { animation: desired, ..s },
            SlimeStep { velocity: Some((vx, vy)), visual: s.animation != desired, damage, despawn: false },
        )
    }
}

/// One slime's frame. A finished death is gone; a paused slime stands
/// still. Otherwise the cooldown runs down; a reaction runs down too, and
/// an attack's strike lands once, when its timer passes the impact point,
/// if Will is then within reach. A reaction still running holds the slime
/// still; a finished death despawns it; a finished attack starts the
/// cooldown; then the slime acts.
pub open spec fn step_slime(s: SlimeState, paused: bool, f: SlimeFrame) -> (SlimeState, SlimeStep) {
    if s.animation == SlimeAnimation::Death && s.reaction_remaining.at_most(F32Bits(0)) {
        (s, no_step())
    } else if paused {
        (
            s,
            SlimeStep {
                velocity: if s.health > 0 {
                    Some((F32Bits(0), F32Bits(0)))
                } else {
                    None
                },
                ..no_step()
            },
        )
    } else {
        let s1 = SlimeState { attack_cooldown_remaining: f.cooldown_remaining, ..s };
        if is_reaction(s.animation) {
            let s2 = SlimeState { reaction_remaining: f.reaction_remaining, ..s1 };
            let strikes = s2.animation == SlimeAnimation::Attack && s2.attack_impact_pending
                && s2.reaction_remaining.at_most(spec_impact_remaining(s2.sprite_set as int));
            let s3 = if strikes {
                SlimeState { attack_impact_pending: false, ..s2 }
            } else {
                s2
            };
            let damage = strikes && f.distance_squared.at_most(F32Bits(SLIME_ATTACK_HIT_RANGE_SQUARED_BITS));
            if s3.reaction_remaining.positive() {
                (s3, SlimeStep { velocity: Some((F32Bits(0), F32Bits(0))), visual: false, damage, despawn: false })
            } else if s3.animation == SlimeAnimation::Death {
                (s3, SlimeStep { velocity: None, visual: false, damage, despawn: true })
            } else if s3.animation == SlimeAnimation::Attack {
                act(SlimeState { attack_cooldown_remaining: F32Bits(SLIME_ATTACK_COOLDOWN_BITS), ..s3 }, f, damage)
            } else {
                act(s3, f, damage)
            }
        } else {
            act(s1, f, false)
        }
    }
}

/// What the slimes ask for in one frame, as sequences.
#[verifier::ext_equal]
pub struct SlimeTickView {
    pub velocities: Seq<SlimeVelocity>,
    pub visuals: Seq<SlimeVisual>,
    pub damages: Seq<SlimeDamage>,
    pub despawns: Seq<u32>,
}

impl View for SlimeTick {
    type V = SlimeTickView;

    open spec fn view(&self) -> SlimeTickView {
        SlimeTickView {
            velocities: self.velocities@,
            visuals: self.visuals@,
            damages: self.damages@,
            despawns: self.despawns@,
        }
    }
}

pub open spec fn empty_tick() -> SlimeTickView {
    SlimeTickView { velocities: Seq::empty(), visuals: Seq::empty(), damages: Seq::empty(), despawns: Seq::empty() }
}

/// The requests of one slime's step: its velocity, its new look, a strike
/// from where it stands, its removal.
pub open spec fn step_outputs(before: SlimeState, after: SlimeState, step: SlimeStep) -> SlimeTickView {
    SlimeTickView {
        velocities: match step.velocity {
            Some((vx, vy)) => seq![SlimeVelocity { entity_id: before.entity_id, vx, vy }],
            None => Seq::empty(),
        },
        visuals: if step.visual {
            seq![visual_of(after)]
        } else {
            Seq::empty()
        },
        damages: if step.damage {
            seq![SlimeDamage { amount: 1, source_x: before.x, source_y: before.y }]
        } else {
            Seq::empty()
        },
        despawns: if step.despawn {
            seq![before.entity_id]
        } else {
            Seq::empty()
        },
    }
}

pub open spec fn append_tick(a: SlimeTickView, b: SlimeTickView) -> SlimeTickView {
    SlimeTickView {
        velocities: a.velocities + b.velocities,
        visuals: a.visuals + b.visuals,
        damages: a.damages + b.damages,
        despawns: a.despawns + b.despawns,
    }
}

/// The requests of the first `n` slimes, in order.
pub open spec fn tick_prefix(slimes: Seq<SlimeState>, paused: bool, frames: Seq<SlimeFrame>, n: nat) -> SlimeTickView
    decreases n,
{
    if n == 0 {
        empty_tick()
    } else {
        let k = n - 1;
        let (after, step) = step_slime(slimes[k], paused, frames[k]);
        append_tick(tick_prefix(slimes, paused, frames, k as nat), step_outputs(slimes[k], after, step))
    }
}

/// The velocity a living slime would ask for now: none while paused,
/// reacting to a swing, winding up, or within attack range; otherwise its
/// chase velocity.
pub open spec fn standing_velocity(s: SlimeState, paused: bool, f: SlimeFrame) -> SlimeVelocity {
    let still = paused || s.animation == SlimeAnimation::Attack || s.animation == SlimeAnimation::Hurt
        || f.distance_squared.at_most(F32Bits(SLIME_ATTACK_RANGE_SQUARED_BITS));
    if still {
        SlimeVelocity { entity_id: s.entity_id, vx: F32Bits(0), vy: F32Bits(0) }
    } else {
        SlimeVelocity { entity_id: s.entity_id, vx: f.pursuit_vx, vy: f.pursuit_vy }
    }
}

/// The velocities of the first `n` slimes that are alive, in order.
pub open spec fn standing_velocities(slimes: Seq<SlimeState>, paused: bool, frames: Seq<SlimeFrame>, n: nat) -> Seq<
    SlimeVelocity,
>
    decreases n,
{
    if n == 0 {
        Seq::empty()
    } else {
        let k = n - 1;
        standing_velocities(slimes, paused, frames, k as nat) + if slimes[k].health > 0 {
            seq![standing_velocity(slimes[k], paused, frames[k])]
        } else {
            Seq::empty()
        }
    }
}

/// What a [`SlimeField`] holds.
#[verifier::ext_equal]
pub struct SlimeFieldView {
    pub slimes: Seq<SlimeState>,
    pub will_x: F32Bits,
    pub will_y: F32Bits,
    pub paused: bool,
    pub last_attack_sequence: Option<u32>,
}

/// The hostile slimes of level two and what they know of Will.
#[derive(Debug, Clone, PartialEq, Eq)]
pub struct SlimeField {
    slimes: Vec<SlimeState>,
    will_x: F32Bits,
    will_y: F32Bits,
    paused: bool,
    last_attack_sequence: Option<u32>,
}

impl View for SlimeField {
    type V = SlimeFieldView;

    closed spec fn view(&self) -> SlimeFieldView {
        SlimeFieldView {
            slimes: self.slimes@,
            will_x: self.will_x,
            will_y: self.will_y,
            paused: self.paused,
            last_attack_sequence: self.last_attack_sequence,
        }
    }
}

/// Whether slime `i` is the first with id `id`.
pub open spec fn first_with_id(slimes: Seq<SlimeState>, i: int, id: u32) -> bool {
    0 <= i < slimes.len() && slimes[i].entity_id == id && forall|j: int| 0 <= j < i ==> slimes[j].entity_id != id
}

/// The first slime with id `id`, if any.
pub open spec fn first_slime(slimes: Seq<SlimeState>, id: u32) -> Option<int> {
    if exists|i: int| first_with_id(slimes, i, id) {
        Some(choose|i: int| first_with_id(slimes, i, id))
    } else {
        None
    }
}

fn find_slime(slimes: &Vec<SlimeState>, id: u32) -> (r: Option<usize>)
    ensures
        r matches Some(i) ==> i < slimes@.len() && first_slime(slimes@, id) == Some(i as int),
        r is None ==> first_slime(slimes@, id) is None,
{
    let mut i: usize = 0;
    while i < slimes.len()
        invariant
            i <= slimes@.len(),
            forall|j: int| 0 <= j < i ==> #[trigger] slimes@[j].entity_id != id,
        decreases slimes@.len() - i,
    {
        if slimes[i].entity_id == id {
            assert(first_with_id(slimes@, i as int, id));
            let ghost c = choose|c: int| first_with_id(slimes@, c, id);
            assert(c == i) by {
                if c < i {
                    assert(slimes@[c].entity_id != id);
                }
                if c > i {
                    assert(slimes@[i as int].entity_id != id);
                }
            }
            return Some(i);
        }
        i = i + 1;
    }
    assert forall|c: int| !first_with_id(slimes@, c, id) by {
        if 0 <= c < slimes@.len() {
            assert(slimes@[c].entity_id != id);
        }
    }
    None
}

impl SlimeFieldView {
    /// Slimes numbered from `id_start` in spawn order, at full health and
    /// idle, with Will at `will`.
    pub open spec fn spawned(id_start: u32, spawns: Seq<SlimeSpawn>, will: (F32Bits, F32Bits)) -> SlimeFieldView {
        SlimeFieldView {
            slimes: Seq::new(
                spawns.len(),
                |i: int| SlimeState {
                    entity_id: (id_start + i) as u32,
                    x: spawns[i].x,
                    y: spawns[i].y,
                    health: SLIME_HEALTH,
                    sprite_set: spawns[i].sprite_set,
                    animation: SlimeAnimation::Idle,
                    reaction_remaining: F32Bits(0),
                    attack_impact_pending: false,
                    attack_cooldown_remaining: F32Bits(0),
                },
            ),
            will_x: will.0,
            will_y: will.1,
            paused: false,
            last_attack_sequence: None,
        }
    }

    /// A finite authoritative position: Will's, or that of a live slime.
    pub open spec fn update_transform(self, entity_id: u32, x: F32Bits, y: F32Bits) -> SlimeFieldView {
        if !x.finite() || !y.finite() {
            self
        } else if entity_id == WILL_ENTITY_ID {
            SlimeFieldView { will_x: x, will_y: y, ..self }
        } else {
            match first_slime(self.slimes, entity_id) {
                Some(i) => if self.slimes[i].health > 0 {
                    SlimeFieldView { slimes: self.slimes.update(i, SlimeState { x, y, ..self.slimes[i] }), ..self }
                } else {
                    self
                },
                None => self,
            }
        }
    }

    /// A swing with the slime the targeting rule chose: a repeated sequence
    /// does nothing; otherwise the slime, if it still lives, loses a hit
    /// point, its pending strike is cancelled and its cooldown restarts, and
    /// it reels, or dies and rewards one experience.
    pub open spec fn attack(self, attack: AttackRequested, target: Option<u32>) -> (SlimeFieldView, Option<SlimeHit>) {
        if self.last_attack_sequence == Some(attack.sequence) {
            (self, None)
        } else {
            let marked = SlimeFieldView { last_attack_sequence: Some(attack.sequence), ..self };
            match target {
                None => (marked, None),
                Some(id) => match first_slime(self.slimes, id) {
                    None => (marked, None),
                    Some(i) => if self.slimes[i].health == 0 {
                        (marked, None)
                    } else {
                        let s = self.slimes[i];
                        let health = (s.health - 1) as u8;
                        let defeated = health == 0;
                        let hit = SlimeState {
                            health,
                            attack_impact_pending: false,
                            attack_cooldown_remaining: F32Bits(SLIME_ATTACK_COOLDOWN_BITS),
                            animation: if defeated {
                                SlimeAnimation::Death
                            } else {
                                SlimeAnimation::Hurt
                            },
                            reaction_remaining: if defeated {
                                F32Bits(SLIME_DEATH_DURATION_BITS)
                            } else {
                                F32Bits(SLIME_HURT_DURATION_BITS)
                            },
                            ..s
                        };
                        (
                            SlimeFieldView { slimes: self.slimes.update(i, hit), ..marked },
                            Some(
                                SlimeHit {
                                    hit: HitConfirmed { sequence: attack.sequence, entity_id: s.entity_id, x: s.x, y: s.y },
                                    defeated,
                                    reward: if defeated {
                                        Some(RewardGranted { experience: SLIME_EXPERIENCE, coins: 0 })
                                    } else {
                                        None
                                    },
                                    visual: visual_of(hit),
                                },
                            ),
                        )
                    },
                },
            }
        }
    }

    /// Every slime after its step of one frame.
    pub open spec fn ticked(self, frames: Seq<SlimeFrame>) -> SlimeFieldView {
        SlimeFieldView {
            slimes: Seq::new(self.slimes.len(), |i: int| step_slime(self.slimes[i], self.paused, frames[i]).0),
            ..self
        }
    }

    /// What the slimes ask for in one frame.
    pub open spec fn tick_output(self, frames: Seq<SlimeFrame>) -> SlimeTickView {
        tick_prefix(self.slimes, self.paused, frames, self.slimes.len())
    }

    /// The live slimes as targets, in order.
    pub open spec fn targets(self) -> Seq<AttackTarget> {
        live_targets(self.slimes)
    }
}

/// A slime as a target of the targeting rule.
pub open spec fn slime_target(s: SlimeState) -> AttackTarget {
    AttackTarget {
        entity_id: s.entity_id,
        x: s.x,
        y: s.y,
        half_w: F32Bits(SLIME_COLLIDER_HALF_W_BITS),
        half_h: F32Bits(SLIME_COLLIDER_HALF_H_BITS),
    }
}

/// The slimes with hit points left, as targets, in order.
pub open spec fn live_targets(slimes: Seq<SlimeState>) -> Seq<AttackTarget>
    decreases slimes.len(),
{
    if slimes.len() == 0 {
        Seq::empty()
    } else {
        live_targets(slimes.drop_last()) + if slimes.last().health > 0 {
            seq![slime_target(slimes.last())]
        } else {
            Seq::empty()
        }
    }
}

fn act_exec(s: SlimeState, f: SlimeFrame, damage: bool) -> (r: (SlimeState, SlimeStep))
    ensures
        r == act(s, f, damage),
{
    let in_range = f.distance_squared.is_at_most(F32Bits(SLIME_ATTACK_RANGE_SQUARED_BITS));
    if in_range && s.attack_cooldown_remaining.is_at_most(F32Bits(0)) {
        (
            SlimeState {
                animation: SlimeAnimation::Attack,
                reaction_remaining: attack_duration(s.sprite_set),
                attack_impact_pending: true,
                ..s
            },
            SlimeStep { velocity: Some((F32Bits(0), F32Bits(0))), visual: true, damage, despawn: false },
        )
    } else {
        let (vx, vy) = if in_range {
            (F32Bits(0), F32Bits(0))
        } else {
            (f.pursuit_vx, f.pursuit_vy)
        };
        let desired = if vx.is_zero() && vy.is_zero() {
            SlimeAnimation::Idle
        } else {
            SlimeAnimation::Walk
        };
        let visual = s.animation != desired;
        (
            SlimeState { animation: desired, ..s },
            SlimeStep { velocity: Some((vx, vy)), visual, damage, despawn: false },
        )
    }
}

fn step_exec(s: SlimeState, paused: bool, f: SlimeFrame) -> (r: (SlimeState, SlimeStep))
    ensures
        r == step_slime(s, paused, f),
{
    if s.animation == SlimeAnimation::Death && s.reaction_remaining.is_at_most(F32Bits(0)) {
        return (s, SlimeStep { velocity: None, visual: false, damage: false, despawn: false });
    }
    if paused {
        let velocity = if s.health > 0 {
            Some((F32Bits(0), F32Bits(0)))
        } else {
            None
        };
        return (s, SlimeStep { velocity, visual: false, damage: false, despawn: false });
    }
    let s1 = SlimeState { attack_cooldown_remaining: f.cooldown_remaining, ..s };
    if s.animation == SlimeAnimation::Attack || s.animation == SlimeAnimation::Hurt || s.animation
        == SlimeAnimation::Death {
        let s2 = SlimeState { reaction_remaining: f.reaction_remaining, ..s1 };
        let strikes = s2.animation == SlimeAnimation::Attack && s2.attack_impact_pending
            && s2.reaction_remaining.is_at_most(impact_remaining(s2.sprite_set));
        let s3 = if strikes {
            SlimeState { attack_impact_pending: false, ..s2 }
        } else {
            s2
        };
        let damage = strikes && f.distance_squared.is_at_most(F32Bits(SLIME_ATTACK_HIT_RANGE_SQUARED_BITS));
        if s3.reaction_remaining.is_positive() {
            (s3, SlimeStep { velocity: Some((F32Bits(0), F32Bits(0))), visual: false, damage, despawn: false })
        } else if s3.animation == SlimeAnimation::Death {
            (s3, SlimeStep { velocity: None, visual: false, damage, despawn: true })
        } else if s3.animation == SlimeAnimation::Attack {
            act_exec(SlimeState { attack_cooldown_remaining: F32Bits(SLIME_ATTACK_COOLDOWN_BITS), ..s3 }, f, damage)
        } else {
            act_exec(s3, f, damage)
        }
    } else {
        act_exec(s1, f, false)
    }
}

impl SlimeField {
    /// Slimes numbered from `id_start` in spawn order, at full health and
    /// idle, with Will at `will_spawn`.
    pub fn new(id_start: u32, spawns: &[SlimeSpawn], will_spawn: (F32Bits, F32Bits)) -> (r: SlimeField)
        requires
            id_start + spawns@.len() <= u32::MAX + 1,
        ensures
            r@ == SlimeFieldView::spawned(id_start, spawns@, will_spawn),
    {
        let ghost target = SlimeFieldView::spawned(id_start, spawns@, will_spawn).slimes;
        let mut slimes: Vec<SlimeState> = Vec::new();
        let mut i: usize = 0;
        while i < spawns.len()
            invariant
                i <= spawns@.len(),
                id_start + spawns@.len() <= u32::MAX + 1,
                target == SlimeFieldView::spawned(id_start, spawns@, will_spawn).slimes,
                slimes@ == target.take(i as int),
            decreases spawns@.len() - i,
        {
            let spawn = spawns[i];
            slimes.push(
                SlimeState {
                    entity_id: id_start + i as u32,
                    x: spawn.x,
                    y: spawn.y,
                    health: SLIME_HEALTH,
                    sprite_set: spawn.sprite_set,
                    animation: SlimeAnimation::Idle,
                    reaction_remaining: F32Bits(0),
                    attack_impact_pending: false,
                    attack_cooldown_remaining: F32Bits(0),
                },
            );
            assert(slimes@ =~= target.take(i + 1));
            i = i + 1;
        }
        assert(slimes@ =~= target);
        SlimeField { slimes, will_x: will_spawn.0, will_y: will_spawn.1, paused: false, last_attack_sequence: None }
    }

    pub fn set_paused(&mut self, paused: bool)
        ensures
            final(self)@ == (SlimeFieldView { paused, ..old(self)@ }),
    {
        self.paused = paused;
    }

    /// The slimes, in spawn order.
    pub fn slimes(&self) -> (r: &Vec<SlimeState>)
        ensures
            r@ == self@.slimes,
    {
        &self.slimes
    }

    /// Will's latest known position.
    pub fn will_position(&self) -> (r: (F32Bits, F32Bits))
        ensures
            r == (self@.will_x, self@.will_y),
    {
        (self.will_x, self.will_y)
    }

    pub fn paused(&self) -> (r: bool)
        ensures
            r == self@.paused,
    {
        self.paused
    }

    pub fn update_transform(&mut self, entity_id: u32, x: F32Bits, y: F32Bits)
        ensures
            final(self)@ == old(self)@.update_transform(entity_id, x, y),
    {
        if !x.is_finite() || !y.is_finite() {
            return;
        }
        if entity_id == WILL_ENTITY_ID {
            self.will_x = x;
            self.will_y = y;
            return;
        }
        if let Some(i) = find_slime(&self.slimes, entity_id) {
            let s = self.slimes[i];
            if s.health > 0 {
                self.slimes.set(i, SlimeState { x, y, ..s });
                assert(self.slimes@ =~= old(self)@.slimes.update(i as int, SlimeState { x, y, ..s }));
            }
        }
    }

    /// Steps every slime through one frame; `frames` holds each slime's
    /// measurements for the frame, in order.
    pub fn tick(&mut self, frames: &[SlimeFrame]) -> (r: SlimeTick)
        requires
            frames@.len() == old(self)@.slimes.len(),
        ensures
            final(self)@ == old(self)@.ticked(frames@),
            r@ == old(self)@.tick_output(frames@),
    {
        let ghost before = self.slimes@;
        let mut tick = SlimeTick { velocities: Vec::new(), visuals: Vec::new(), damages: Vec::new(), despawns: Vec::new() };
        let mut i: usize = 0;
        while i < self.slimes.len()
            invariant
                self.slimes@.len() == before.len(),
                frames@.len() == before.len(),
                i <= before.len(),
                self.paused == old(self).paused,
                self.will_x == old(self).will_x,
                self.will_y == old(self).will_y,
                self.last_attack_sequence == old(self).last_attack_sequence,
                before == old(self)@.slimes,
                forall|j: int| 0 <= j < i ==> #[trigger] self.slimes@[j] == step_slime(before[j], self.paused, frames@[j]).0,
                forall|j: int| i <= j < before.len() ==> #[trigger] self.slimes@[j] == before[j],
                tick@ == tick_prefix(before, self.paused, frames@, i as nat),
            decreases before.len() - i,
        {
            let s = self.slimes[i];
            let (after, step) = step_exec(s, self.paused, frames[i]);
            let ghost prev = tick@;
            match step.velocity {
                Some((vx, vy)) => tick.velocities.push(SlimeVelocity { entity_id: s.entity_id, vx, vy }),
                None => {},
            }
            if step.visual {
                tick.visuals.push(
                    SlimeVisual {
                        entity_id: after.entity_id,
                        sprite_set: after.sprite_set,
                        animation: after.animation,
                        x: after.x,
                        y: after.y,
                    },
                );
            }
            if step.damage {
                tick.damages.push(SlimeDamage { amount: 1, source_x: s.x, source_y: s.y });
            }
            if step.despawn {
                tick.despawns.push(s.entity_id);
            }
            proof {
                let o = step_outputs(s, after, step);
                assert(tick.velocities@ =~= prev.velocities + o.velocities);
                assert(tick.visuals@ =~= prev.visuals + o.visuals);
                assert(tick.damages@ =~= prev.damages + o.damages);
                assert(tick.despawns@ =~= prev.despawns + o.despawns);
                assert(tick@ =~= tick_prefix(before, self.paused, frames@, (i + 1) as nat));
            }
            self.slimes.set(i, after);
            i = i + 1;
        }
        assert(self.slimes@ =~= old(self)@.ticked(frames@).slimes);
        tick
    }

    /// The velocities the living slimes ask for now, in order; `frames`
    /// holds each slime's measurements.
    pub fn velocities(&self, frames: &[SlimeFrame]) -> (r: Vec<SlimeVelocity>)
        requires
            frames@.len() == self@.slimes.len(),
        ensures
            r@ == standing_velocities(self@.slimes, self@.paused, frames@, self@.slimes.len()),
    {
        let mut out: Vec<SlimeVelocity> = Vec::new();
        let mut i: usize = 0;
        while i < self.slimes.len()
            invariant
                i <= self.slimes@.len(),
                frames@.len() == self.slimes@.len(),
                out@ == standing_velocities(self.slimes@, self.paused, frames@, i as nat),
            decreases self.slimes@.len() - i,
        {
            let s = self.slimes[i];
            let ghost prev = out@;
            if s.health > 0 {
                let f = frames[i];
                let still = self.paused || s.animation == SlimeAnimation::Attack || s.animation == SlimeAnimation::Hurt
                    || f.distance_squared.is_at_most(F32Bits(SLIME_ATTACK_RANGE_SQUARED_BITS));
                if still {
                    out.push(SlimeVelocity { entity_id: s.entity_id, vx: F32Bits(0), vy: F32Bits(0) });
                } else {
                    out.push(SlimeVelocity { entity_id: s.entity_id, vx: f.pursuit_vx, vy: f.pursuit_vy });
                }
            }
            assert(out@ =~= standing_velocities(self.slimes@, self.paused, frames@, (i + 1) as nat));
            i = i + 1;
        }
        out
    }

    /// The live slimes as targets for a swing, in spawn order.
    pub fn targets(&self) -> (r: Vec<AttackTarget>)
        ensures
            r@ == self@.targets(),
    {
        let mut out: Vec<AttackTarget> = Vec::new();
        let mut i: usize = 0;
        while i < self.slimes.len()
            invariant
                i <= self.slimes@.len(),
                out@ == live_targets(self.slimes@.take(i as int)),
            decreases self.slimes@.len() - i,
        {
            let s = self.slimes[i];
            assert(self.slimes@.take(i + 1).drop_last() =~= self.slimes@.take(i as int));
            if s.health > 0 {
                out.push(
                    AttackTarget {
                        entity_id: s.entity_id,
                        x: s.x,
                        y: s.y,
                        half_w: F32Bits(SLIME_COLLIDER_HALF_W_BITS),
                        half_h: F32Bits(SLIME_COLLIDER_HALF_H_BITS),
                    },
                );
            }
            assert(out@ =~= live_targets(self.slimes@.take(i + 1)));
            i = i + 1;
        }
        assert(self.slimes@.take(self.slimes@.len() as int) =~= self.slimes@);
        out
    }

    /// Applies a swing; `target` is the slime the targeting rule chose
    /// among [`SlimeField::targets`].
    pub fn attack(&mut self, attack: AttackRequested, target: Option<u32>) -> (r: Option<SlimeHit>)
        ensures
            (final(self)@, r) == old(self)@.attack(attack, target),
    {
        if self.last_attack_sequence == Some(attack.sequence) {
            return None;
        }
        self.last_attack_sequence = Some(attack.sequence);
        let id = match target {
            Some(id) => id,
            None => return None,
        };
        let i = match find_slime(&self.slimes, id) {
            Some(i) => i,
            None => return None,
        };
        let s = self.slimes[i];
        if s.health == 0 {
            return None;
        }
        let health = s.health - 1;
        let defeated = health == 0;
        let hit = SlimeState {
            health,
            attack_impact_pending: false,
            attack_cooldown_remaining: F32Bits(SLIME_ATTACK_COOLDOWN_BITS),
            animation: if defeated {
                SlimeAnimation::Death
            } else {
                SlimeAnimation::Hurt
            },
            reaction_remaining: if defeated {
                F32Bits(SLIME_DEATH_DURATION_BITS)
            } else {
                F32Bits(SLIME_HURT_DURATION_BITS)
            },
            ..s
        };
        self.slimes.set(i, hit);
        assert(self.slimes@ =~= old(self)@.slimes.update(i as int, hit));
        Some(
            SlimeHit {
                hit: HitConfirmed { sequence: attack.sequence, entity_id: s.entity_id, x: s.x, y: s.y },
                defeated,
                reward: if defeated {
                    Some(RewardGranted { experience: SLIME_EXPERIENCE, coins: 0 })
                } else {
                    None
                },
                visual: SlimeVisual {
                    entity_id: hit.entity_id,
                    sprite_set: hit.sprite_set,
                    animation: hit.animation,
                    x: hit.x,
                    y: hit.y,
                },
            },
        )
    }
}


/// A slime's standing in the field: it wears one of the three sprite sets,
/// never has more than its starting hit points, and one with none left is
/// dying with no strike pending.
pub open spec fn slime_wf(s: SlimeState) -> bool {
    &&& s.sprite_set < 3
    &&& s.health <= SLIME_HEALTH
    &&& s.health == 0 ==> s.animation == SlimeAnimation::Death && !s.attack_impact_pending
    &&& s.animation == SlimeAnimation::Death ==> s.health == 0
}

/// A slime whose death has played out: no hit points, and a death timer
/// at zero or below.
pub open spec fn gone(s: SlimeState) -> bool {
    &&& s.health == 0
    &&& s.animation == SlimeAnimation::Death
    &&& s.reaction_remaining.at_most(F32Bits(0))
}

/// Whether a single-precision pattern is a NaN.
pub open spec fn is_nan(x: F32Bits) -> bool {
    x.magnitude() > 0x7f80_0000
}

impl SlimeFieldView {
    /// Every slime is in good standing.
    pub open spec fn slimes_wf(self) -> bool {
        forall|i: int| 0 <= i < self.slimes.len() ==> #[trigger] slime_wf(self.slimes[i])
    }
}

/// A frame never moves, heals or renames a slime: only its animation and
/// timers change.
pub proof fn lemma_step_keeps_identity(s: SlimeState, paused: bool, f: SlimeFrame)
    ensures
        step_slime(s, paused, f).0.entity_id == s.entity_id,
        step_slime(s, paused, f).0.x == s.x,
        step_slime(s, paused, f).0.y == s.y,
        step_slime(s, paused, f).0.health == s.health,
        step_slime(s, paused, f).0.sprite_set == s.sprite_set,
{
}

/// Pausing freezes every slime: a paused frame changes no state, and asks
/// only that the living stand still.
pub proof fn lemma_paused_frame_freezes(v: SlimeFieldView, frames: Seq<SlimeFrame>)
    requires
        v.paused,
        frames.len() == v.slimes.len(),
    ensures
        v.ticked(frames) == v,
        forall|i: int| 0 <= i < v.slimes.len() ==> {
            let step = #[trigger] step_slime(v.slimes[i], true, frames[i]).1;
            !step.damage && !step.visual && !step.despawn && (step.velocity is None || step.velocity
                == Some((F32Bits(0), F32Bits(0))))
        },
{
    assert(v.ticked(frames).slimes =~= v.slimes);
}

/// Only the strike of an attack that was wound up hurts Will, and it lands
/// once: the step that lands it leaves no strike pending.
pub proof fn lemma_strike_lands_once(s: SlimeState, paused: bool, f: SlimeFrame)
    ensures
        step_slime(s, paused, f).1.damage ==> s.animation == SlimeAnimation::Attack
            && s.attack_impact_pending && !step_slime(s, paused, f).0.attack_impact_pending,
        !s.attack_impact_pending ==> !step_slime(s, paused, f).1.damage,
{
    lemma_cooldown_is_positive();
}

proof fn lemma_cooldown_is_positive()
    ensures
        F32Bits(SLIME_ATTACK_COOLDOWN_BITS).positive(),
        !F32Bits(SLIME_ATTACK_COOLDOWN_BITS).at_most(F32Bits(0)),
{
}

/// A defeated slime stays dying until it despawns, never strikes and never
/// moves.
pub proof fn lemma_defeated_slime_is_harmless(s: SlimeState, paused: bool, f: SlimeFrame)
    requires
        slime_wf(s),
        s.health == 0,
    ensures
        !step_slime(s, paused, f).1.damage,
        !step_slime(s, paused, f).1.visual,
        step_slime(s, paused, f).1.velocity is None || step_slime(s, paused, f).1.velocity == Some(
            (F32Bits(0), F32Bits(0)),
        ),
        slime_wf(step_slime(s, paused, f).0),
{
}

/// A frame keeps every slime in good standing.
pub proof fn lemma_tick_keeps_wf(v: SlimeFieldView, frames: Seq<SlimeFrame>)
    requires
        v.slimes_wf(),
        frames.len() == v.slimes.len(),
    ensures
        v.ticked(frames).slimes_wf(),
{
    assert forall|i: int| 0 <= i < v.slimes.len() implies #[trigger] slime_wf(v.ticked(frames).slimes[i]) by {
        lemma_step_wf(v.slimes[i], v.paused, frames[i]);
    }
}

proof fn lemma_step_wf(s: SlimeState, paused: bool, f: SlimeFrame)
    requires
        slime_wf(s),
    ensures
        slime_wf(step_slime(s, paused, f).0),
{
    if s.health == 0 {
        lemma_defeated_slime_is_harmless(s, paused, f);
    }
}

/// A swing keeps every slime in good standing.
pub proof fn lemma_attack_keeps_wf(v: SlimeFieldView, attack: AttackRequested, target: Option<u32>)
    requires
        v.slimes_wf(),
    ensures
        v.attack(attack, target).0.slimes_wf(),
{
    let after = v.attack(attack, target).0;
    assert forall|i: int| 0 <= i < after.slimes.len() implies #[trigger] slime_wf(after.slimes[i]) by {
        assert(slime_wf(v.slimes[i]));
    }
}

/// The slimes a field starts with are in good standing.
pub proof fn lemma_spawned_wf(id_start: u32, spawns: Seq<SlimeSpawn>, will: (F32Bits, F32Bits))
    requires
        forall|i: int| 0 <= i < spawns.len() ==> #[trigger] spawns[i].sprite_set < 3,
    ensures
        SlimeFieldView::spawned(id_start, spawns, will).slimes_wf(),
{
    let v = SlimeFieldView::spawned(id_start, spawns, will);
    assert forall|i: int| 0 <= i < v.slimes.len() implies #[trigger] slime_wf(v.slimes[i]) by {
        assert(spawns[i].sprite_set < 3);
    }
}

/// A swing is handled once: repeating its sequence changes nothing and
/// hits nothing, whatever target is named.
pub proof fn lemma_repeated_swing_is_ignored(v: SlimeFieldView, attack: AttackRequested, a: Option<u32>, b: Option<u32>)
    ensures
        v.attack(attack, a).0.attack(attack, b) == (v.attack(attack, a).0, None::<SlimeHit>),
{
}

/// A slime at full health takes two swings: the first hurts it with no
/// reward and cancels any pending strike, the second defeats it and awards
/// one experience.
pub proof fn lemma_two_hits_defeat(v: SlimeFieldView, first: AttackRequested, second: AttackRequested, id: u32)
    requires
        first.sequence != second.sequence,
        first_slime(v.slimes, id) matches Some(i) && v.slimes[i].health == SLIME_HEALTH,
        v.last_attack_sequence != Some(first.sequence),
    ensures
        ({
            let (v1, r1) = v.attack(first, Some(id));
            let (v2, r2) = v1.attack(second, Some(id));
            &&& r1 matches Some(h) && !h.defeated && h.reward is None && h.hit.entity_id == id
                && h.visual.animation == SlimeAnimation::Hurt
            &&& !v1.slimes[first_slime(v.slimes, id)->Some_0].attack_impact_pending
            &&& r2 matches Some(h) && h.defeated && h.reward == Some(
                RewardGranted { experience: SLIME_EXPERIENCE, coins: 0 },
            ) && h.visual.animation == SlimeAnimation::Death
        }),
{
    let i = first_slime(v.slimes, id)->Some_0;
    let v1 = v.attack(first, Some(id)).0;
    assert(first_with_id(v.slimes, i, id));
    assert(first_with_id(v1.slimes, i, id));
    assert(first_slime(v1.slimes, id) == Some(i)) by {
        let c = choose|c: int| first_with_id(v1.slimes, c, id);
        if c < i {
            assert(v1.slimes[c] == v.slimes[c]);
        } else if c > i {
            assert(v1.slimes[i].entity_id == id);
        }
    }
}

/// A swing changes at most the one slime it hits, and only a living one.
pub proof fn lemma_swing_hits_one_slime(v: SlimeFieldView, attack: AttackRequested, target: Option<u32>, k: int)
    requires
        0 <= k < v.slimes.len(),
    ensures
        v.attack(attack, target).0.slimes.len() == v.slimes.len(),
        v.attack(attack, target).0.slimes[k] != v.slimes[k] ==> target is Some && first_slime(
            v.slimes,
            target->Some_0,
        ) == Some(k) && v.slimes[k].health > 0,
        v.attack(attack, target).1 is Some ==> target is Some && (first_slime(v.slimes, target->Some_0) matches Some(
            i,
        ) && v.slimes[i].health > 0),
{
}

/// A slime that despawns is gone for good, unless the frame measured its
/// death timer as a NaN: once gone, frames ask nothing of it and leave it
/// gone, swings naming it hit nothing, positions and pauses do not revive it.
pub proof fn lemma_despawn_is_final(s: SlimeState, paused: bool, f: SlimeFrame)
    requires
        slime_wf(s),
        step_slime(s, paused, f).1.despawn,
        !is_nan(f.reaction_remaining),
    ensures
        gone(step_slime(s, paused, f).0),
{
}

/// A gone slime stays gone and silent in every frame, and no swing,
/// position update or pause brings it back.
pub proof fn lemma_gone_slime_stays_gone(
    v: SlimeFieldView,
    k: int,
    frames: Seq<SlimeFrame>,
    attack: AttackRequested,
    target: Option<u32>,
    entity_id: u32,
    x: F32Bits,
    y: F32Bits,
    paused: bool,
)
    requires
        0 <= k < v.slimes.len(),
        frames.len() == v.slimes.len(),
        gone(v.slimes[k]),
    ensures
        gone(v.ticked(frames).slimes[k]),
        step_slime(v.slimes[k], v.paused, frames[k]).1 == no_step(),
        gone(v.attack(attack, target).0.slimes[k]),
        v.attack(attack, target).1 is Some ==> first_slime(v.slimes, target->Some_0) != Some(k),
        gone(v.update_transform(entity_id, x, y).slimes[k]),
        gone((SlimeFieldView { paused, ..v }).slimes[k]),
{
}

/// Whether no two slimes share an id.
pub open spec fn ids_distinct(slimes: Seq<SlimeState>) -> bool {
    forall|i: int, j: int|
        0 <= i < slimes.len() && 0 <= j < slimes.len() && i != j ==> #[trigger] slimes[i].entity_id
            != #[trigger] slimes[j].entity_id
}

/// Spawned slimes have distinct ids while their numbering does not wrap.
pub proof fn lemma_spawned_ids_distinct(id_start: u32, spawns: Seq<SlimeSpawn>, will: (F32Bits, F32Bits))
    requires
        id_start + spawns.len() <= u32::MAX + 1,
    ensures
        ids_distinct(SlimeFieldView::spawned(id_start, spawns, will).slimes),
{
}

/// One call on a field between frames: a frame with each slime's
/// measurements, a swing with its chosen target, a position update, or a
/// pause change.
pub enum FieldOp {
    Tick(Seq<SlimeFrame>),
    Attack(AttackRequested, Option<u32>),
    Transform(u32, F32Bits, F32Bits),
    Pause(bool),
}

impl SlimeFieldView {
    /// The field after one call.
    pub open spec fn apply(self, op: FieldOp) -> SlimeFieldView {
        match op {
            FieldOp::Tick(frames) => self.ticked(frames),
            FieldOp::Attack(attack, target) => self.attack(attack, target).0,
            FieldOp::Transform(id, x, y) => self.update_transform(id, x, y),
            FieldOp::Pause(paused) => SlimeFieldView { paused, ..self },
        }
    }

    /// The field after the calls, in order.
    pub open spec fn run(self, ops: Seq<FieldOp>) -> SlimeFieldView
        decreases ops.len(),
    {
        if ops.len() == 0 {
            self
        } else {
            self.run(ops.drop_last()).apply(ops.last())
        }
    }
}

/// Whether a frame's requests name slime `e`: removing it, setting its
/// velocity or showing it.
pub open spec fn names_slime(out: SlimeTickView, e: u32) -> bool {
    ||| out.despawns.contains(e)
    ||| exists|i: int| 0 <= i < out.velocities.len() && (#[trigger] out.velocities[i]).entity_id == e
    ||| exists|i: int| 0 <= i < out.visuals.len() && (#[trigger] out.visuals[i]).entity_id == e
}

/// Whether a call on `v` despawns, moves, shows or hits slime `e`.
pub open spec fn op_reaches(v: SlimeFieldView, op: FieldOp, e: u32) -> bool {
    match op {
        FieldOp::Tick(frames) => names_slime(v.tick_output(frames), e),
        FieldOp::Attack(attack, target) => v.attack(attack, target).1 matches Some(h) && h.hit.entity_id == e,
        _ => false,
    }
}

proof fn lemma_despawn_has_a_slime(slimes: Seq<SlimeState>, paused: bool, frames: Seq<SlimeFrame>, n: nat, e: u32)
    requires
        n <= slimes.len(),
        tick_prefix(slimes, paused, frames, n).despawns.contains(e),
    ensures
        exists|k: int| 0 <= k < n && step_slime(slimes[k], paused, frames[k]).1.despawn && #[trigger] slimes[k].entity_id == e,
    decreases n,
{
    let m = (n - 1) as nat;
    let (after, step) = step_slime(slimes[m as int], paused, frames[m as int]);
    let before = tick_prefix(slimes, paused, frames, m);
    let own = step_outputs(slimes[m as int], after, step);
    let d = tick_prefix(slimes, paused, frames, n).despawns;
    assert(d == before.despawns + own.despawns);
    let j = choose|j: int| 0 <= j < d.len() && d[j] == e;
    if j < before.despawns.len() {
        assert(before.despawns[j] == e);
        lemma_despawn_has_a_slime(slimes, paused, frames, m, e);
    } else {
        assert(step.despawn && slimes[m as int].entity_id == e);
    }
}

proof fn lemma_gone_slime_is_not_named(slimes: Seq<SlimeState>, paused: bool, frames: Seq<SlimeFrame>, n: nat, k: int)
    requires
        n <= slimes.len(),
        0 <= k < slimes.len(),
        ids_distinct(slimes),
        gone(slimes[k]),
    ensures
        !names_slime(tick_prefix(slimes, paused, frames, n), slimes[k].entity_id),
    decreases n,
{
    let e = slimes[k].entity_id;
    if n > 0 {
        let m = (n - 1) as nat;
        lemma_gone_slime_is_not_named(slimes, paused, frames, m, k);
        let s = slimes[m as int];
        let (after, step) = step_slime(s, paused, frames[m as int]);
        lemma_step_keeps_identity(s, paused, frames[m as int]);
        let before = tick_prefix(slimes, paused, frames, m);
        let own = step_outputs(s, after, step);
        let out = tick_prefix(slimes, paused, frames, n);
        assert(out == append_tick(before, own));
        if m as int == k {
            assert(step == no_step());
            assert(own.despawns =~= Seq::<u32>::empty());
            assert(out.despawns =~= before.despawns);
            assert(out.velocities =~= before.velocities);
            assert(out.visuals =~= before.visuals);
        } else {
            assert(s.entity_id != e);
        }
        if out.despawns.contains(e) {
            let j = choose|j: int| 0 <= j < out.despawns.len() && out.despawns[j] == e;
            if j < before.despawns.len() {
                assert(before.despawns[j] == e);
            }
        }
        assert forall|i: int| 0 <= i < out.velocities.len() implies (#[trigger] out.velocities[i]).entity_id != e by {
            if i < before.velocities.len() {
                assert(out.velocities[i] == before.velocities[i]);
            }
        }
        assert forall|i: int| 0 <= i < out.visuals.len() implies (#[trigger] out.visuals[i]).entity_id != e by {
            if i < before.visuals.len() {
                assert(out.visuals[i] == before.visuals[i]);
            }
        }
    }
}

/// What stays true of a gone slime `k` with id `e` under every call.
pub open spec fn stays_gone(w: SlimeFieldView, n: nat, k: int, e: u32) -> bool {
    &&& w.slimes.len() == n
    &&& 0 <= k < n
    &&& ids_distinct(w.slimes)
    &&& w.slimes[k].entity_id == e
    &&& gone(w.slimes[k])
}

proof fn lemma_first_slime_has_id(slimes: Seq<SlimeState>, id: u32)
    ensures
        first_slime(slimes, id) matches Some(i) ==> 0 <= i < slimes.len() && slimes[i].entity_id == id,
{
}

/// Zero measurements for `n` slimes, for statements about the other calls.
spec fn still_frames(n: nat) -> Seq<SlimeFrame> {
    Seq::new(
        n,
        |i: int|
            SlimeFrame {
                cooldown_remaining: F32Bits(0),
                reaction_remaining: F32Bits(0),
                distance_squared: F32Bits(0),
                pursuit_vx: F32Bits(0),
                pursuit_vy: F32Bits(0),
            },
    )
}

/// A swing that names no slime, for statements about the other calls.
spec fn any_swing() -> AttackRequested {
    AttackRequested {
        sequence: 0,
        origin_x: F32Bits(0),
        origin_y: F32Bits(0),
        direction: AttackDirection::Up,
        reach: F32Bits(0),
        half_width: F32Bits(0),
    }
}

proof fn lemma_call_keeps_gone(w: SlimeFieldView, op: FieldOp, n: nat, k: int, e: u32)
    requires
        stays_gone(w, n, k, e),
        op is Tick ==> op->Tick_0.len() == n,
    ensures
        stays_gone(w.apply(op), n, k, e),
        !op_reaches(w, op, e),
{
    let after = w.apply(op);
    match op {
        FieldOp::Tick(frames) => {
            lemma_gone_slime_stays_gone(w, k, frames, any_swing(), None, 0, F32Bits(0), F32Bits(0), false);
            lemma_gone_slime_is_not_named(w.slimes, w.paused, frames, n, k);
            assert forall|i: int, j: int|
                0 <= i < n && 0 <= j < n && i != j implies #[trigger] after.slimes[i].entity_id
                    != #[trigger] after.slimes[j].entity_id by {
                lemma_step_keeps_identity(w.slimes[i], w.paused, frames[i]);
                lemma_step_keeps_identity(w.slimes[j], w.paused, frames[j]);
                assert(w.slimes[i].entity_id != w.slimes[j].entity_id);
            }
            lemma_step_keeps_identity(w.slimes[k], w.paused, frames[k]);
        },
        FieldOp::Attack(attack, target) => {
            lemma_gone_slime_stays_gone(w, k, still_frames(n), attack, target, 0, F32Bits(0), F32Bits(0), false);
            match target {
                Some(id) => {
                    lemma_first_slime_has_id(w.slimes, id);
                    if w.attack(attack, target).1 is Some {
                        let i = first_slime(w.slimes, id)->Some_0;
                        assert(i != k);
                        assert(w.slimes[i].entity_id != e);
                    }
                },
                None => {},
            }
            assert forall|i: int, j: int|
                0 <= i < n && 0 <= j < n && i != j implies #[trigger] after.slimes[i].entity_id
                    != #[trigger] after.slimes[j].entity_id by {
                assert(w.slimes[i].entity_id != w.slimes[j].entity_id);
            }
        },
        FieldOp::Transform(id, x, y) => {
            lemma_gone_slime_stays_gone(w, k, still_frames(n), any_swing(), None, id, x, y, false);
            assert forall|i: int, j: int|
                0 <= i < n && 0 <= j < n && i != j implies #[trigger] after.slimes[i].entity_id
                    != #[trigger] after.slimes[j].entity_id by {
                assert(w.slimes[i].entity_id != w.slimes[j].entity_id);
            }
        },
        FieldOp::Pause(paused) => {
            lemma_gone_slime_stays_gone(w, k, still_frames(n), any_swing(), None, 0, F32Bits(0), F32Bits(0), paused);
        },
    }
}

/// Once a frame has despawned slime `e` (its death animation finished),
/// no later call brings it back: in whatever order frames, swings,
/// position updates and pause changes follow, no frame despawns, moves or
/// shows `e` again and no swing hits it. The frame that despawned it must
/// not have measured a NaN death timer; the slimes' ids must be distinct.
pub proof fn lemma_despawned_slime_never_returns(
    v: SlimeFieldView,
    frames: Seq<SlimeFrame>,
    e: u32,
    ops: Seq<FieldOp>,
)
    requires
        v.slimes_wf(),
        ids_distinct(v.slimes),
        frames.len() == v.slimes.len(),
        forall|i: int| 0 <= i < frames.len() ==> !is_nan(#[trigger] frames[i].reaction_remaining),
        v.tick_output(frames).despawns.contains(e),
        forall|j: int| 0 <= j < ops.len() && (#[trigger] ops[j]) is Tick ==> ops[j]->Tick_0.len() == v.slimes.len(),
    ensures
        forall|j: int| 0 <= j < ops.len() ==> !op_reaches(v.ticked(frames).run(ops.take(j)), #[trigger] ops[j], e),
{
    let n = v.slimes.len();
    lemma_despawn_has_a_slime(v.slimes, v.paused, frames, n, e);
    let k = choose|k: int| 0 <= k < n && step_slime(v.slimes[k], v.paused, frames[k]).1.despawn && #[trigger] v.slimes[k].entity_id == e;
    let start = v.ticked(frames);
    assert(slime_wf(v.slimes[k]));
    lemma_despawn_is_final(v.slimes[k], v.paused, frames[k]);
    lemma_step_keeps_identity(v.slimes[k], v.paused, frames[k]);
    assert forall|i: int, j: int|
        0 <= i < n && 0 <= j < n && i != j implies #[trigger] start.slimes[i].entity_id != #[trigger] start.slimes[j].entity_id by {
        lemma_step_keeps_identity(v.slimes[i], v.paused, frames[i]);
        lemma_step_keeps_identity(v.slimes[j], v.paused, frames[j]);
        assert(v.slimes[i].entity_id != v.slimes[j].entity_id);
    }
    assert(stays_gone(start, n, k, e));
    lemma_run_stays_gone(start, ops, n, k, e, ops.len());
    assert forall|j: int| 0 <= j < ops.len() implies !op_reaches(start.run(ops.take(j)), #[trigger] ops[j], e) by {
        lemma_run_stays_gone(start, ops, n, k, e, j as nat);
        lemma_call_keeps_gone(start.run(ops.take(j)), ops[j], n, k, e);
    }
}

proof fn lemma_run_stays_gone(start: SlimeFieldView, ops: Seq<FieldOp>, n: nat, k: int, e: u32, j: nat)
    requires
        stays_gone(start, n, k, e),
        j <= ops.len(),
        forall|i: int| 0 <= i < ops.len() && (#[trigger] ops[i]) is Tick ==> ops[i]->Tick_0.len() == n,
    ensures
        stays_gone(start.run(ops.take(j as int)), n, k, e),
    decreases j,
{
    if j > 0 {
        let m = (j - 1) as nat;
        lemma_run_stays_gone(start, ops, n, k, e, m);
        let t = ops.take(j as int);
        assert(t.drop_last() =~= ops.take(m as int));
        assert(t.last() == ops[m as int]);
        lemma_call_keeps_gone(start.run(ops.take(m as int)), ops[m as int], n, k, e);
    }
}

/// A slime free to act starts a strike's windup exactly when Will is
/// within its attack range of 62 px (squared distance at most 3844, bit
/// pattern `0x4570_4000`) and its cooldown is over. Out of range it never
/// winds up: it asks for its pursuit velocity and walks, or idles when
/// that velocity is zero.
pub proof fn lemma_slimes_wind_up_only_in_range(s: SlimeState, f: SlimeFrame, damage: bool)
    ensures
        (act(s, f, damage).0.animation == SlimeAnimation::Attack) <==> (f.distance_squared.at_most(F32Bits(0x4570_4000))
            && s.attack_cooldown_remaining.at_most(F32Bits(0))),
        !f.distance_squared.at_most(F32Bits(0x4570_4000)) ==> {
            let (after, step) = act(s, f, damage);
            &&& step.velocity == Some((f.pursuit_vx, f.pursuit_vy))
            &&& after.animation == if f.pursuit_vx.zero() && f.pursuit_vy.zero() {
                SlimeAnimation::Idle
            } else {
                SlimeAnimation::Walk
            }
            &&& after.reaction_remaining == s.reaction_remaining
        },
{
}

/// In a running frame, a living slime that is idling or walking (not
/// reacting to anything) and finds Will out of its attack range chases
/// him with its pursuit velocity and shows no windup; nothing strikes.
pub proof fn lemma_out_of_range_slimes_chase(s: SlimeState, f: SlimeFrame)
    requires
        s.animation == SlimeAnimation::Idle || s.animation == SlimeAnimation::Walk,
        !f.distance_squared.at_most(F32Bits(0x4570_4000)),
    ensures
        step_slime(s, false, f).1.velocity == Some((f.pursuit_vx, f.pursuit_vy)),
        step_slime(s, false, f).0.animation != SlimeAnimation::Attack,
        !step_slime(s, false, f).1.damage,
        !step_slime(s, false, f).1.despawn,
{
    lemma_slimes_wind_up_only_in_range(SlimeState { attack_cooldown_remaining: f.cooldown_remaining, ..s }, f, false);
}

proof fn lemma_live_targets_are_living_slimes(slimes: Seq<SlimeState>)
    ensures
        forall|t: AttackTarget| #[trigger] live_targets(slimes).contains(t) ==> exists|j: int|
            0 <= j < slimes.len() && slimes[j].health > 0 && t == #[trigger] slime_target(slimes[j]),
        forall|j: int| 0 <= j < slimes.len() && slimes[j].health > 0 ==> live_targets(slimes).contains(
            #[trigger] slime_target(slimes[j]),
        ),
    decreases slimes.len(),
{
    if slimes.len() > 0 {
        let rest = slimes.drop_last();
        lemma_live_targets_are_living_slimes(rest);
        let all = live_targets(slimes);
        let before = live_targets(rest);
        let last = slimes.last();
        let tail = if last.health > 0 {
            seq![slime_target(last)]
        } else {
            Seq::<AttackTarget>::empty()
        };
        assert(all == before + tail);
        assert forall|t: AttackTarget| #[trigger] all.contains(t) implies exists|j: int|
            0 <= j < slimes.len() && slimes[j].health > 0 && t == #[trigger] slime_target(slimes[j]) by {
            let k = choose|k: int| 0 <= k < all.len() && all[k] == t;
            if k < before.len() {
                assert(before[k] == t);
                assert(before.contains(t));
                let j = choose|j: int| 0 <= j < rest.len() && rest[j].health > 0 && t == #[trigger] slime_target(rest[j]);
                assert(rest[j] == slimes[j]);
            } else {
                assert(t == slime_target(slimes[slimes.len() - 1]));
            }
        }
        assert forall|j: int| 0 <= j < slimes.len() && slimes[j].health > 0 implies all.contains(
            #[trigger] slime_target(slimes[j]),
        ) by {
            if j < rest.len() {
                assert(rest[j] == slimes[j]);
                assert(before.contains(slime_target(rest[j])));
                let k = choose|k: int| 0 <= k < before.len() && before[k] == slime_target(rest[j]);
                assert(all[k] == slime_target(slimes[j]));
            } else {
                assert(all[before.len() as int] == slime_target(slimes[j]));
            }
        }
    }
}

/// Every target a swing is offered is a slime with hit points left, and
/// every such slime is offered. So, ids being distinct, a fresh swing at
/// any offered target hits that very slime.
pub proof fn lemma_swings_reach_only_living_slimes(v: SlimeFieldView, attack: AttackRequested, t: AttackTarget)
    ensures
        forall|u: AttackTarget| #[trigger] v.targets().contains(u) ==> exists|j: int|
            0 <= j < v.slimes.len() && v.slimes[j].health > 0 && u == #[trigger] slime_target(v.slimes[j]),
        forall|j: int| 0 <= j < v.slimes.len() && v.slimes[j].health > 0 ==> v.targets().contains(
            #[trigger] slime_target(v.slimes[j]),
        ),
        ids_distinct(v.slimes) && v.targets().contains(t) && v.last_attack_sequence != Some(attack.sequence) ==> (v.attack(
            attack,
            Some(t.entity_id),
        ).1 matches Some(h) && h.hit.entity_id == t.entity_id),
{
    lemma_live_targets_are_living_slimes(v.slimes);
    if ids_distinct(v.slimes) && v.targets().contains(t) && v.last_attack_sequence != Some(attack.sequence) {
        let j = choose|j: int| 0 <= j < v.slimes.len() && v.slimes[j].health > 0 && t == #[trigger] slime_target(v.slimes[j]);
        assert(first_with_id(v.slimes, j, t.entity_id)) by {
            assert forall|i: int| 0 <= i < j implies v.slimes[i].entity_id != t.entity_id by {
                assert(v.slimes[i].entity_id != v.slimes[j].entity_id);
            }
        }
        let c = choose|c: int| first_with_id(v.slimes, c, t.entity_id);
        assert(c == j) by {
            if c != j {
                assert(v.slimes[c].entity_id != v.slimes[j].entity_id);
            }
        }
        assert(first_slime(v.slimes, t.entity_id) == Some(j));
    }
}

} // verus!
