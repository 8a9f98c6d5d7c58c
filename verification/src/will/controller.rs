//! The character's reactions to input, game messages and frames.
use vstd::prelude::*;

use crate::float_bits::F32Bits;
use crate::messages::{
    lemma_topics_distinct, AttackDirection, AttackRequested, HitConfirmed, PauseChanged, PlayerDamaged, PlayerStats,
    RewardGranted, SessionReset, WILL_ENTITY_ID,
};
use crate::presentation::SpritePresentation;
use crate::text::str_eq;
use crate::will::combat_state::{CombatState, CombatView, DamageOutcome};
use crate::will::held_keys::{held, HeldKeys, MOVE_SPEED};
use crate::will::player_state::{Facing, PlayerState, PlayerView};

verus! {

/// Bit pattern of `160.0`, the walking speed.
pub const SPEED_BITS: u32 = 0x4320_0000;

/// Bit pattern of `-160.0`.
pub const NEGATIVE_SPEED_BITS: u32 = 0xc320_0000;

/// Something the character asks the engine or the other extensions to do.
#[derive(Debug, Clone, Copy, PartialEq)]
pub enum WillAction {
    /// Show this sprite sheet for the character.
    ShowPresentation(SpritePresentation),
    /// Announce a swing.
    Attack(AttackRequested),
    /// Announce the character's stats.
    Stats(PlayerStats),
    /// Announce that the last life is gone.
    Defeated,
    /// Start the knockback and flash of a hit taken at `position`: away from
    /// `source` when it is known, else away from the way Will faces.
    StartDamageReaction { position: (F32Bits, F32Bits), source: Option<(F32Bits, F32Bits)>, facing: AttackDirection },
    /// Drop any running hit reaction.
    CancelDamageReaction,
}

/// The timed effects of one frame, measured in single precision by the
/// caller: whether a hit reaction runs and its knockback velocity for the
/// frame, whether it finished in this frame, and the swing and
/// invulnerability timers less the frame's time (never below zero).
#[derive(Debug, Clone, Copy, PartialEq)]
pub struct WillFrame {
    pub reacting: bool,
    pub knockback: (F32Bits, F32Bits),
    pub recovered: bool,
    pub attack_remaining: F32Bits,
    pub invulnerability_remaining: F32Bits,
}

/// What a frame asks for: the velocity to set, unless paused, and a new
/// sprite sheet when the look changed.
#[derive(Debug, Clone, Copy, PartialEq)]
pub struct WillTick {
    pub velocity: Option<(F32Bits, F32Bits)>,
    pub presentation: Option<SpritePresentation>,
}

/// What a [`WillController`] holds.
pub struct WillView {
    pub held: HeldKeys,
    pub player: PlayerView,
    pub combat: CombatView,
    pub paused: bool,
}

/// The character: held keys, animation state, combat state and pause. A
/// confirmed hit is shown by the target's own hurt animation, so the
/// character keeps no marker of it.
#[derive(Debug, Clone, Copy, PartialEq)]
pub struct WillController {
    held: HeldKeys,
    player: PlayerState,
    combat: CombatState,
    paused: bool,
}

impl View for WillController {
    type V = WillView;

    closed spec fn view(&self) -> WillView {
        WillView { held: self.held, player: self.player@, combat: self.combat@, paused: self.paused }
    }
}

pub open spec fn no_keys() -> HeldKeys {
    HeldKeys { up: false, down: false, left: false, right: false }
}

/// Whether `sender` is one of the two levels.
pub open spec fn is_active_level(sender: Seq<char>) -> bool {
    sender == "level_one"@ || sender == "level_two"@
}

/// The walking speed `v` (`-160`, `0` or `160`) in single precision.
pub open spec fn speed_bits(v: int) -> F32Bits {
    if v > 0 {
        F32Bits(SPEED_BITS)
    } else if v < 0 {
        F32Bits(NEGATIVE_SPEED_BITS)
    } else {
        F32Bits(0)
    }
}

impl WillView {
    /// A fresh session: nothing held, idle facing down, full lives,
    /// running.
    pub open spec fn initial() -> WillView {
        WillView {
            held: no_keys(),
            player: PlayerView::initial(),
            combat: CombatView::initial(),
            paused: false,
        }
    }

    /// A key press. Ignored while paused or reeling; Space starts a swing on
    /// its press edge, shown and announced from the latest position; a
    /// movement key is held.
    pub open spec fn key_down(self, key: Seq<char>, reacting: bool) -> (WillView, Seq<WillAction>) {
        if self.paused || reacting {
            (self, Seq::empty())
        } else if key == "Space"@ {
            let (player, started) = self.player.press_attack();
            if started {
                let (combat, request) = self.combat.attack(player.attack_direction());
                (
                    WillView { player, combat, ..self },
                    seq![WillAction::ShowPresentation(player.presentation()), WillAction::Attack(request)],
                )
            } else {
                (WillView { player, ..self }, Seq::empty())
            }
        } else {
            (WillView { held: self.held.spec_set(key, true), ..self }, Seq::empty())
        }
    }

    /// A key release. Ignored while paused or reeling; Space re-arms the
    /// swing; a movement key is let go.
    pub open spec fn key_up(self, key: Seq<char>, reacting: bool) -> WillView {
        if self.paused || reacting {
            self
        } else if key == "Space"@ {
            WillView { player: PlayerView { attack_button_down: false, ..self.player }, ..self }
        } else {
            WillView { held: self.held.spec_set(key, false), ..self }
        }
    }

    /// Pausing lets go of every key.
    pub open spec fn set_paused(self, paused: bool) -> WillView {
        WillView {
            paused,
            held: if paused {
                no_keys()
            } else {
                self.held
            },
            ..self
        }
    }

    /// A new authoritative position, when it is the character's and comes
    /// from the physics.
    pub open spec fn transform(self, sender: Seq<char>, entity_id: u32, x: F32Bits, y: F32Bits) -> WillView {
        if sender == "game-core"@ && entity_id == WILL_ENTITY_ID {
            WillView { combat: self.combat.update_position(x, y), ..self }
        } else {
            self
        }
    }

    /// A hit taken: unless ignored it lets go of every key, starts the
    /// reaction from the latest position, freezes the look and announces the
    /// stats, and the last life announces defeat.
    pub open spec fn damaged(self, message: PlayerDamaged) -> (WillView, Seq<WillAction>) {
        let (combat, outcome) = self.combat.damage(message.amount);
        if outcome == DamageOutcome::Ignored {
            (self, Seq::empty())
        } else {
            let facing = self.player.attack_direction();
            let player = self.player.start_damage().0;
            (
                WillView { held: no_keys(), player, combat, ..self },
                seq![
                    WillAction::StartDamageReaction {
                        position: (combat.position_x, combat.position_y),
                        source: message.spec_source(),
                        facing,
                    },
                    WillAction::ShowPresentation(player.presentation()),
                    WillAction::Stats(combat.stats()),
                ] + if outcome == DamageOutcome::Defeated {
                    seq![WillAction::Defeated]
                } else {
                    Seq::empty()
                },
            )
        }
    }

    /// A game message from `sender`: pause changes, a session reset (which
    /// restores a fresh session), and, from a level, damage, rewards and
    /// confirmed hits. Anything else, or a payload that does not decode,
    /// changes nothing.
    pub open spec fn on_message(self, topic: Seq<char>, sender: Seq<char>, payload: Seq<u8>) -> (WillView, Seq<WillAction>) {
        if topic == PauseChanged::TOPIC@ {
            match PauseChanged::spec_decode(payload) {
                Ok(m) => (self.set_paused(m.paused), Seq::empty()),
                Err(_) => (self, Seq::empty()),
            }
        } else if topic == SessionReset::TOPIC@ {
            match SessionReset::spec_decode(payload) {
                Ok(_) => (
                    WillView::initial(),
                    seq![WillAction::CancelDamageReaction, WillAction::Stats(CombatView::initial().stats())],
                ),
                Err(_) => (self, Seq::empty()),
            }
        } else if topic == PlayerDamaged::TOPIC@ && is_active_level(sender) {
            match PlayerDamaged::spec_decode(payload) {
                Ok(m) => self.damaged(m),
                Err(_) => (self, Seq::empty()),
            }
        } else if topic == RewardGranted::TOPIC@ && is_active_level(sender) {
            match RewardGranted::spec_decode(payload) {
                Ok(m) => {
                    let combat = self.combat.grant(m);
                    (WillView { combat, ..self }, seq![WillAction::Stats(combat.stats())])
                },
                Err(_) => (self, Seq::empty()),
            }
        } else {
            (self, Seq::empty())
        }
    }

    /// The velocity the held keys ask for, in single precision.
    pub open spec fn walk_velocity(self) -> (F32Bits, F32Bits) {
        (
            speed_bits(held(self.held.right) - held(self.held.left)),
            speed_bits(held(self.held.down) - held(self.held.up)),
        )
    }

    /// A frame. Paused, nothing moves and no timer runs. Otherwise a hit
    /// reaction sets the knockback and, once it finishes, Will recovers;
    /// without one Will walks as the keys say and the look follows; and the
    /// invulnerability timer runs.
    pub open spec fn tick(self, frame: WillFrame) -> (WillView, WillTick) {
        if self.paused {
            (self, WillTick { velocity: None, presentation: None })
        } else {
            let (velocity, player, changed) = if frame.reacting {
                if frame.recovered {
                    let (p, c) = self.player.recover_from_damage();
                    (frame.knockback, p, c)
                } else {
                    (frame.knockback, self.player, false)
                }
            } else {
                let v = self.walk_velocity();
                let (p, c) = self.player.tick(frame.attack_remaining, v.0, v.1);
                (v, p, c)
            };
            (
                WillView {
                    player,
                    combat: CombatView { invulnerability_remaining: frame.invulnerability_remaining, ..self.combat },
                    ..self
                },
                WillTick {
                    velocity: Some(velocity),
                    presentation: if changed {
                        Some(player.presentation())
                    } else {
                        None
                    },
                },
            )
        }
    }
}

fn speed_of(v: i32) -> (r: F32Bits)
    requires
        v == -MOVE_SPEED || v == 0 || v == MOVE_SPEED,
    ensures
        r == speed_bits(v as int),
{
    if v > 0 {
        F32Bits(SPEED_BITS)
    } else if v < 0 {
        F32Bits(NEGATIVE_SPEED_BITS)
    } else {
        F32Bits(0)
    }
}

fn is_level_sender(sender: &str) -> (r: bool)
    ensures
        r == is_active_level(sender@),
{
    str_eq(sender, "level_one") || str_eq(sender, "level_two")
}

impl Default for WillController {
    fn default() -> (r: WillController)
        ensures
            r@ == WillView::initial(),
    {
        WillController {
            held: HeldKeys::default(),
            player: PlayerState::default(),
            combat: CombatState::default(),
            paused: false,
        }
    }
}

impl WillController {
    pub fn paused(&self) -> (r: bool)
        ensures
            r == self@.paused,
    {
        self.paused
    }

    pub fn held_keys(&self) -> (r: HeldKeys)
        ensures
            r == self@.held,
    {
        self.held
    }

    pub fn player(&self) -> (r: PlayerState)
        ensures
            r@ == self@.player,
    {
        self.player
    }

    pub fn combat(&self) -> (r: CombatState)
        ensures
            r@ == self@.combat,
    {
        self.combat
    }

    pub fn stats(&self) -> (r: PlayerStats)
        ensures
            r == self@.combat.stats(),
    {
        self.combat.stats()
    }

    /// The character's sprite sheet now.
    pub fn presentation(&self) -> (r: SpritePresentation)
        ensures
            r == self@.player.presentation(),
    {
        self.player.presentation()
    }

    /// Returns to a fresh session.
    pub fn reset(&mut self)
        ensures
            final(self)@ == WillView::initial(),
    {
        *self = WillController::default();
    }

    pub fn set_paused(&mut self, paused: bool)
        ensures
            final(self)@ == old(self)@.set_paused(paused),
    {
        self.paused = paused;
        if paused {
            self.held = HeldKeys::default();
        }
    }

    /// A key went down; `reacting` says whether a hit reaction runs.
    pub fn key_down(&mut self, key: &str, reacting: bool) -> (r: Vec<WillAction>)
        ensures
            (final(self)@, r@) == old(self)@.key_down(key@, reacting),
    {
        let mut actions: Vec<WillAction> = Vec::new();
        if self.paused || reacting {
            return actions;
        }
        if str_eq(key, "Space") {
            if self.player.press_attack() {
                actions.push(WillAction::ShowPresentation(self.player.presentation()));
                let direction = self.player.attack_direction();
                let request = self.combat.attack(direction);
                actions.push(WillAction::Attack(request));
            }
        } else {
            self.held.set(key, true);
        }
        actions
    }

    /// A key went up; `reacting` says whether a hit reaction runs.
    pub fn key_up(&mut self, key: &str, reacting: bool)
        ensures
            final(self)@ == old(self)@.key_up(key@, reacting),
    {
        if self.paused || reacting {
            return;
        }
        if str_eq(key, "Space") {
            self.player.release_attack();
        } else {
            self.held.set(key, false);
        }
    }

    /// An entity moved, as `sender` reports.
    pub fn transform(&mut self, sender: &str, entity_id: u32, x: F32Bits, y: F32Bits)
        ensures
            final(self)@ == old(self)@.transform(sender@, entity_id, x, y),
    {
        if str_eq(sender, "game-core") && entity_id == WILL_ENTITY_ID {
            self.combat.update_position(x, y);
        }
    }

    fn damaged(&mut self, message: PlayerDamaged) -> (r: Vec<WillAction>)
        ensures
            (final(self)@, r@) == old(self)@.damaged(message),
    {
        let mut actions: Vec<WillAction> = Vec::new();
        let outcome = self.combat.damage(message.amount);
        if outcome == DamageOutcome::Ignored {
            return actions;
        }
        self.held = HeldKeys::default();
        let facing = self.player.attack_direction();
        self.player.start_damage();
        actions.push(
            WillAction::StartDamageReaction { position: self.combat.position(), source: message.source(), facing },
        );
        actions.push(WillAction::ShowPresentation(self.player.presentation()));
        actions.push(WillAction::Stats(self.combat.stats()));
        if outcome == DamageOutcome::Defeated {
            actions.push(WillAction::Defeated);
        }
        proof {
            let combat = old(self)@.combat.damage(message.amount).0;
            let player = old(self)@.player.start_damage().0;
            let base = seq![
                WillAction::StartDamageReaction {
                    position: (combat.position_x, combat.position_y),
                    source: message.spec_source(),
                    facing,
                },
                WillAction::ShowPresentation(player.presentation()),
                WillAction::Stats(combat.stats()),
            ];
            if outcome == DamageOutcome::Defeated {
                assert(actions@ =~= base + seq![WillAction::Defeated]);
            } else {
                assert(actions@ =~= base + Seq::<WillAction>::empty());
            }
        }
        actions
    }

    /// A game message on `topic` from `sender`.
    pub fn on_message(&mut self, topic: &str, sender: &str, payload: &[u8]) -> (r: Vec<WillAction>)
        ensures
            (final(self)@, r@) == old(self)@.on_message(topic@, sender@, payload@),
    {
        let mut actions: Vec<WillAction> = Vec::new();
        if str_eq(topic, PauseChanged::TOPIC) {
            if let Ok(m) = PauseChanged::decode(payload) {
                self.set_paused(m.paused);
            }
        } else if str_eq(topic, SessionReset::TOPIC) {
            if SessionReset::decode(payload).is_ok() {
                self.reset();
                actions.push(WillAction::CancelDamageReaction);
                actions.push(WillAction::Stats(self.combat.stats()));
            }
        } else if str_eq(topic, PlayerDamaged::TOPIC) && is_level_sender(sender) {
            if let Ok(m) = PlayerDamaged::decode(payload) {
                actions = self.damaged(m);
            }
        } else if str_eq(topic, RewardGranted::TOPIC) && is_level_sender(sender) {
            if let Ok(m) = RewardGranted::decode(payload) {
                self.combat.grant(m);
                actions.push(WillAction::Stats(self.combat.stats()));
            }
        }
        actions
    }

    /// The velocity the held keys ask for, in single precision.
    pub fn walk_velocity(&self) -> (r: (F32Bits, F32Bits))
        ensures
            r == self@.walk_velocity(),
    {
        let (x, y) = self.held.velocity();
        (speed_of(x), speed_of(y))
    }

    /// Advances a frame whose timed effects were measured in `frame`.
    pub fn tick(&mut self, frame: WillFrame) -> (r: WillTick)
        ensures
            (final(self)@, r) == old(self)@.tick(frame),
    {
        if self.paused {
            return WillTick { velocity: None, presentation: None };
        }
        let velocity;
        let changed;
        if frame.reacting {
            velocity = frame.knockback;
            changed = frame.recovered && self.player.recover_from_damage();
        } else {
            velocity = self.walk_velocity();
            changed = self.player.tick(frame.attack_remaining, velocity.0, velocity.1);
        }
        self.combat.set_invulnerability_remaining(frame.invulnerability_remaining);
        WillTick {
            velocity: Some(velocity),
            presentation: if changed {
                Some(self.player.presentation())
            } else {
                None
            },
        }
    }
}

/// While paused, or while a hit reaction runs, keys change nothing; a
/// paused frame moves nothing and runs no timer.
pub proof fn lemma_input_ignored_while_paused_or_reeling(v: WillView, key: Seq<char>, reacting: bool, frame: WillFrame)
    requires
        v.paused || reacting,
    ensures
        v.key_down(key, reacting) == (v, Seq::<WillAction>::empty()),
        v.key_up(key, reacting) == v,
        v.paused ==> v.tick(frame) == (v, WillTick { velocity: None, presentation: None }),
{
}

/// Pausing stops all walking: after it no key is held, and resuming asks
/// for no velocity until a key goes down again.
pub proof fn lemma_pause_stops_walking(v: WillView)
    ensures
        v.set_paused(true).held == no_keys(),
        v.set_paused(true).set_paused(false).walk_velocity() == (F32Bits(0), F32Bits(0)),
{
}

/// A session reset restores a fresh, running session, whatever came
/// before, and announces its stats.
pub proof fn lemma_reset_restores_defaults(v: WillView, sender: Seq<char>)
    ensures
        v.on_message(SessionReset::TOPIC@, sender, Seq::empty()) == (
            WillView::initial(),
            seq![WillAction::CancelDamageReaction, WillAction::Stats(CombatView::initial().stats())],
        ),
{
    lemma_topics_distinct();
}

/// Only the levels can hurt or reward the character.
pub proof fn lemma_only_levels_affect_combat(v: WillView, topic: Seq<char>, sender: Seq<char>, payload: Seq<u8>)
    requires
        !is_active_level(sender),
        topic != PauseChanged::TOPIC@,
        topic != SessionReset::TOPIC@,
    ensures
        v.on_message(topic, sender, payload) == (v, Seq::<WillAction>::empty()),
{
}

/// A confirmed hit, from anyone, leaves the character as it was and asks
/// for nothing: the target's hurt animation shows it.
pub proof fn lemma_confirmed_hits_leave_no_marker(v: WillView, sender: Seq<char>, payload: Seq<u8>)
    ensures
        v.on_message(HitConfirmed::TOPIC@, sender, payload) == (v, Seq::<WillAction>::empty()),
{
    lemma_topics_distinct();
}

/// Each swing is numbered with the next sequence and comes from the latest
/// valid position; the numbering then moves on by one, wrapping.
pub proof fn lemma_swings_are_numbered_in_order(v: WillView, reacting: bool)
    ensures
        ({
            let (after, actions) = v.key_down("Space"@, reacting);
            &&& actions.len() == 0 ==> after.combat == v.combat
            &&& actions.len() != 0 ==> actions.len() == 2 && (actions[1] matches WillAction::Attack(r) && r.sequence
                == v.combat.next_attack_sequence && r.origin_x == v.combat.position_x && r.origin_y
                == v.combat.position_y && after.combat.next_attack_sequence == (if v.combat.next_attack_sequence
                == u32::MAX {
                0
            } else {
                v.combat.next_attack_sequence + 1
            }))
        }),
{
}

/// Either level rewards the character: a well-formed reward from
/// `level_one` or `level_two` adds its experience and coins to a session
/// that is not lost (capped at the largest count), leaves the rest as it
/// was, and announces the new lives, experience, level (one more for every
/// three experience) and coins. A lost session keeps its counts and still
/// announces them.
pub proof fn lemma_either_level_rewards(v: WillView, sender: Seq<char>, payload: Seq<u8>)
    requires
        sender == "level_one"@ || sender == "level_two"@,
        RewardGranted::spec_decode(payload) is Ok,
    ensures
        ({
            let m = RewardGranted::spec_decode(payload)->Ok_0;
            let (after, actions) = v.on_message(RewardGranted::TOPIC@, sender, payload);
            let experience = if v.combat.defeated {
                v.combat.experience as int
            } else {
                if v.combat.experience + m.experience > u32::MAX { u32::MAX as int } else { v.combat.experience + m.experience }
            };
            let coins = if v.combat.defeated {
                v.combat.coins as int
            } else {
                if v.combat.coins + m.coins > u32::MAX { u32::MAX as int } else { v.combat.coins + m.coins }
            };
            &&& after.combat.experience == experience
            &&& after.combat.coins == coins
            &&& after.combat.lives == v.combat.lives
            &&& after.combat.defeated == v.combat.defeated
            &&& after.player == v.player
            &&& after.held == v.held
            &&& after.paused == v.paused
            &&& actions == seq![
                WillAction::Stats(
                    PlayerStats {
                        lives: v.combat.lives,
                        experience: experience as u32,
                        level: (1 + experience / 3) as u32,
                        coins: coins as u32,
                    },
                ),
            ]
        }),
{
    lemma_topics_distinct();
}

/// Either level can hurt the character: a well-formed hit from `level_one`
/// or `level_two` is taken as the character's damage rule says.
pub proof fn lemma_either_level_hurts(v: WillView, sender: Seq<char>, payload: Seq<u8>)
    requires
        sender == "level_one"@ || sender == "level_two"@,
        PlayerDamaged::spec_decode(payload) is Ok,
    ensures
        v.on_message(PlayerDamaged::TOPIC@, sender, payload) == v.damaged(PlayerDamaged::spec_decode(payload)->Ok_0),
{
    lemma_topics_distinct();
}

/// A Space press that starts a swing announces it in the direction Will
/// faces: up or down when facing straight up or down, left for any facing
/// with a leftward part, right for any with a rightward part.
pub proof fn lemma_swing_request_faces_forward(v: WillView, reacting: bool)
    ensures
        ({
            let (after, actions) = v.key_down("Space"@, reacting);
            actions.len() == 2 ==> (actions[1] matches WillAction::Attack(r) && {
                let f = v.player.facing;
                &&& f == Facing::Up ==> r.direction == AttackDirection::Up
                &&& f == Facing::Down ==> r.direction == AttackDirection::Down
                &&& (f == Facing::Left || f == Facing::UpLeft || f == Facing::DownLeft) ==> r.direction == AttackDirection::Left
                &&& (f == Facing::Right || f == Facing::UpRight || f == Facing::DownRight) ==> r.direction
                    == AttackDirection::Right
            })
        }),
{
}

} // verus!
