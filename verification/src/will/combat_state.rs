use vstd::prelude::*;

use crate::float_bits::F32Bits;
use crate::messages::{AttackDirection, AttackRequested, PlayerStats, RewardGranted, WILL_SPAWN_COORD_BITS};

verus! {

pub const STARTING_LIVES: u8 = 3;
pub const EXPERIENCE_PER_LEVEL: u32 = 3;

/// Bit pattern of `0.8`, the seconds of invulnerability after a hit.
pub const DAMAGE_INVULNERABILITY_BITS: u32 = 0x3f4c_cccd;

/// Bit pattern of `56.0`, how far a swing reaches.
pub const ATTACK_REACH_BITS: u32 = 0x4260_0000;

/// Bit pattern of `24.0`, half the width of a swing's lane.
pub const ATTACK_HALF_WIDTH_BITS: u32 = 0x41c0_0000;

/// What a damage message did.
#[derive(Debug, Clone, Copy, PartialEq, Eq, Structural)]
pub enum DamageOutcome {
    Ignored,
    Applied,
    Defeated,
}

/// Will's session-scoped combat state.
#[derive(Debug, Clone, Copy, PartialEq, Eq, Structural)]
pub struct CombatState {
    position_x: F32Bits,
    position_y: F32Bits,
    lives: u8,
    experience: u32,
    coins: u32,
    invulnerability_remaining: F32Bits,
    next_attack_sequence: u32,
    defeated: bool,
}

/// What a [`CombatState`] holds.
#[derive(Debug, Clone, Copy, PartialEq, Eq, Structural)]
pub struct CombatView {
    pub position_x: F32Bits,
    pub position_y: F32Bits,
    pub lives: u8,
    pub experience: u32,
    pub coins: u32,
    pub invulnerability_remaining: F32Bits,
    pub next_attack_sequence: u32,
    pub defeated: bool,
}

impl View for CombatState {
    type V = CombatView;

    closed spec fn view(&self) -> CombatView {
        CombatView {
            position_x: self.position_x,
            position_y: self.position_y,
            lives: self.lives,
            experience: self.experience,
            coins: self.coins,
            invulnerability_remaining: self.invulnerability_remaining,
            next_attack_sequence: self.next_attack_sequence,
            defeated: self.defeated,
        }
    }
}

/// `a + b`, or `u32::MAX` when that overflows.
pub open spec fn sat_add(a: u32, b: u32) -> u32 {
    if a + b > u32::MAX {
        u32::MAX
    } else {
        (a + b) as u32
    }
}

impl CombatView {
    /// A fresh session: at the spawn point, three lives, no progress.
    pub open spec fn initial() -> CombatView {
        CombatView {
            position_x: F32Bits(WILL_SPAWN_COORD_BITS),
            position_y: F32Bits(WILL_SPAWN_COORD_BITS),
            lives: STARTING_LIVES,
            experience: 0,
            coins: 0,
            invulnerability_remaining: F32Bits(0),
            next_attack_sequence: 1,
            defeated: false,
        }
    }

    pub open spec fn update_position(self, x: F32Bits, y: F32Bits) -> CombatView {
        if x.finite() && y.finite() {
            CombatView { position_x: x, position_y: y, ..self }
        } else {
            self
        }
    }

    /// A damage of `amount`: ignored when empty, after defeat, or while
    /// invulnerable; otherwise lives drop (to no less than zero), and either
    /// Will is defeated or becomes invulnerable for a while.
    pub open spec fn damage(self, amount: u8) -> (CombatView, DamageOutcome) {
        if amount == 0 || self.defeated || self.invulnerability_remaining.positive() {
            (self, DamageOutcome::Ignored)
        } else {
            let lives = if self.lives >= amount {
                (self.lives - amount) as u8
            } else {
                0u8
            };
            if lives == 0 {
                (CombatView { lives, defeated: true, ..self }, DamageOutcome::Defeated)
            } else {
                (
                    CombatView {
                        lives,
                        invulnerability_remaining: F32Bits(DAMAGE_INVULNERABILITY_BITS),
                        ..self
                    },
                    DamageOutcome::Applied,
                )
            }
        }
    }

    /// A swing in `direction` from the latest valid position, numbered with
    /// the next sequence, which then moves on (wrapping).
    pub open spec fn attack(self, direction: AttackDirection) -> (CombatView, AttackRequested) {
        (
            CombatView {
                next_attack_sequence: if self.next_attack_sequence == u32::MAX {
                    0
                } else {
                    (self.next_attack_sequence + 1) as u32
                },
                ..self
            },
            AttackRequested {
                sequence: self.next_attack_sequence,
                origin_x: self.position_x,
                origin_y: self.position_y,
                direction,
                reach: F32Bits(ATTACK_REACH_BITS),
                half_width: F32Bits(ATTACK_HALF_WIDTH_BITS),
            },
        )
    }

    /// A reward adds to experience and coins, saturating, unless Will was defeated.
    pub open spec fn grant(self, reward: RewardGranted) -> CombatView {
        if self.defeated {
            self
        } else {
            CombatView {
                experience: sat_add(self.experience, reward.experience),
                coins: sat_add(self.coins, reward.coins),
                ..self
            }
        }
    }

    /// Displayed stats: the level grows by one every three experience.
    pub open spec fn stats(self) -> PlayerStats {
        PlayerStats {
            lives: self.lives,
            experience: self.experience,
            level: (1 + self.experience / EXPERIENCE_PER_LEVEL) as u32,
            coins: self.coins,
        }
    }
}

impl Default for CombatState {
    fn default() -> (r: CombatState)
        ensures
            r@ == CombatView::initial(),
    {
        CombatState {
            position_x: F32Bits(WILL_SPAWN_COORD_BITS),
            position_y: F32Bits(WILL_SPAWN_COORD_BITS),
            lives: STARTING_LIVES,
            experience: 0,
            coins: 0,
            invulnerability_remaining: F32Bits(0),
            next_attack_sequence: 1,
            defeated: false,
        }
    }
}

impl CombatState {
    /// Seconds of invulnerability left.
    pub fn invulnerability_remaining(&self) -> (r: F32Bits)
        ensures
            r == self@.invulnerability_remaining,
    {
        self.invulnerability_remaining
    }

    /// Stores the invulnerability time left after a frame has passed.
    pub fn set_invulnerability_remaining(&mut self, remaining: F32Bits)
        ensures
            final(self)@ == (CombatView { invulnerability_remaining: remaining, ..old(self)@ }),
    {
        self.invulnerability_remaining = remaining;
    }

    /// Takes a new authoritative position when both coordinates are finite.
    pub fn update_position(&mut self, x: F32Bits, y: F32Bits)
        ensures
            final(self)@ == old(self)@.update_position(x, y),
    {
        if x.is_finite() && y.is_finite() {
            self.position_x = x;
            self.position_y = y;
        }
    }

    /// The latest valid position.
    pub fn position(&self) -> (r: (F32Bits, F32Bits))
        ensures
            r == (self@.position_x, self@.position_y),
    {
        (self.position_x, self.position_y)
    }

    /// A swing in `direction` from the latest valid position, with the next
    /// sequence number.
    pub fn attack(&mut self, direction: AttackDirection) -> (r: AttackRequested)
        ensures
            (final(self)@, r) == old(self)@.attack(direction),
    {
        let request = AttackRequested {
            sequence: self.next_attack_sequence,
            origin_x: self.position_x,
            origin_y: self.position_y,
            direction,
            reach: F32Bits(ATTACK_REACH_BITS),
            half_width: F32Bits(ATTACK_HALF_WIDTH_BITS),
        };
        self.next_attack_sequence = if self.next_attack_sequence == u32::MAX {
            0
        } else {
            self.next_attack_sequence + 1
        };
        request
    }

    pub fn damage(&mut self, amount: u8) -> (r: DamageOutcome)
        ensures
            (final(self)@, r) == old(self)@.damage(amount),
    {
        if amount == 0 || self.defeated || self.invulnerability_remaining.is_positive() {
            return DamageOutcome::Ignored;
        }
        self.lives = if self.lives >= amount {
            self.lives - amount
        } else {
            0
        };
        if self.lives == 0 {
            self.defeated = true;
            DamageOutcome::Defeated
        } else {
            self.invulnerability_remaining = F32Bits(DAMAGE_INVULNERABILITY_BITS);
            DamageOutcome::Applied
        }
    }

    pub fn grant(&mut self, reward: RewardGranted)
        ensures
            final(self)@ == old(self)@.grant(reward),
    {
        if self.defeated {
            return;
        }
        self.experience = self.experience.saturating_add(reward.experience);
        self.coins = self.coins.saturating_add(reward.coins);
    }

    pub fn stats(&self) -> (r: PlayerStats)
        ensures
            r == self@.stats(),
    {
        PlayerStats {
            lives: self.lives,
            experience: self.experience,
            level: 1 + self.experience / EXPERIENCE_PER_LEVEL,
            coins: self.coins,
        }
    }
}

/// Defeat is final: no later damage or reward changes anything.
pub proof fn lemma_defeat_is_final(v: CombatView, amount: u8, reward: RewardGranted)
    requires
        v.defeated,
    ensures
        v.damage(amount) == (v, DamageOutcome::Ignored),
        v.grant(reward) == v,
{
}

/// Damage never adds lives, and a hit that is not ignored takes at least one.
pub proof fn lemma_damage_only_takes_lives(v: CombatView, amount: u8)
    ensures
        v.damage(amount).0.lives <= v.lives,
        v.damage(amount).1 != DamageOutcome::Ignored ==> v.damage(amount).0.lives < v.lives || v.lives == 0,
        v.damage(amount).1 == DamageOutcome::Defeated <==> (!v.defeated && amount != 0
            && !v.invulnerability_remaining.positive() && v.lives <= amount),
{
}

/// A hit that is applied protects Will from the next one until the
/// protection runs out.
pub proof fn lemma_invulnerable_after_hit(v: CombatView, a: u8, b: u8)
    requires
        v.damage(a).1 == DamageOutcome::Applied,
    ensures
        v.damage(a).0.damage(b) == (v.damage(a).0, DamageOutcome::Ignored),
{
}

/// Progress only grows, and the level is one more than the completed
/// thresholds of three experience.
pub proof fn lemma_rewards_accumulate(v: CombatView, reward: RewardGranted)
    ensures
        v.grant(reward).experience >= v.experience,
        v.grant(reward).coins >= v.coins,
        v.grant(reward).lives == v.lives,
        v.stats().level as int == 1 + v.experience / 3,
{
}

} // verus!
