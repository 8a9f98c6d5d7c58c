//! Game-owned message contracts and entity constants shared by extensions.
use vstd::prelude::*;

use crate::float_bits::F32Bits;
use crate::wire::{finish, le_u32, lemma_le_u32, lemma_u32_after, lemma_u32_at, push_u32, read_u32, read_u8, u32_at, DecodeError};

verus! {

/// Stable entity id used by the Will extension.
pub const WILL_ENTITY_ID: u32 = 1;

/// Bit pattern of `464.0`, both coordinates of Will's spawn point.
pub const WILL_SPAWN_COORD_BITS: u32 = 0x43e8_0000;

/// Initial world-space position used when Will spawns: `(464.0, 464.0)`.
pub fn will_spawn() -> (r: (F32Bits, F32Bits))
    ensures
        r == (F32Bits(WILL_SPAWN_COORD_BITS), F32Bits(WILL_SPAWN_COORD_BITS)),
{
    (F32Bits(WILL_SPAWN_COORD_BITS), F32Bits(WILL_SPAWN_COORD_BITS))
}

/// Announces whether gameplay listeners should pause their behavior.
#[derive(Debug, Clone, Copy, PartialEq, Eq, Structural)]
pub struct PauseChanged {
    pub paused: bool,
}

impl PauseChanged {
    pub const TOPIC: &'static str = "game/pause-changed";

    pub open spec fn spec_encode(self) -> Seq<u8> {
        seq![if self.paused { 1u8 } else { 0u8 }]
    }

    pub open spec fn spec_decode(b: Seq<u8>) -> Result<PauseChanged, DecodeError> {
        if b.len() == 0 {
            Err(DecodeError::UnexpectedEnd)
        } else if b[0] > 1 {
            Err(DecodeError::InvalidTag { message: "pause state", tag: b[0] })
        } else if b.len() > 1 {
            Err(DecodeError::TrailingBytes)
        } else {
            Ok(PauseChanged { paused: b[0] == 1 })
        }
    }

    pub fn encode(&self) -> (r: Vec<u8>)
        ensures
            r@ == self.spec_encode(),
    {
        let mut out: Vec<u8> = Vec::new();
        out.push(if self.paused { 1u8 } else { 0u8 });
        assert(out@ =~= self.spec_encode());
        out
    }

    pub fn decode(b: &[u8]) -> (r: Result<PauseChanged, DecodeError>)
        ensures
            r == PauseChanged::spec_decode(b@),
    {
        let tag = read_u8(b, 0)?;
        let paused = match tag {
            0 => false,
            1 => true,
            tag => {
                return Err(DecodeError::InvalidTag { message: "pause state", tag });
            },
        };
        finish(b, 1)?;
        Ok(PauseChanged { paused })
    }
}

/// A pause announcement survives encoding, and the only payloads accepted
/// are the encodings of the two states.
pub proof fn lemma_pause_changed_codec(m: PauseChanged, b: Seq<u8>)
    ensures
        PauseChanged::spec_decode(m.spec_encode()) == Ok::<PauseChanged, DecodeError>(m),
        PauseChanged::spec_decode(b) is Ok ==> b == PauseChanged::spec_decode(b)->Ok_0.spec_encode(),
{
    if PauseChanged::spec_decode(b) is Ok {
        assert(b =~= PauseChanged::spec_decode(b)->Ok_0.spec_encode());
    }
}

/// Announces that the current gameplay session is being discarded.
#[derive(Debug, Clone, Copy, PartialEq, Eq, Structural)]
pub struct SessionReset;

impl SessionReset {
    pub const TOPIC: &'static str = "game/session-reset";

    pub open spec fn spec_decode(b: Seq<u8>) -> Result<SessionReset, DecodeError> {
        if b.len() == 0 {
            Ok(SessionReset)
        } else {
            Err(DecodeError::TrailingBytes)
        }
    }

    pub fn encode(&self) -> (r: Vec<u8>)
        ensures
            r@ == Seq::<u8>::empty(),
    {
        Vec::new()
    }

    pub fn decode(b: &[u8]) -> (r: Result<SessionReset, DecodeError>)
        ensures
            r == SessionReset::spec_decode(b@),
    {
        finish(b, 0)?;
        Ok(SessionReset)
    }
}

} // verus!

verus! {

/// The encoding of a single-precision field: its bits, little-endian.
pub open spec fn le_f32(x: F32Bits) -> Seq<u8> {
    le_u32(x.0)
}

/// Cardinal direction of one melee attack.
#[derive(Debug, Clone, Copy, PartialEq, Eq, Structural)]
pub enum AttackDirection {
    Up,
    Down,
    Left,
    Right,
}

impl AttackDirection {
    /// The byte that names the direction on the wire.
    pub open spec fn tag(self) -> u8 {
        match self {
            AttackDirection::Up => 0,
            AttackDirection::Down => 1,
            AttackDirection::Left => 2,
            AttackDirection::Right => 3,
        }
    }

    /// The direction a wire byte names, if any.
    pub open spec fn from_tag(t: u8) -> AttackDirection {
        if t == 0 {
            AttackDirection::Up
        } else if t == 1 {
            AttackDirection::Down
        } else if t == 2 {
            AttackDirection::Left
        } else {
            AttackDirection::Right
        }
    }

    fn encode_tag(self) -> (r: u8)
        ensures
            r == self.tag(),
    {
        match self {
            AttackDirection::Up => 0,
            AttackDirection::Down => 1,
            AttackDirection::Left => 2,
            AttackDirection::Right => 3,
        }
    }

    fn decode_at(b: &[u8], pos: usize) -> (r: Result<AttackDirection, DecodeError>)
        ensures
            pos >= b@.len() ==> r == Err::<AttackDirection, DecodeError>(DecodeError::UnexpectedEnd),
            pos < b@.len() && b@[pos as int] > 3 ==> r == Err::<AttackDirection, DecodeError>(
                DecodeError::InvalidTag { message: "attack direction", tag: b@[pos as int] },
            ),
            pos < b@.len() && b@[pos as int] <= 3 ==> r == Ok::<AttackDirection, DecodeError>(
                AttackDirection::from_tag(b@[pos as int]),
            ),
    {
        match read_u8(b, pos)? {
            0 => Ok(AttackDirection::Up),
            1 => Ok(AttackDirection::Down),
            2 => Ok(AttackDirection::Left),
            3 => Ok(AttackDirection::Right),
            tag => Err(DecodeError::InvalidTag { message: "attack direction", tag }),
        }
    }
}

/// One accepted melee swing at an authoritative world-space origin.
#[derive(Debug, Clone, Copy, PartialEq, Eq, Structural)]
pub struct AttackRequested {
    pub sequence: u32,
    pub origin_x: F32Bits,
    pub origin_y: F32Bits,
    pub direction: AttackDirection,
    pub reach: F32Bits,
    pub half_width: F32Bits,
}

impl AttackRequested {
    pub const TOPIC: &'static str = "game/attack-requested";

    pub open spec fn spec_encode(self) -> Seq<u8> {
        le_u32(self.sequence) + le_f32(self.origin_x) + le_f32(self.origin_y) + seq![
            self.direction.tag(),
        ] + le_f32(self.reach) + le_f32(self.half_width)
    }

    pub open spec fn spec_decode(b: Seq<u8>) -> Result<AttackRequested, DecodeError> {
        if b.len() < 13 {
            Err(DecodeError::UnexpectedEnd)
        } else if b[12] > 3 {
            Err(DecodeError::InvalidTag { message: "attack direction", tag: b[12] })
        } else if b.len() < 21 {
            Err(DecodeError::UnexpectedEnd)
        } else if b.len() > 21 {
            Err(DecodeError::TrailingBytes)
        } else {
            Ok(
                AttackRequested {
                    sequence: u32_at(b, 0),
                    origin_x: F32Bits(u32_at(b, 4)),
                    origin_y: F32Bits(u32_at(b, 8)),
                    direction: AttackDirection::from_tag(b[12]),
                    reach: F32Bits(u32_at(b, 13)),
                    half_width: F32Bits(u32_at(b, 17)),
                },
            )
        }
    }

    pub fn encode(&self) -> (r: Vec<u8>)
        ensures
            r@ == self.spec_encode(),
    {
        let mut out: Vec<u8> = Vec::new();
        push_u32(&mut out, self.sequence);
        push_u32(&mut out, self.origin_x.0);
        push_u32(&mut out, self.origin_y.0);
        out.push(self.direction.encode_tag());
        push_u32(&mut out, self.reach.0);
        push_u32(&mut out, self.half_width.0);
        assert(out@ =~= self.spec_encode());
        out
    }

    pub fn decode(b: &[u8]) -> (r: Result<AttackRequested, DecodeError>)
        ensures
            r == AttackRequested::spec_decode(b@),
    {
        let sequence = read_u32(b, 0)?;
        let origin_x = read_u32(b, 4)?;
        let origin_y = read_u32(b, 8)?;
        let direction = AttackDirection::decode_at(b, 12)?;
        let reach = read_u32(b, 13)?;
        let half_width = read_u32(b, 17)?;
        finish(b, 21)?;
        Ok(
            AttackRequested {
                sequence,
                origin_x: F32Bits(origin_x),
                origin_y: F32Bits(origin_y),
                direction,
                reach: F32Bits(reach),
                half_width: F32Bits(half_width),
            },
        )
    }
}

/// An attack request survives encoding, and every accepted payload is the
/// encoding of the request it decodes to.
#[verifier::spinoff_prover]
#[verifier::rlimit(30)]
pub proof fn lemma_attack_requested_codec(m: AttackRequested, b: Seq<u8>)
    ensures
        AttackRequested::spec_decode(m.spec_encode()) == Ok::<AttackRequested, DecodeError>(m),
        AttackRequested::spec_decode(b) is Ok ==> b == AttackRequested::spec_decode(b)->Ok_0.spec_encode(),
{
    let e = m.spec_encode();
    let d = seq![m.direction.tag()];
    lemma_u32_after(Seq::empty(), m.sequence, le_f32(m.origin_x) + le_f32(m.origin_y) + d + le_f32(m.reach) + le_f32(m.half_width));
    assert(e =~= Seq::<u8>::empty() + le_u32(m.sequence) + (le_f32(m.origin_x) + le_f32(m.origin_y) + d + le_f32(m.reach) + le_f32(m.half_width)));
    lemma_u32_after(le_u32(m.sequence), m.origin_x.0, le_f32(m.origin_y) + d + le_f32(m.reach) + le_f32(m.half_width));
    assert(e =~= le_u32(m.sequence) + le_u32(m.origin_x.0) + (le_f32(m.origin_y) + d + le_f32(m.reach) + le_f32(m.half_width)));
    let p2 = le_u32(m.sequence) + le_f32(m.origin_x);
    lemma_u32_after(p2, m.origin_y.0, d + le_f32(m.reach) + le_f32(m.half_width));
    assert(e =~= p2 + le_u32(m.origin_y.0) + (d + le_f32(m.reach) + le_f32(m.half_width)));
    let p3 = p2 + le_f32(m.origin_y) + d;
    lemma_u32_after(p3, m.reach.0, le_f32(m.half_width));
    assert(e =~= p3 + le_u32(m.reach.0) + le_f32(m.half_width));
    let p4 = p3 + le_f32(m.reach);
    lemma_u32_after(p4, m.half_width.0, Seq::empty());
    assert(e =~= p4 + le_u32(m.half_width.0) + Seq::<u8>::empty());
    assert(e[12] == m.direction.tag());
    assert(AttackDirection::from_tag(m.direction.tag()) == m.direction);
    if AttackRequested::spec_decode(b) is Ok {
        let r = AttackRequested::spec_decode(b)->Ok_0;
        lemma_u32_at(b, 0);
        lemma_u32_at(b, 4);
        lemma_u32_at(b, 8);
        lemma_u32_at(b, 13);
        lemma_u32_at(b, 17);
        assert(r.direction.tag() == b[12]);
        assert(b =~= r.spec_encode());
    }
}

} // verus!

verus! {

/// Axis-aligned target considered by the shared melee targeting rule.
#[derive(Debug, Clone, Copy, PartialEq, Eq, Structural)]
pub struct AttackTarget {
    pub entity_id: u32,
    pub x: F32Bits,
    pub y: F32Bits,
    pub half_w: F32Bits,
    pub half_h: F32Bits,
}

/// Damage requested by the active level after hostile contact, with the
/// world-space point the damage came from.
#[derive(Debug, Clone, Copy, PartialEq, Eq, Structural)]
pub struct PlayerDamaged {
    pub amount: u8,
    pub source_x: F32Bits,
    pub source_y: F32Bits,
}

impl PlayerDamaged {
    pub const TOPIC: &'static str = "game/player-damaged";

    /// The source point, when both of its coordinates are finite.
    pub open spec fn spec_source(self) -> Option<(F32Bits, F32Bits)> {
        if self.source_x.finite() && self.source_y.finite() {
            Some((self.source_x, self.source_y))
        } else {
            None
        }
    }

    pub fn source(&self) -> (r: Option<(F32Bits, F32Bits)>)
        ensures
            r == self.spec_source(),
    {
        if self.source_x.is_finite() && self.source_y.is_finite() {
            Some((self.source_x, self.source_y))
        } else {
            None
        }
    }

    pub open spec fn spec_encode(self) -> Seq<u8> {
        seq![self.amount] + le_f32(self.source_x) + le_f32(self.source_y)
    }

    pub open spec fn spec_decode(b: Seq<u8>) -> Result<PlayerDamaged, DecodeError> {
        if b.len() < 9 {
            Err(DecodeError::UnexpectedEnd)
        } else if b.len() > 9 {
            Err(DecodeError::TrailingBytes)
        } else {
            Ok(
                PlayerDamaged {
                    amount: b[0],
                    source_x: F32Bits(u32_at(b, 1)),
                    source_y: F32Bits(u32_at(b, 5)),
                },
            )
        }
    }

    pub fn encode(&self) -> (r: Vec<u8>)
        ensures
            r@ == self.spec_encode(),
    {
        let mut out: Vec<u8> = Vec::new();
        out.push(self.amount);
        push_u32(&mut out, self.source_x.0);
        push_u32(&mut out, self.source_y.0);
        assert(out@ =~= self.spec_encode());
        out
    }

    pub fn decode(b: &[u8]) -> (r: Result<PlayerDamaged, DecodeError>)
        ensures
            r == PlayerDamaged::spec_decode(b@),
    {
        let amount = read_u8(b, 0)?;
        let source_x = read_u32(b, 1)?;
        let source_y = read_u32(b, 5)?;
        finish(b, 9)?;
        Ok(PlayerDamaged { amount, source_x: F32Bits(source_x), source_y: F32Bits(source_y) })
    }
}

/// A damage message survives encoding, and every accepted payload is the
/// encoding of the message it decodes to.
pub proof fn lemma_player_damaged_codec(m: PlayerDamaged, b: Seq<u8>)
    ensures
        PlayerDamaged::spec_decode(m.spec_encode()) == Ok::<PlayerDamaged, DecodeError>(m),
        PlayerDamaged::spec_decode(b) is Ok ==> b == PlayerDamaged::spec_decode(b)->Ok_0.spec_encode(),
{
    let e = m.spec_encode();
    let a = seq![m.amount];
    lemma_u32_after(a, m.source_x.0, le_f32(m.source_y));
    lemma_u32_after(a + le_f32(m.source_x), m.source_y.0, Seq::empty());
    assert(e =~= a + le_f32(m.source_x) + le_f32(m.source_y) + Seq::<u8>::empty());
    if PlayerDamaged::spec_decode(b) is Ok {
        let r = PlayerDamaged::spec_decode(b)->Ok_0;
        lemma_u32_at(b, 1);
        lemma_u32_at(b, 5);
        assert(b =~= r.spec_encode());
    }
}

/// Session-scoped progression granted by a destroyed level-owned target.
#[derive(Debug, Clone, Copy, PartialEq, Eq, Structural)]
pub struct RewardGranted {
    pub experience: u32,
    pub coins: u32,
}

impl RewardGranted {
    pub const TOPIC: &'static str = "game/reward-granted";

    pub open spec fn spec_encode(self) -> Seq<u8> {
        le_u32(self.experience) + le_u32(self.coins)
    }

    pub open spec fn spec_decode(b: Seq<u8>) -> Result<RewardGranted, DecodeError> {
        if b.len() < 8 {
            Err(DecodeError::UnexpectedEnd)
        } else if b.len() > 8 {
            Err(DecodeError::TrailingBytes)
        } else {
            Ok(RewardGranted { experience: u32_at(b, 0), coins: u32_at(b, 4) })
        }
    }

    pub fn encode(&self) -> (r: Vec<u8>)
        ensures
            r@ == self.spec_encode(),
    {
        let mut out: Vec<u8> = Vec::new();
        push_u32(&mut out, self.experience);
        push_u32(&mut out, self.coins);
        assert(out@ =~= self.spec_encode());
        out
    }

    pub fn decode(b: &[u8]) -> (r: Result<RewardGranted, DecodeError>)
        ensures
            r == RewardGranted::spec_decode(b@),
    {
        let experience = read_u32(b, 0)?;
        let coins = read_u32(b, 4)?;
        finish(b, 8)?;
        Ok(RewardGranted { experience, coins })
    }
}

/// A reward survives encoding, and every accepted payload is the encoding of
/// the reward it decodes to.
pub proof fn lemma_reward_granted_codec(m: RewardGranted, b: Seq<u8>)
    ensures
        RewardGranted::spec_decode(m.spec_encode()) == Ok::<RewardGranted, DecodeError>(m),
        RewardGranted::spec_decode(b) is Ok ==> b == RewardGranted::spec_decode(b)->Ok_0.spec_encode(),
{
    let e = m.spec_encode();
    lemma_u32_after(Seq::empty(), m.experience, le_u32(m.coins));
    assert(e =~= Seq::<u8>::empty() + le_u32(m.experience) + le_u32(m.coins));
    lemma_u32_after(le_u32(m.experience), m.coins, Seq::empty());
    assert(e =~= le_u32(m.experience) + le_u32(m.coins) + Seq::<u8>::empty());
    if RewardGranted::spec_decode(b) is Ok {
        let r = RewardGranted::spec_decode(b)->Ok_0;
        lemma_u32_at(b, 0);
        lemma_u32_at(b, 4);
        assert(b =~= r.spec_encode());
    }
}

/// Confirms the target and world position affected by a melee swing.
#[derive(Debug, Clone, Copy, PartialEq, Eq, Structural)]
pub struct HitConfirmed {
    pub sequence: u32,
    pub entity_id: u32,
    pub x: F32Bits,
    pub y: F32Bits,
}

impl HitConfirmed {
    pub const TOPIC: &'static str = "game/hit-confirmed";

    pub open spec fn spec_encode(self) -> Seq<u8> {
        le_u32(self.sequence) + le_u32(self.entity_id) + le_f32(self.x) + le_f32(self.y)
    }

    pub open spec fn spec_decode(b: Seq<u8>) -> Result<HitConfirmed, DecodeError> {
        if b.len() < 16 {
            Err(DecodeError::UnexpectedEnd)
        } else if b.len() > 16 {
            Err(DecodeError::TrailingBytes)
        } else {
            Ok(
                HitConfirmed {
                    sequence: u32_at(b, 0),
                    entity_id: u32_at(b, 4),
                    x: F32Bits(u32_at(b, 8)),
                    y: F32Bits(u32_at(b, 12)),
                },
            )
        }
    }

    pub fn encode(&self) -> (r: Vec<u8>)
        ensures
            r@ == self.spec_encode(),
    {
        let mut out: Vec<u8> = Vec::new();
        push_u32(&mut out, self.sequence);
        push_u32(&mut out, self.entity_id);
        push_u32(&mut out, self.x.0);
        push_u32(&mut out, self.y.0);
        assert(out@ =~= self.spec_encode());
        out
    }

    pub fn decode(b: &[u8]) -> (r: Result<HitConfirmed, DecodeError>)
        ensures
            r == HitConfirmed::spec_decode(b@),
    {
        let sequence = read_u32(b, 0)?;
        let entity_id = read_u32(b, 4)?;
        let x = read_u32(b, 8)?;
        let y = read_u32(b, 12)?;
        finish(b, 16)?;
        Ok(HitConfirmed { sequence, entity_id, x: F32Bits(x), y: F32Bits(y) })
    }
}

/// A hit confirmation survives encoding, and every accepted payload is the
/// encoding of the confirmation it decodes to.
pub proof fn lemma_hit_confirmed_codec(m: HitConfirmed, b: Seq<u8>)
    ensures
        HitConfirmed::spec_decode(m.spec_encode()) == Ok::<HitConfirmed, DecodeError>(m),
        HitConfirmed::spec_decode(b) is Ok ==> b == HitConfirmed::spec_decode(b)->Ok_0.spec_encode(),
{
    let e = m.spec_encode();
    let (s, i, x, y) = (le_u32(m.sequence), le_u32(m.entity_id), le_f32(m.x), le_f32(m.y));
    lemma_u32_after(Seq::empty(), m.sequence, i + x + y);
    assert(e =~= Seq::<u8>::empty() + s + (i + x + y));
    lemma_u32_after(s, m.entity_id, x + y);
    assert(e =~= s + i + (x + y));
    lemma_u32_after(s + i, m.x.0, y);
    lemma_u32_after(s + i + x, m.y.0, Seq::empty());
    assert(e =~= s + i + x + y + Seq::<u8>::empty());
    if HitConfirmed::spec_decode(b) is Ok {
        let r = HitConfirmed::spec_decode(b)->Ok_0;
        lemma_u32_at(b, 0);
        lemma_u32_at(b, 4);
        lemma_u32_at(b, 8);
        lemma_u32_at(b, 12);
        assert(b =~= r.spec_encode());
    }
}

/// Announces that Will exhausted all lives and the active level must restart.
#[derive(Debug, Clone, Copy, PartialEq, Eq, Structural)]
pub struct PlayerDefeated;

impl PlayerDefeated {
    pub const TOPIC: &'static str = "game/player-defeated";

    pub open spec fn spec_decode(b: Seq<u8>) -> Result<PlayerDefeated, DecodeError> {
        if b.len() == 0 {
            Ok(PlayerDefeated)
        } else {
            Err(DecodeError::TrailingBytes)
        }
    }

    pub fn encode(&self) -> (r: Vec<u8>)
        ensures
            r@ == Seq::<u8>::empty(),
    {
        Vec::new()
    }

    pub fn decode(b: &[u8]) -> (r: Result<PlayerDefeated, DecodeError>)
        ensures
            r == PlayerDefeated::spec_decode(b@),
    {
        finish(b, 0)?;
        Ok(PlayerDefeated)
    }
}

/// Current session-scoped values rendered by the gameplay HUD.
#[derive(Debug, Clone, Copy, PartialEq, Eq, Structural)]
pub struct PlayerStats {
    pub lives: u8,
    pub experience: u32,
    pub level: u32,
    pub coins: u32,
}

impl PlayerStats {
    pub const TOPIC: &'static str = "game/player-stats";

    pub open spec fn spec_encode(self) -> Seq<u8> {
        seq![self.lives] + le_u32(self.experience) + le_u32(self.level) + le_u32(self.coins)
    }

    pub open spec fn spec_decode(b: Seq<u8>) -> Result<PlayerStats, DecodeError> {
        if b.len() < 13 {
            Err(DecodeError::UnexpectedEnd)
        } else if b.len() > 13 {
            Err(DecodeError::TrailingBytes)
        } else {
            Ok(
                PlayerStats {
                    lives: b[0],
                    experience: u32_at(b, 1),
                    level: u32_at(b, 5),
                    coins: u32_at(b, 9),
                },
            )
        }
    }

    pub fn encode(&self) -> (r: Vec<u8>)
        ensures
            r@ == self.spec_encode(),
    {
        let mut out: Vec<u8> = Vec::new();
        out.push(self.lives);
        push_u32(&mut out, self.experience);
        push_u32(&mut out, self.level);
        push_u32(&mut out, self.coins);
        assert(out@ =~= self.spec_encode());
        out
    }

    pub fn decode(b: &[u8]) -> (r: Result<PlayerStats, DecodeError>)
        ensures
            r == PlayerStats::spec_decode(b@),
    {
        let lives = read_u8(b, 0)?;
        let experience = read_u32(b, 1)?;
        let level = read_u32(b, 5)?;
        let coins = read_u32(b, 9)?;
        finish(b, 13)?;
        Ok(PlayerStats { lives, experience, level, coins })
    }
}

/// Player stats survive encoding, and every accepted payload is the encoding
/// of the stats it decodes to.
pub proof fn lemma_player_stats_codec(m: PlayerStats, b: Seq<u8>)
    ensures
        PlayerStats::spec_decode(m.spec_encode()) == Ok::<PlayerStats, DecodeError>(m),
        PlayerStats::spec_decode(b) is Ok ==> b == PlayerStats::spec_decode(b)->Ok_0.spec_encode(),
{
    let e = m.spec_encode();
    let (l, x, v, c) = (seq![m.lives], le_u32(m.experience), le_u32(m.level), le_u32(m.coins));
    lemma_u32_after(l, m.experience, v + c);
    assert(e =~= l + x + (v + c));
    lemma_u32_after(l + x, m.level, c);
    lemma_u32_after(l + x + v, m.coins, Seq::empty());
    assert(e =~= l + x + v + c + Seq::<u8>::empty());
    if PlayerStats::spec_decode(b) is Ok {
        let r = PlayerStats::spec_decode(b)->Ok_0;
        lemma_u32_at(b, 1);
        lemma_u32_at(b, 5);
        lemma_u32_at(b, 9);
        assert(b =~= r.spec_encode());
    }
}

/// The topics of the game's messages are distinct, so a listener can tell
/// the messages apart by topic alone.
pub proof fn lemma_topics_distinct()
    ensures
        PauseChanged::TOPIC@ != SessionReset::TOPIC@,
        PauseChanged::TOPIC@ != PlayerDamaged::TOPIC@,
        PauseChanged::TOPIC@ != RewardGranted::TOPIC@,
        PauseChanged::TOPIC@ != HitConfirmed::TOPIC@,
        SessionReset::TOPIC@ != PlayerDamaged::TOPIC@,
        SessionReset::TOPIC@ != RewardGranted::TOPIC@,
        SessionReset::TOPIC@ != HitConfirmed::TOPIC@,
        PlayerDamaged::TOPIC@ != RewardGranted::TOPIC@,
        PlayerDamaged::TOPIC@ != HitConfirmed::TOPIC@,
        RewardGranted::TOPIC@ != HitConfirmed::TOPIC@,
        AttackRequested::TOPIC@ != PauseChanged::TOPIC@,
{
    reveal_strlit("game/pause-changed");
    reveal_strlit("game/session-reset");
    reveal_strlit("game/player-damaged");
    reveal_strlit("game/reward-granted");
    reveal_strlit("game/hit-confirmed");
    reveal_strlit("game/attack-requested");
    assert(PauseChanged::TOPIC@[5] != SessionReset::TOPIC@[5]);
    assert(PauseChanged::TOPIC@[6] != PlayerDamaged::TOPIC@[6]);
    assert(PauseChanged::TOPIC@[5] != RewardGranted::TOPIC@[5]);
    assert(PauseChanged::TOPIC@[5] != HitConfirmed::TOPIC@[5]);
    assert(SessionReset::TOPIC@[5] != PlayerDamaged::TOPIC@[5]);
    assert(SessionReset::TOPIC@[5] != RewardGranted::TOPIC@[5]);
    assert(SessionReset::TOPIC@[5] != HitConfirmed::TOPIC@[5]);
    assert(PlayerDamaged::TOPIC@[5] != RewardGranted::TOPIC@[5]);
    assert(PlayerDamaged::TOPIC@[5] != HitConfirmed::TOPIC@[5]);
    assert(RewardGranted::TOPIC@[5] != HitConfirmed::TOPIC@[5]);
    assert(AttackRequested::TOPIC@[5] != PauseChanged::TOPIC@[5]);
}

} // verus!
