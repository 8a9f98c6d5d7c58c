use vstd::prelude::*;

use crate::float_bits::F32Bits;
use crate::messages::{AttackRequested, AttackTarget, HitConfirmed, RewardGranted};

verus! {

/// Bit pattern of `20.0`, half a box's collider width.
pub const BOX_HALF_W_BITS: u32 = 0x41a0_0000;

/// Bit pattern of `28.0`, half a box's collider height.
pub const BOX_HALF_H_BITS: u32 = 0x41e0_0000;

/// Where a box starts and the coins inside it.
#[derive(Debug, Clone, Copy, PartialEq, Eq, Structural)]
pub struct BoxSpawn {
    pub x: F32Bits,
    pub y: F32Bits,
    pub coins: u32,
}

/// One pushable box.
#[derive(Debug, Clone, Copy, PartialEq, Eq, Structural)]
pub struct BoxState {
    pub entity_id: u32,
    pub x: F32Bits,
    pub y: F32Bits,
    pub coins: u32,
    pub health: u8,
}

/// The hit on a box that broke it, and the coins it held.
#[derive(Debug, Clone, Copy, PartialEq, Eq, Structural)]
pub struct DestroyedBox {
    pub hit: HitConfirmed,
    pub reward: RewardGranted,
}

/// What a [`BoxField`] holds.
#[verifier::ext_equal]
pub struct BoxFieldView {
    pub boxes: Seq<BoxState>,
    pub last_attack_sequence: Option<u32>,
}

/// The boxes of level one.
#[derive(Debug, Clone, PartialEq, Eq)]
pub struct BoxField {
    boxes: Vec<BoxState>,
    last_attack_sequence: Option<u32>,
}

impl View for BoxField {
    type V = BoxFieldView;

    closed spec fn view(&self) -> BoxFieldView {
        BoxFieldView { boxes: self.boxes@, last_attack_sequence: self.last_attack_sequence }
    }
}

/// Whether box `i` has id `id` (and hit points, when `alive_only`).
pub open spec fn box_matches(boxes: Seq<BoxState>, i: int, id: u32, alive_only: bool) -> bool {
    0 <= i < boxes.len() && boxes[i].entity_id == id && (!alive_only || boxes[i].health > 0)
}

/// Whether box `i` is the first one that matches.
pub open spec fn first_match(boxes: Seq<BoxState>, i: int, id: u32, alive_only: bool) -> bool {
    box_matches(boxes, i, id, alive_only) && forall|j: int| 0 <= j < i ==> !box_matches(boxes, j, id, alive_only)
}

/// The index of the first box with id `id` (and hit points, when
/// `alive_only`), if any.
pub open spec fn first_box(boxes: Seq<BoxState>, id: u32, alive_only: bool) -> Option<int> {
    if exists|i: int| first_match(boxes, i, id, alive_only) {
        Some(choose|i: int| first_match(boxes, i, id, alive_only))
    } else {
        None
    }
}

fn find_box(boxes: &Vec<BoxState>, id: u32, alive_only: bool) -> (r: Option<usize>)
    ensures
        r matches Some(i) ==> i < boxes@.len() && first_box(boxes@, id, alive_only) == Some(i as int),
        r is None ==> first_box(boxes@, id, alive_only) is None,
{
    let mut i: usize = 0;
    while i < boxes.len()
        invariant
            i <= boxes@.len(),
            forall|j: int| 0 <= j < i ==> !box_matches(boxes@, j, id, alive_only),
        decreases boxes@.len() - i,
    {
        if boxes[i].entity_id == id && (!alive_only || boxes[i].health > 0) {
            assert(first_match(boxes@, i as int, id, alive_only));
            let ghost c = choose|c: int| first_match(boxes@, c, id, alive_only);
            assert(c == i) by {
                if c < i {
                    assert(!box_matches(boxes@, c, id, alive_only));
                }
                if c > i {
                    assert(!box_matches(boxes@, i as int, id, alive_only));
                }
            }
            return Some(i);
        }
        i = i + 1;
    }
    assert forall|c: int| !first_match(boxes@, c, id, alive_only) by {
        if 0 <= c < boxes@.len() {
            assert(!box_matches(boxes@, c, id, alive_only));
        }
    }
    None
}

impl BoxFieldView {
    /// Boxes numbered from `id_start` in spawn order, each with one hit point.
    pub open spec fn spawned(id_start: u32, spawns: Seq<BoxSpawn>) -> BoxFieldView {
        BoxFieldView {
            boxes: Seq::new(
                spawns.len(),
                |i: int| BoxState {
                    entity_id: (id_start + i) as u32,
                    x: spawns[i].x,
                    y: spawns[i].y,
                    coins: spawns[i].coins,
                    health: 1,
                },
            ),
            last_attack_sequence: None,
        }
    }

    /// A new authoritative position for a live box, taken when finite.
    pub open spec fn update_transform(self, entity_id: u32, x: F32Bits, y: F32Bits) -> BoxFieldView {
        if !x.finite() || !y.finite() {
            self
        } else {
            match first_box(self.boxes, entity_id, true) {
                Some(i) => BoxFieldView {
                    boxes: self.boxes.update(i, BoxState { x, y, ..self.boxes[i] }),
                    ..self
                },
                None => self,
            }
        }
    }

    /// A swing, with the box the targeting rule chose: a repeated sequence
    /// does nothing; otherwise the chosen box, if it still stands, loses a
    /// hit point, and when that breaks it the hit and its coins are reported.
    pub open spec fn attack(self, attack: AttackRequested, target: Option<u32>) -> (BoxFieldView, Option<DestroyedBox>) {
        if self.last_attack_sequence == Some(attack.sequence) {
            (self, None)
        } else {
            let marked = BoxFieldView { last_attack_sequence: Some(attack.sequence), ..self };
            match target {
                None => (marked, None),
                Some(id) => match first_box(self.boxes, id, false) {
                    None => (marked, None),
                    Some(i) => if self.boxes[i].health == 0 {
                        (marked, None)
                    } else {
                        let b = self.boxes[i];
                        let health = (b.health - 1) as u8;
                        let after = BoxFieldView {
                            boxes: self.boxes.update(i, BoxState { health, ..b }),
                            ..marked
                        };
                        if health == 0 {
                            (
                                after,
                                Some(
                                    DestroyedBox {
                                        hit: HitConfirmed {
                                            sequence: attack.sequence,
                                            entity_id: b.entity_id,
                                            x: b.x,
                                            y: b.y,
                                        },
                                        reward: RewardGranted { experience: 0, coins: b.coins },
                                    },
                                ),
                            )
                        } else {
                            (after, None)
                        }
                    },
                },
            }
        }
    }

    /// The live boxes as targets, in order.
    pub open spec fn targets(self) -> Seq<AttackTarget> {
        live_targets(self.boxes)
    }
}

/// A box as a target of the targeting rule.
pub open spec fn box_target(b: BoxState) -> AttackTarget {
    AttackTarget {
        entity_id: b.entity_id,
        x: b.x,
        y: b.y,
        half_w: F32Bits(BOX_HALF_W_BITS),
        half_h: F32Bits(BOX_HALF_H_BITS),
    }
}

/// The boxes with hit points left, as targets, in order.
pub open spec fn live_targets(boxes: Seq<BoxState>) -> Seq<AttackTarget>
    decreases boxes.len(),
{
    if boxes.len() == 0 {
        Seq::empty()
    } else {
        live_targets(boxes.drop_last()) + if boxes.last().health > 0 {
            seq![box_target(boxes.last())]
        } else {
            Seq::empty()
        }
    }
}

impl BoxField {
    /// Boxes numbered from `id_start` in spawn order.
    pub fn new(id_start: u32, spawns: &[BoxSpawn]) -> (r: BoxField)
        requires
            id_start + spawns@.len() <= u32::MAX + 1,
        ensures
            r@ == BoxFieldView::spawned(id_start, spawns@),
    {
        let mut boxes: Vec<BoxState> = Vec::new();
        let mut i: usize = 0;
        while i < spawns.len()
            invariant
                i <= spawns@.len(),
                id_start + spawns@.len() <= u32::MAX + 1,
                boxes@ == BoxFieldView::spawned(id_start, spawns@).boxes.take(i as int),
            decreases spawns@.len() - i,
        {
            let spawn = spawns[i];
            boxes.push(BoxState { entity_id: id_start + i as u32, x: spawn.x, y: spawn.y, coins: spawn.coins, health: 1 });
            assert(boxes@ =~= BoxFieldView::spawned(id_start, spawns@).boxes.take(i + 1));
            i = i + 1;
        }
        assert(boxes@ =~= BoxFieldView::spawned(id_start, spawns@).boxes);
        BoxField { boxes, last_attack_sequence: None }
    }

    /// The boxes, in spawn order.
    pub fn boxes(&self) -> (r: &Vec<BoxState>)
        ensures
            r@ == self@.boxes,
    {
        &self.boxes
    }

    pub fn update_transform(&mut self, entity_id: u32, x: F32Bits, y: F32Bits)
        ensures
            final(self)@ == old(self)@.update_transform(entity_id, x, y),
    {
        if !x.is_finite() || !y.is_finite() {
            return;
        }
        match find_box(&self.boxes, entity_id, true) {
            Some(i) => {
                let b = self.boxes[i];
                self.boxes.set(i, BoxState { x, y, ..b });
                assert(self.boxes@ =~= old(self)@.boxes.update(i as int, BoxState { x, y, ..b }));
            },
            None => {},
        }
    }

    /// The live boxes as targets for a swing, in spawn order.
    pub fn targets(&self) -> (r: Vec<AttackTarget>)
        ensures
            r@ == self@.targets(),
    {
        let mut out: Vec<AttackTarget> = Vec::new();
        let mut i: usize = 0;
        while i < self.boxes.len()
            invariant
                i <= self.boxes@.len(),
                out@ == live_targets(self.boxes@.take(i as int)),
            decreases self.boxes@.len() - i,
        {
            let b = self.boxes[i];
            assert(self.boxes@.take(i + 1).drop_last() =~= self.boxes@.take(i as int));
            if b.health > 0 {
                out.push(AttackTarget { entity_id: b.entity_id, x: b.x, y: b.y, half_w: F32Bits(BOX_HALF_W_BITS), half_h: F32Bits(BOX_HALF_H_BITS) });
            }
            assert(out@ =~= live_targets(self.boxes@.take(i + 1)));
            i = i + 1;
        }
        assert(self.boxes@.take(self.boxes@.len() as int) =~= self.boxes@);
        out
    }

    /// Applies a swing; `target` is the box the targeting rule chose among
    /// [`BoxField::targets`].
    pub fn attack(&mut self, attack: AttackRequested, target: Option<u32>) -> (r: Option<DestroyedBox>)
        ensures
            (final(self)@, r) == old(self)@.attack(attack, target),
    {
        if self.last_attack_sequence == Some(attack.sequence) {
            return None;
        }
        self.last_attack_sequence = Some(attack.sequence);
        let id = match target {
            Some(id) => id,
            None => return None,
        };
        let i = match find_box(&self.boxes, id, false) {
            Some(i) => i,
            None => return None,
        };
        let b = self.boxes[i];
        if b.health == 0 {
            return None;
        }
        let health = b.health - 1;
        self.boxes.set(i, BoxState { health, ..b });
        assert(self.boxes@ =~= old(self)@.boxes.update(i as int, BoxState { health, ..b }));
        if health == 0 {
            Some(
                DestroyedBox {
                    hit: HitConfirmed { sequence: attack.sequence, entity_id: b.entity_id, x: b.x, y: b.y },
                    reward: RewardGranted { experience: 0, coins: b.coins },
                },
            )
        } else {
            None
        }
    }
}

/// A swing is handled once: repeating its sequence changes nothing and
/// breaks nothing, whatever target is named.
pub proof fn lemma_repeated_swing_is_ignored(v: BoxFieldView, attack: AttackRequested, a: Option<u32>, b: Option<u32>)
    ensures
        v.attack(attack, a).0.attack(attack, b) == (v.attack(attack, a).0, None::<DestroyedBox>),
{
}

/// A swing changes at most the one box it hits, and a box it breaks gives
/// up exactly the coins it held.
pub proof fn lemma_swing_hits_one_box(v: BoxFieldView, attack: AttackRequested, target: Option<u32>, k: int)
    requires
        0 <= k < v.boxes.len(),
    ensures
        v.attack(attack, target).0.boxes.len() == v.boxes.len(),
        v.attack(attack, target).0.boxes[k] != v.boxes[k] ==> target is Some && first_box(
            v.boxes,
            target->Some_0,
            false,
        ) == Some(k),
        v.attack(attack, target).1 is Some ==> target is Some && first_box(v.boxes, target->Some_0, false) is Some,
        v.attack(attack, target).1 matches Some(d) ==> d.reward.coins == v.boxes[first_box(
            v.boxes,
            target->Some_0,
            false,
        )->Some_0].coins,
{
}

/// A box breaks in one hit: a new swing that names a box with its one hit
/// point breaks it and yields exactly its coins, and no experience.
pub proof fn lemma_one_hit_breaks_a_box(v: BoxFieldView, attack: AttackRequested, id: u32)
    requires
        first_box(v.boxes, id, false) matches Some(k) && v.boxes[k].health == 1,
        v.last_attack_sequence != Some(attack.sequence),
    ensures
        ({
            let k = first_box(v.boxes, id, false)->Some_0;
            let (after, r) = v.attack(attack, Some(id));
            &&& r matches Some(d) && d.hit.entity_id == id && d.hit.sequence == attack.sequence
                && d.reward == (RewardGranted { experience: 0, coins: v.boxes[k].coins })
            &&& after.boxes[k].health == 0
        }),
{
    let k = first_box(v.boxes, id, false)->Some_0;
    assert(first_match(v.boxes, k, id, false));
}

} // verus!
