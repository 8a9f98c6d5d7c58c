use vstd::prelude::*;

use crate::messages::WILL_ENTITY_ID;

verus! {

pub const BOX_SPRITE_ID: u32 = 2;
pub const GRASS_SPRITE_ID: u32 = 3;
pub const FRAME_SIZE: u32 = 64;
pub const BOX_ID_START: u32 = 2;

/// A box of the level's spawn table: where it stands, in whole pixels, and
/// the coins it holds.
#[derive(Debug, Clone, Copy, PartialEq, Eq, Structural)]
pub struct BoxPlacement {
    pub x: i32,
    pub y: i32,
    pub coins: u32,
}

/// The boxes of the grass map.
pub open spec fn spec_boxes() -> Seq<BoxPlacement> {
    seq![
        BoxPlacement { x: 242, y: 442, coins: 1 },
        BoxPlacement { x: 432, y: 532, coins: 2 },
        BoxPlacement { x: 532, y: 432, coins: 3 },
    ]
}

/// The boxes of the grass map.
pub fn boxes() -> (r: Vec<BoxPlacement>)
    ensures
        r@ == spec_boxes(),
{
    let r = vec![
        BoxPlacement { x: 242, y: 442, coins: 1 },
        BoxPlacement { x: 432, y: 532, coins: 2 },
        BoxPlacement { x: 532, y: 432, coins: 3 },
    ];
    assert(r@ =~= spec_boxes());
    r
}

/// The entity id of the box at `index` of the spawn table.
pub open spec fn spec_box_entity_id(index: int) -> int {
    BOX_ID_START + index
}

/// Each box with the entity id it spawns under.
pub fn spawn_level_entities() -> (r: Vec<(u32, BoxPlacement)>)
    ensures
        r@.len() == spec_boxes().len(),
        forall|i: int| 0 <= i < r@.len() ==> #[trigger] r@[i] == (spec_box_entity_id(i) as u32, spec_boxes()[i]),
{
    let table = boxes();
    let mut out: Vec<(u32, BoxPlacement)> = Vec::new();
    let mut i: usize = 0;
    while i < table.len()
        invariant
            table@ == spec_boxes(),
            i <= table@.len(),
            out@.len() == i,
            forall|j: int| 0 <= j < i ==> #[trigger] out@[j] == (spec_box_entity_id(j) as u32, spec_boxes()[j]),
        decreases table@.len() - i,
    {
        out.push((BOX_ID_START + i as u32, table[i]));
        i = i + 1;
    }
    out
}

/// Box ids come from the spawn table, are distinct, and never take Will's id.
pub proof fn lemma_box_ids(i: int, j: int)
    requires
        0 <= i < spec_boxes().len(),
        0 <= j < spec_boxes().len(),
    ensures
        i != j ==> spec_box_entity_id(i) != spec_box_entity_id(j),
        spec_box_entity_id(i) != WILL_ENTITY_ID,
{
}

} // verus!
