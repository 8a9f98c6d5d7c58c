//! The brief world-space marker of a confirmed hit.
use vstd::prelude::*;

use crate::float_bits::F32Bits;
use crate::messages::HitConfirmed;

verus! {

/// Bit pattern of `0.18`, the seconds a hit marker stays.
pub const IMPACT_SECONDS_BITS: u32 = 0x3e38_51ec;

/// Bit pattern of `f32::EPSILON`: a marker with no more time than this is gone.
pub const MARKER_EPSILON_BITS: u32 = 0x3400_0000;

/// Where a marker stands and the seconds it has left.
#[derive(Debug, Clone, Copy, PartialEq, Eq, Structural)]
pub struct Marker {
    pub x: F32Bits,
    pub y: F32Bits,
    pub remaining: F32Bits,
}

/// The marker of the latest confirmed hit, if it still shows.
#[derive(Debug, Clone, Copy, PartialEq, Eq)]
pub struct ImpactFeedback {
    pub last_sequence: Option<u32>,
    pub marker: Option<Marker>,
}

impl ImpactFeedback {
    /// A confirmed hit shows a fresh marker where it landed, unless its swing
    /// was already confirmed or its position is not finite.
    pub open spec fn spec_confirm(self, hit: HitConfirmed) -> ImpactFeedback {
        if self.last_sequence == Some(hit.sequence) || !hit.x.finite() || !hit.y.finite() {
            self
        } else {
            ImpactFeedback {
                last_sequence: Some(hit.sequence),
                marker: Some(Marker { x: hit.x, y: hit.y, remaining: F32Bits(IMPACT_SECONDS_BITS) }),
            }
        }
    }

    /// A frame with the marker's time now at `remaining`: a marker with no
    /// more than `f32::EPSILON` left disappears.
    pub open spec fn spec_tick(self, remaining: F32Bits) -> ImpactFeedback {
        match self.marker {
            None => self,
            Some(m) => if remaining.above(F32Bits(MARKER_EPSILON_BITS)) {
                ImpactFeedback { marker: Some(Marker { remaining, ..m }), ..self }
            } else {
                ImpactFeedback { marker: None, ..self }
            },
        }
    }
}

impl Default for ImpactFeedback {
    fn default() -> (r: ImpactFeedback)
        ensures
            r == (ImpactFeedback { last_sequence: None, marker: None }),
    {
        ImpactFeedback { last_sequence: None, marker: None }
    }
}

impl ImpactFeedback {
    pub fn confirm(&mut self, hit: HitConfirmed)
        ensures
            *final(self) == old(self).spec_confirm(hit),
    {
        if self.last_sequence == Some(hit.sequence) || !hit.x.is_finite() || !hit.y.is_finite() {
            return;
        }
        self.last_sequence = Some(hit.sequence);
        self.marker = Some(Marker { x: hit.x, y: hit.y, remaining: F32Bits(IMPACT_SECONDS_BITS) });
    }

    /// Advances a frame; `remaining` is the marker's time less the frame's.
    pub fn tick(&mut self, remaining: F32Bits)
        ensures
            *final(self) == old(self).spec_tick(remaining),
    {
        match self.marker {
            None => {},
            Some(m) => {
                if remaining.is_above(F32Bits(MARKER_EPSILON_BITS)) {
                    self.marker = Some(Marker { remaining, ..m });
                } else {
                    self.marker = None;
                }
            },
        }
    }
}

/// Each swing is marked at most once: once a confirmation took effect,
/// confirming the same swing again, wherever it is reported, changes nothing.
pub proof fn lemma_confirm_once(f: ImpactFeedback, hit: HitConfirmed, again: HitConfirmed)
    requires
        again.sequence == hit.sequence,
        f.spec_confirm(hit) != f,
    ensures
        f.spec_confirm(hit).spec_confirm(again) == f.spec_confirm(hit),
{
}

} // verus!
