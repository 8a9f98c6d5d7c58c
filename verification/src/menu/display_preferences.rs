use vstd::prelude::*;

use crate::wire::{le_u32, lemma_u32_after, lemma_u32_at, u32_at};

verus! {

/// Version byte that starts every saved preference record.
pub const VERSION: u8 = 1;

/// Length of a saved preference record.
pub const ENCODED_LEN: usize = 10;

/// Resolution and window mode chosen in the settings screen.
#[derive(Debug, Clone, Copy, PartialEq, Eq, Structural)]
pub struct DisplayPreferences {
    pub width: u32,
    pub height: u32,
    pub fullscreen: bool,
}

impl Default for DisplayPreferences {
    fn default() -> (r: DisplayPreferences)
        ensures
            r == (DisplayPreferences { width: 800, height: 600, fullscreen: false }),
    {
        DisplayPreferences { width: 800, height: 600, fullscreen: false }
    }
}

impl DisplayPreferences {
    /// The saved record: version, little-endian width and height, and the
    /// fullscreen flag as `0` or `1`.
    pub open spec fn spec_encode(self) -> Seq<u8> {
        seq![VERSION] + le_u32(self.width) + le_u32(self.height) + seq![
            if self.fullscreen {
                1u8
            } else {
                0u8
            },
        ]
    }

    /// The preferences a saved record holds, if it is a well-formed record
    /// of this version with a nonzero size.
    pub open spec fn spec_decode(b: Seq<u8>) -> Option<DisplayPreferences> {
        if b.len() != ENCODED_LEN || b[0] != VERSION || b[9] > 1 {
            None
        } else if u32_at(b, 1) == 0 || u32_at(b, 5) == 0 {
            None
        } else {
            Some(
                DisplayPreferences {
                    width: u32_at(b, 1),
                    height: u32_at(b, 5),
                    fullscreen: b[9] == 1,
                },
            )
        }
    }

    pub fn encode(self) -> (r: [u8; 10])
        ensures
            r@ == self.spec_encode(),
    {
        let (w, h) = (self.width, self.height);
        let r = [
            VERSION,
            (w % 0x100) as u8,
            ((w / 0x100) % 0x100) as u8,
            ((w / 0x1_0000) % 0x100) as u8,
            (w / 0x100_0000) as u8,
            (h % 0x100) as u8,
            ((h / 0x100) % 0x100) as u8,
            ((h / 0x1_0000) % 0x100) as u8,
            (h / 0x100_0000) as u8,
            if self.fullscreen {
                1u8
            } else {
                0u8
            },
        ];
        assert(r@ =~= self.spec_encode());
        r
    }

    pub fn decode(bytes: &[u8]) -> (r: Option<DisplayPreferences>)
        ensures
            r == DisplayPreferences::spec_decode(bytes@),
    {
        if bytes.len() != ENCODED_LEN || bytes[0] != VERSION || bytes[9] > 1 {
            return None;
        }
        let width: u32 = bytes[1] as u32 + 0x100 * (bytes[2] as u32) + 0x1_0000 * (bytes[3] as u32)
            + 0x100_0000 * (bytes[4] as u32);
        let height: u32 = bytes[5] as u32 + 0x100 * (bytes[6] as u32) + 0x1_0000 * (
        bytes[7] as u32) + 0x100_0000 * (bytes[8] as u32);
        if width == 0 || height == 0 {
            return None;
        }
        Some(DisplayPreferences { width, height, fullscreen: bytes[9] == 1 })
    }
}

/// Preferences with a nonzero size survive saving; every record that loads
/// is exactly the saved form of what it loads as.
pub proof fn lemma_display_preferences_codec(p: DisplayPreferences, b: Seq<u8>)
    ensures
        p.width != 0 && p.height != 0 ==> DisplayPreferences::spec_decode(p.spec_encode()) == Some(
            p,
        ),
        p.width == 0 || p.height == 0 ==> DisplayPreferences::spec_decode(p.spec_encode()) is None,
        DisplayPreferences::spec_decode(b) is Some ==> b == DisplayPreferences::spec_decode(
            b,
        )->Some_0.spec_encode(),
{
    let e = p.spec_encode();
    let f = seq![if p.fullscreen { 1u8 } else { 0u8 }];
    lemma_u32_after(seq![VERSION], p.width, le_u32(p.height) + f);
    assert(e =~= seq![VERSION] + le_u32(p.width) + (le_u32(p.height) + f));
    lemma_u32_after(seq![VERSION] + le_u32(p.width), p.height, f);
    if DisplayPreferences::spec_decode(b) is Some {
        lemma_u32_at(b, 1);
        lemma_u32_at(b, 5);
        assert(b =~= DisplayPreferences::spec_decode(b)->Some_0.spec_encode());
    }
}

} // verus!
