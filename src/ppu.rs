use vstd::prelude::*;

use crate::error::ExtractError;

verus! {

/// Number of entries of the master color table.
pub const COLOR_COUNT: u8 = 0x40;

/// The first color id of `s[..4]` outside the master table, if any.
pub open spec fn first_bad_color(s: Seq<u8>) -> Option<u8> {
    if s[0] >= COLOR_COUNT {
        Some(s[0])
    } else if s[1] >= COLOR_COUNT {
        Some(s[1])
    } else if s[2] >= COLOR_COUNT {
        Some(s[2])
    } else if s[3] >= COLOR_COUNT {
        Some(s[3])
    } else {
        None
    }
}

/// Four color ids of the master table.
#[derive(Clone, Copy, Debug, PartialEq, Eq)]
pub struct Palette(pub [u8; 4]);

impl Palette {
    pub fn new(color_ids: [u8; 4]) -> (r: Self)
        requires
            forall|k: int| 0 <= k < 4 ==> #[trigger] color_ids@[k] < COLOR_COUNT,
        ensures
            r.0 == color_ids,
    {
        Palette(color_ids)
    }

    /// The palette of the first four bytes of `buf`; fails on the first byte
    /// that is no color id.
    pub fn from_bytes(buf: &[u8]) -> (r: Result<Self, ExtractError>)
        requires
            buf@.len() >= 4,
        ensures
            r is Ok <==> first_bad_color(buf@) is None,
            r matches Ok(p) ==> p.0@ == buf@.take(4),
            r matches Err(e) ==> first_bad_color(buf@) == Some(e->InvalidColor_0) && e is InvalidColor,
    {
        let mut k: usize = 0;
        while k < 4
            invariant
                buf@.len() >= 4,
                k <= 4,
                forall|j: int| 0 <= j < k ==> buf@[j] < COLOR_COUNT,
            decreases 4 - k,
        {
            if buf[k] >= COLOR_COUNT {
                return Err(ExtractError::InvalidColor(buf[k]));
            }
            k += 1;
        }
        let ids = [buf[0], buf[1], buf[2], buf[3]];
        assert(ids@ =~= buf@.take(4));
        Ok(Palette::new(ids))
    }
}

/// An 8x8 pattern in the two-plane format: eight bytes of low bits, then
/// eight of high bits.
#[derive(Clone, Debug, PartialEq, Eq)]
pub struct Tile(pub [u8; 16]);

impl Tile {
    pub fn new(pattern: [u8; 16]) -> (r: Self)
        ensures
            r.0 == pattern,
    {
        Tile(pattern)
    }

    /// The tile of the first sixteen bytes of `buf`.
    pub fn from_bytes(buf: &[u8]) -> (r: Self)
        requires
            buf@.len() >= 16,
        ensures
            r.0@ == buf@.take(16),
    {
        let pattern = [
            buf[0],
            buf[1],
            buf[2],
            buf[3],
            buf[4],
            buf[5],
            buf[6],
            buf[7],
            buf[8],
            buf[9],
            buf[10],
            buf[11],
            buf[12],
            buf[13],
            buf[14],
            buf[15],
        ];
        assert(pattern@ =~= buf@.take(16));
        Tile::new(pattern)
    }
}

/// The attribute byte of a sprite.
#[derive(Clone, Copy, Debug, PartialEq, Eq)]
pub struct SpriteAttribute(pub u8);

impl SpriteAttribute {
    pub fn from_byte(byte: u8) -> (r: Self)
        ensures
            r.0 == byte,
    {
        SpriteAttribute(byte)
    }

    /// Bits 0 and 1: which of the four sprite palettes.
    pub fn palette_index(self) -> (r: u8)
        ensures
            r == self.0 & 3,
            r < 4,
    {
        let b = self.0;
        assert(b & 3 < 4) by (bit_vector);
        b & 3
    }

    /// Bit 5: drawn behind the background.
    pub fn is_behind(self) -> (r: bool)
        ensures
            r == (self.0 & 0x20 != 0),
    {
        (self.0 & 0x20) != 0
    }

    /// Bit 6: mirrored left to right.
    pub fn is_flipped_horizontal(self) -> (r: bool)
        ensures
            r == (self.0 & 0x40 != 0),
    {
        (self.0 & 0x40) != 0
    }

    /// Bit 7: mirrored top to bottom.
    pub fn is_flipped_vertical(self) -> (r: bool)
        ensures
            r == (self.0 & 0x80 != 0),
    {
        (self.0 & 0x80) != 0
    }
}

} // verus!
