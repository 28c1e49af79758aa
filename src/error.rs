use vstd::prelude::*;

verus! {

/// Every way in which decoding a cartridge image can fail.
#[derive(Clone, Copy, Debug, PartialEq, Eq, Structural)]
pub enum ExtractError {
    /// The image is not exactly header + code region + pattern region long.
    SizeMismatch,
    /// The image does not start with the iNES marker.
    MagicNotFound,
    /// A logical address below the code region.
    AddressOutOfRange(u16),
    /// A read past the end of the data; holds the code-region offset where
    /// the structure being read starts, or the offset that lies past the end.
    Overrun(usize),
    /// A script blob pointer lies beyond the next slot's parameter pointer.
    NegativeBlobLength(u8),
    /// A palette byte names a color outside the 64-entry master palette.
    InvalidColor(u8),
    /// A stage configuration names a ground palette that does not exist.
    InvalidPaletteId(u8),
    /// A tune configuration byte has reserved bits set.
    InvalidMusicConfig(u8),
    /// A track byte that is no opcode, at this address.
    InvalidOpcode(u16, u8),
    /// A note or rest before any note length was set, at this address.
    LengthUnset(u16),
    /// A loop start inside a loop, at this address.
    NestedLoop(u16),
    /// A loop end outside any loop, at this address.
    NotInLoop(u16),
    /// A track terminator inside a loop, at this address.
    UnclosedLoop(u16),
    /// A note length of zero, at this address.
    ZeroLength(u16),
    /// A loop count of zero, at this address.
    ZeroLoopCount(u16),
    /// A track without terminator ran past the length of the first track.
    DurationOverrun(u16),
    /// A track to be written holds a note or rest before any note length.
    TrackLengthUnset,
    /// A track to be written holds a note value above 11.
    InvalidNote(u8),
    /// The three tracks of a tune differ in total length; holds the tune id.
    DurationMismatch(u8),
}

} // verus!
