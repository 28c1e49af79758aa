use vstd::prelude::*;

use crate::error::ExtractError;

verus! {

/// Length of the iNES header in front of the two regions.
pub const HEADER_SIZE: usize = 16;

/// Length of the code region (PRG ROM).
pub const PRG_SIZE: usize = 0x8000;

/// Length of the pattern region (CHR ROM).
pub const CHR_SIZE: usize = 0x8000;

/// The four bytes every accepted image starts with: "NES" and 0x1A.
pub open spec fn ines_magic() -> Seq<u8> {
    seq![0x4Eu8, 0x45u8, 0x53u8, 0x1Au8]
}

/// The little-endian 16-bit value stored at `off` in `s`.
pub open spec fn le16(s: Seq<u8>, off: int) -> int {
    s[off] as int + 256 * s[off + 1] as int
}

/// The two regions of a cartridge image.
#[derive(Debug)]
pub struct Rom {
    pub prg: Vec<u8>,
    pub chr: Vec<u8>,
}

impl Rom {
    /// Both regions have their fixed length.
    pub open spec fn wf(&self) -> bool {
        &&& self.prg@.len() == PRG_SIZE
        &&& self.chr@.len() == CHR_SIZE
    }

    /// Splits an iNES image into its code and pattern regions.
    pub fn from_ines_bytes(buf: &[u8]) -> (r: Result<Rom, ExtractError>)
        ensures
            buf@.len() != HEADER_SIZE + PRG_SIZE + CHR_SIZE ==> r == Err::<Rom, ExtractError>(
                ExtractError::SizeMismatch,
            ),
            buf@.len() == HEADER_SIZE + PRG_SIZE + CHR_SIZE && buf@.take(4) != ines_magic()
                ==> r == Err::<Rom, ExtractError>(ExtractError::MagicNotFound),
            r is Ok <==> buf@.len() == HEADER_SIZE + PRG_SIZE + CHR_SIZE && buf@.take(4)
                == ines_magic(),
            r matches Ok(rom) ==> {
                &&& rom.wf()
                &&& rom.prg@ == buf@.subrange(HEADER_SIZE as int, (HEADER_SIZE + PRG_SIZE) as int)
                &&& rom.chr@ == buf@.subrange(
                    (HEADER_SIZE + PRG_SIZE) as int,
                    (HEADER_SIZE + PRG_SIZE + CHR_SIZE) as int,
                )
            },
    {
        if buf.len() != HEADER_SIZE + PRG_SIZE + CHR_SIZE {
            return Err(ExtractError::SizeMismatch);
        }
        if !(buf[0] == 0x4E && buf[1] == 0x45 && buf[2] == 0x53 && buf[3] == 0x1A) {
            proof {
                assert(buf@.take(4) != ines_magic()) by {
                    if buf@.take(4) == ines_magic() {
                        assert(buf@.take(4)[0] == buf@[0]);
                        assert(buf@.take(4)[1] == buf@[1]);
                        assert(buf@.take(4)[2] == buf@[2]);
                        assert(buf@.take(4)[3] == buf@[3]);
                    }
                }
            }
            return Err(ExtractError::MagicNotFound);
        }
        assert(buf@.take(4) =~= ines_magic());
        let prg = copy_range(buf, HEADER_SIZE, PRG_SIZE);
        let chr = copy_range(buf, HEADER_SIZE + PRG_SIZE, CHR_SIZE);
        Ok(Rom { prg, chr })
    }
}

/// The `len` bytes of `buf` from `start`.
pub(crate) fn copy_range(buf: &[u8], start: usize, len: usize) -> (r: Vec<u8>)
    requires
        start + len <= buf@.len(),
        start + len <= usize::MAX,
    ensures
        r@ == buf@.subrange(start as int, start + len),
{
    let mut r: Vec<u8> = Vec::with_capacity(len);
    let mut i: usize = 0;
    while i < len
        invariant
            i <= len,
            start + len <= buf@.len(),
            start + len <= usize::MAX,
            r@ == buf@.subrange(start as int, start + i),
        decreases len - i,
    {
        r.push(buf[start + i]);
        i += 1;
        assert(r@ =~= buf@.subrange(start as int, start + i));
    }
    r
}

/// Maps a logical address of the code region to an offset into it.
pub fn prg_offset(addr: u16) -> (r: Result<usize, ExtractError>)
    ensures
        r is Ok <==> 0x8000 <= addr,
        r matches Ok(off) ==> off < PRG_SIZE && off + 0x8000 == addr,
        r is Err ==> r == Err::<usize, ExtractError>(ExtractError::AddressOutOfRange(addr)),
{
    if addr >= 0x8000 {
        Ok((addr - 0x8000) as usize)
    } else {
        Err(ExtractError::AddressOutOfRange(addr))
    }
}

/// Reads the little-endian 16-bit value at `off`.
pub(crate) fn read_u16_le(buf: &Vec<u8>, off: usize) -> (r: u16)
    requires
        off + 1 < buf.len(),
    ensures
        r as int == le16(buf@, off as int),
{
    buf[off] as u16 + 256 * (buf[off + 1] as u16)
}

} // verus!
