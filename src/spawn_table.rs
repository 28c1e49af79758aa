use vstd::prelude::*;

use crate::error::ExtractError;
use crate::rom::Rom;

verus! {

/// Address of the spawn script.
pub const SPAWN_TABLE_ADDR: usize = 0xD30D;

/// Length of the spawn script window.
pub const SPAWN_TABLE_LEN: usize = 0x100;

/// One entry of the spawn script.
#[derive(Clone, Copy, Debug, PartialEq, Eq, Structural, Hash)]
pub enum SpawnTableEntry {
    /// A label: the position right after the mark byte.
    Mark(u8),
    /// A jump to a label.
    Jump(u8),
    /// An object to spawn; `combi` when it joins the object before it.
    Spawn { object_id: u8, combi: bool, boss: bool },
}

/// The spawn entry of a byte other than the mark and jump bytes.
pub open spec fn spawn_of(b: u8) -> SpawnTableEntry {
    SpawnTableEntry::Spawn { object_id: b & 0x3F, combi: b & 0x80 == 0, boss: b & 0x40 != 0 }
}

/// The entries of the script window `w` from `pos` on, after the entries
/// `acc`. 0xFF is a mark, 0x00 a jump whose target is the next byte, any other
/// byte a spawn. Fails, with the code-region offset past the window, where a
/// mark's label or a jump's target would lie past the window.
pub open spec fn spawn_entries_from(w: Seq<u8>, pos: int, acc: Seq<SpawnTableEntry>) -> Result<
    Seq<SpawnTableEntry>,
    ExtractError,
>
    decreases w.len() - pos,
{
    if pos < 0 || pos >= w.len() {
        Ok(acc)
    } else if w[pos] == 0xFF {
        if pos + 1 >= w.len() {
            Err(ExtractError::Overrun((SPAWN_TABLE_ADDR - 0x8000 + w.len()) as usize))
        } else {
            spawn_entries_from(w, pos + 1, acc.push(SpawnTableEntry::Mark((pos + 1) as u8)))
        }
    } else if w[pos] == 0x00 {
        if pos + 1 >= w.len() {
            Err(ExtractError::Overrun((SPAWN_TABLE_ADDR - 0x8000 + w.len()) as usize))
        } else {
            spawn_entries_from(w, pos + 2, acc.push(SpawnTableEntry::Jump(w[pos + 1])))
        }
    } else {
        spawn_entries_from(w, pos + 1, acc.push(spawn_of(w[pos])))
    }
}

/// The script window of the code region.
pub open spec fn spawn_window(prg: Seq<u8>) -> Seq<u8> {
    prg.subrange(SPAWN_TABLE_ADDR - 0x8000, SPAWN_TABLE_ADDR - 0x8000 + SPAWN_TABLE_LEN)
}

/// Decodes the spawn script, one forward pass over its fixed window.
pub fn load_spawn_table(rom: &Rom) -> (r: Result<Vec<SpawnTableEntry>, ExtractError>)
    requires
        rom.wf(),
    ensures
        match r {
            Ok(v) => spawn_entries_from(spawn_window(rom.prg@), 0, seq![]) == Ok::<
                Seq<SpawnTableEntry>,
                ExtractError,
            >(v@),
            Err(e) => spawn_entries_from(spawn_window(rom.prg@), 0, seq![]) == Err::<
                Seq<SpawnTableEntry>,
                ExtractError,
            >(e),
        },
{
    let base: usize = SPAWN_TABLE_ADDR - 0x8000;
    let ghost w = spawn_window(rom.prg@);
    let mut res: Vec<SpawnTableEntry> = Vec::new();
    let mut offset: usize = 0;
    while offset < SPAWN_TABLE_LEN
        invariant
            rom.wf(),
            w == spawn_window(rom.prg@),
            base == SPAWN_TABLE_ADDR - 0x8000,
            offset <= SPAWN_TABLE_LEN,
            spawn_entries_from(w, 0, seq![]) == spawn_entries_from(w, offset as int, res@),
        decreases SPAWN_TABLE_LEN - offset,
    {
        let b = rom.prg[base + offset];
        assert(b == w[offset as int]);
        if b == 0xFF {
            if offset + 1 >= SPAWN_TABLE_LEN {
                return Err(ExtractError::Overrun(base + SPAWN_TABLE_LEN));
            }
            res.push(SpawnTableEntry::Mark((offset + 1) as u8));
            offset = offset + 1;
        } else if b == 0x00 {
            if offset + 1 >= SPAWN_TABLE_LEN {
                return Err(ExtractError::Overrun(base + SPAWN_TABLE_LEN));
            }
            let dst = rom.prg[base + offset + 1];
            res.push(SpawnTableEntry::Jump(dst));
            offset = offset + 2;
        } else {
            let object_id = b & 0x3F;
            let combi = (b & 0x80) == 0;
            let boss = (b & 0x40) != 0;
            res.push(SpawnTableEntry::Spawn { object_id, combi, boss });
            offset = offset + 1;
        }
    }
    Ok(res)
}

} // verus!
