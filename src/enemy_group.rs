use vstd::prelude::*;

use crate::error::ExtractError;
use crate::rom::{copy_range, le16, prg_offset, read_u16_le, Rom, PRG_SIZE};

verus! {

/// Number of enemy slots.
pub const ENEMY_GROUP_COUNT: usize = 30;

/// Address of the behavior flag byte of each slot.
pub const ENEMY_ATTR_ADDR: usize = 0xC7C5;

/// Address of the difficulty byte of each slot.
pub const ENEMY_DIFFICULTY_ADDR: usize = 0xC7E5;

/// Address of the parameter block address of each slot.
pub const ENEMY_PARAM_PTR_ADDR: usize = 0xC804;

/// Script blob length of the last slot, which no next pointer bounds.
pub const LAST_BLOB_LEN: usize = 0xCA;

/// Bytes of a parameter block before its entrypoints.
pub const PARAM_HEADER_LEN: usize = 7;

/// One enemy kind: its behavior flags, difficulty, start position, sprites,
/// spawning, and script.
#[derive(Clone, Debug)]
pub struct EnemyGroup {
    pub id: u8,
    pub sprite_idx_base: u8,
    pub difficulty: u8,
    pub shot_with_rank: bool,
    pub accel_shot_with_rank: bool,
    pub homing_shot_with_rank: bool,
    pub extra_act_with_rank: bool,
    pub accel_with_rank: bool,
    pub x_ini: u8,
    pub y_ini: u8,
    pub bytecode: Option<Vec<u8>>,
    pub spawn_interval: u8,
    pub spawn_count: u8,
    pub entrypoints: Vec<u8>,
}

/// The parameter block address of slot `i`.
pub open spec fn param_ptr(prg: Seq<u8>, i: int) -> int {
    le16(prg, ENEMY_PARAM_PTR_ADDR - 0x8000 + 2 * i)
}

/// The script blob pointer at the start of the parameter block of slot `i`
/// (whose address must lie in the code region).
pub open spec fn blob_ptr(prg: Seq<u8>, i: int) -> int {
    le16(prg, param_ptr(prg, i) - 0x8000)
}

/// The inferred blob length of slot `i`: fixed for the last slot, else the
/// distance from its blob to the next slot's parameter block.
pub open spec fn blob_len(prg: Seq<u8>, i: int) -> int {
    if i == ENEMY_GROUP_COUNT - 1 {
        LAST_BLOB_LEN as int
    } else {
        param_ptr(prg, i + 1) - blob_ptr(prg, i)
    }
}

/// The error that decoding slot `i` stops at, if any: its parameter block
/// out of the code region or cut by its end, a negative blob length, a blob
/// cut by the end of the region, or entrypoints cut by it.
pub open spec fn enemy_group_error(prg: Seq<u8>, i: int) -> Option<ExtractError> {
    let pp = param_ptr(prg, i);
    let po = pp - 0x8000;
    if pp < 0x8000 {
        Some(ExtractError::AddressOutOfRange(pp as u16))
    } else if po + PARAM_HEADER_LEN > PRG_SIZE {
        Some(ExtractError::Overrun(po as usize))
    } else if blob_ptr(prg, i) >= 0x8000 && blob_len(prg, i) < 0 {
        Some(ExtractError::NegativeBlobLength(i as u8))
    } else if blob_ptr(prg, i) >= 0x8000 && blob_ptr(prg, i) - 0x8000 + blob_len(prg, i)
        > PRG_SIZE {
        Some(ExtractError::Overrun((blob_ptr(prg, i) - 0x8000) as usize))
    } else if po + PARAM_HEADER_LEN + prg[po + 6] > PRG_SIZE {
        Some(ExtractError::Overrun(po as usize))
    } else {
        None
    }
}

/// `g` is slot `i` as the code region `prg` gives it.
pub open spec fn enemy_group_matches(g: EnemyGroup, prg: Seq<u8>, i: int) -> bool {
    let attr = prg[ENEMY_ATTR_ADDR - 0x8000 + i];
    let po = param_ptr(prg, i) - 0x8000;
    &&& g.id == i + 1
    &&& g.shot_with_rank == (attr & 0x01 != 0)
    &&& g.accel_shot_with_rank == (attr & 0x02 != 0)
    &&& g.homing_shot_with_rank == (attr & 0x04 != 0)
    &&& g.extra_act_with_rank == (attr & 0x08 != 0)
    &&& g.accel_with_rank == (attr & 0x10 != 0)
    &&& g.difficulty == prg[ENEMY_DIFFICULTY_ADDR - 0x8000 + i]
    &&& g.x_ini == prg[po + 2]
    &&& g.y_ini == prg[po + 3]
    &&& g.sprite_idx_base == prg[po + 4]
    &&& g.spawn_interval == prg[po + 5]
    &&& g.spawn_count == prg[po + 6]
    &&& g.entrypoints@ == prg.subrange(po + 7, po + 7 + prg[po + 6])
    &&& (g.bytecode is Some <==> blob_ptr(prg, i) >= 0x8000)
    &&& (g.bytecode matches Some(b) ==> b@ == prg.subrange(
        blob_ptr(prg, i) - 0x8000,
        blob_ptr(prg, i) - 0x8000 + blob_len(prg, i),
    ))
}

/// Reads the parameter block address of every slot.
fn load_enemy_group_param_ptrs(rom: &Rom) -> (r: Vec<u16>)
    requires
        rom.wf(),
    ensures
        r@.len() == ENEMY_GROUP_COUNT,
        forall|i: int| 0 <= i < ENEMY_GROUP_COUNT ==> #[trigger] r@[i] as int == param_ptr(rom.prg@, i),
{
    let mut v: Vec<u16> = Vec::with_capacity(ENEMY_GROUP_COUNT);
    let mut i: usize = 0;
    while i < ENEMY_GROUP_COUNT
        invariant
            rom.wf(),
            i <= ENEMY_GROUP_COUNT,
            v@.len() == i,
            forall|j: int| 0 <= j < i ==> #[trigger] v@[j] as int == param_ptr(rom.prg@, j),
        decreases ENEMY_GROUP_COUNT - i,
    {
        v.push(read_u16_le(&rom.prg, ENEMY_PARAM_PTR_ADDR - 0x8000 + 2 * i));
        i += 1;
    }
    v
}

/// Decodes slot `i`.
fn load_enemy_group(rom: &Rom, param_ptrs: &Vec<u16>, i: usize) -> (r: Result<
    EnemyGroup,
    ExtractError,
>)
    requires
        rom.wf(),
        i < ENEMY_GROUP_COUNT,
        param_ptrs@.len() == ENEMY_GROUP_COUNT,
        forall|j: int|
            0 <= j < ENEMY_GROUP_COUNT ==> #[trigger] param_ptrs@[j] as int == param_ptr(
                rom.prg@,
                j,
            ),
    ensures
        r is Ok <==> enemy_group_error(rom.prg@, i as int) is None,
        r matches Ok(g) ==> enemy_group_matches(g, rom.prg@, i as int),
        r matches Err(e) ==> enemy_group_error(rom.prg@, i as int) == Some(e),
{
    let ghost prg = rom.prg@;
    let attr = rom.prg[ENEMY_ATTR_ADDR - 0x8000 + i];
    let difficulty = rom.prg[ENEMY_DIFFICULTY_ADDR - 0x8000 + i];
    let pp = param_ptrs[i];
    assert(pp as int == param_ptr(prg, i as int));
    let po = match prg_offset(pp) {
        Ok(o) => o,
        Err(e) => {
            return Err(e);
        },
    };
    if po + PARAM_HEADER_LEN > PRG_SIZE {
        return Err(ExtractError::Overrun(po));
    }
    let bytecode_ptr = read_u16_le(&rom.prg, po);
    assert(bytecode_ptr as int == blob_ptr(prg, i as int));
    let bytecode = if bytecode_ptr >= 0x8000 {
        let len: usize = if i == ENEMY_GROUP_COUNT - 1 {
            LAST_BLOB_LEN
        } else {
            let next = param_ptrs[i + 1];
            assert(next as int == param_ptr(prg, i + 1));
            if next < bytecode_ptr {
                return Err(ExtractError::NegativeBlobLength(i as u8));
            }
            (next - bytecode_ptr) as usize
        };
        let bo = (bytecode_ptr - 0x8000) as usize;
        if bo + len > PRG_SIZE {
            return Err(ExtractError::Overrun(bo));
        }
        Some(copy_range(rom.prg.as_slice(), bo, len))
    } else {
        None
    };
    let spawn_count = rom.prg[po + 6];
    if po + PARAM_HEADER_LEN + spawn_count as usize > PRG_SIZE {
        return Err(ExtractError::Overrun(po));
    }
    let entrypoints = copy_range(rom.prg.as_slice(), po + PARAM_HEADER_LEN, spawn_count as usize);
    Ok(
        EnemyGroup {
            id: (i + 1) as u8,
            sprite_idx_base: rom.prg[po + 4],
            difficulty,
            shot_with_rank: (attr & 0x01) != 0,
            accel_shot_with_rank: (attr & 0x02) != 0,
            homing_shot_with_rank: (attr & 0x04) != 0,
            extra_act_with_rank: (attr & 0x08) != 0,
            accel_with_rank: (attr & 0x10) != 0,
            x_ini: rom.prg[po + 2],
            y_ini: rom.prg[po + 3],
            bytecode,
            spawn_interval: rom.prg[po + 5],
            spawn_count,
            entrypoints,
        },
    )
}

/// Decodes every enemy slot. A slot has a script blob exactly when its blob
/// pointer is a code-region address; its length is fixed for the last slot
/// and, for every other, the distance from the blob to the next slot's
/// parameter block, which must not be negative.
pub fn load_enemy_groups(rom: &Rom) -> (r: Result<Vec<EnemyGroup>, ExtractError>)
    requires
        rom.wf(),
    ensures
        r is Ok <==> forall|i: int|
            0 <= i < ENEMY_GROUP_COUNT ==> (#[trigger] enemy_group_error(rom.prg@, i)) is None,
        r matches Ok(v) ==> {
            &&& v@.len() == ENEMY_GROUP_COUNT
            &&& forall|i: int|
                0 <= i < ENEMY_GROUP_COUNT ==> enemy_group_matches(#[trigger] v@[i], rom.prg@, i)
            &&& (v@[ENEMY_GROUP_COUNT - 1].bytecode matches Some(b) ==> b@.len() == LAST_BLOB_LEN)
            &&& forall|i: int|
                0 <= i < ENEMY_GROUP_COUNT - 1 ==> ((#[trigger] v@[i]).bytecode matches Some(b)
                    ==> b@.len() == param_ptr(rom.prg@, i + 1) - blob_ptr(rom.prg@, i))
        },
        r matches Err(e) ==> exists|i: int|
            0 <= i < ENEMY_GROUP_COUNT && #[trigger] enemy_group_error(rom.prg@, i) == Some(e)
                && forall|j: int| 0 <= j < i ==> (#[trigger] enemy_group_error(rom.prg@, j)) is None,
{
    let param_ptrs = load_enemy_group_param_ptrs(rom);
    let mut v: Vec<EnemyGroup> = Vec::with_capacity(ENEMY_GROUP_COUNT);
    let mut i: usize = 0;
    while i < ENEMY_GROUP_COUNT
        invariant
            rom.wf(),
            i <= ENEMY_GROUP_COUNT,
            param_ptrs@.len() == ENEMY_GROUP_COUNT,
            forall|j: int|
                0 <= j < ENEMY_GROUP_COUNT ==> #[trigger] param_ptrs@[j] as int == param_ptr(
                    rom.prg@,
                    j,
                ),
            v@.len() == i,
            forall|j: int| 0 <= j < i ==> (#[trigger] enemy_group_error(rom.prg@, j)) is None,
            forall|j: int| 0 <= j < i ==> enemy_group_matches(#[trigger] v@[j], rom.prg@, j),
        decreases ENEMY_GROUP_COUNT - i,
    {
        match load_enemy_group(rom, &param_ptrs, i) {
            Ok(g) => v.push(g),
            Err(e) => {
                return Err(e);
            },
        }
        i += 1;
    }
    proof {
        assert forall|i: int| 0 <= i < ENEMY_GROUP_COUNT - 1 && (#[trigger] v@[i]).bytecode is Some implies v@[i].bytecode->Some_0@.len() == param_ptr(rom.prg@, i + 1) - blob_ptr(rom.prg@, i) by {
            assert(enemy_group_matches(v@[i], rom.prg@, i));
            assert(enemy_group_error(rom.prg@, i) is None);
        }
        assert(enemy_group_matches(v@[ENEMY_GROUP_COUNT - 1], rom.prg@, ENEMY_GROUP_COUNT - 1));
        assert(enemy_group_error(rom.prg@, ENEMY_GROUP_COUNT - 1) is None);
    }
    Ok(v)
}

} // verus!
