use vstd::prelude::*;

use crate::error::ExtractError;
use crate::ground::{
    load_ground_cells, rows_full, rows_view, stages_cells, stages_full, stages_view, HALF_ROWS, ROW_WIDTH,
    STAGE_COUNT,
};
use crate::ppu::{first_bad_color, Palette, SpriteAttribute, Tile};
use crate::rom::{copy_range, le16, prg_offset, read_u16_le, Rom, PRG_SIZE};

verus! {

/// Cell of a zeg (a ground enemy) before it is uncovered.
pub const CELL_ZEG_INI: u8 = 0x08;

/// Cell of a trap.
pub const CELL_TRAP: u8 = 0x96;

/// Largest cell id.
pub const CELL_MAX: u8 = 0x96;

/// Largest meta-sprite id.
pub const META_SPRITE_MAX: u8 = 0x8F;

/// Address of the table of each stage's secret list address.
pub const GROUND_SECRETS_PTR_ADDR: usize = 0xD5B9;

/// Address of the two configuration records of each stage.
pub const GROUND_CONFIG_ADDR: usize = 0xD48D;

/// Address of the ground palettes.
pub const GROUND_PALETTE_ADDR: usize = 0xD50D;

/// Number of ground palettes.
pub const GROUND_PALETTE_COUNT: usize = 43;

/// Address of the four sprite palettes.
pub const SPRITE_PALETTE_ADDR: usize = 0xB143;

/// Number of sprite palettes.
pub const SPRITE_PALETTE_COUNT: usize = 4;

/// Address of the four tile ids of each cell.
pub const CELL_TILES_ADDR: usize = 0xD6B0;

/// Address of the palette index of each cell.
pub const CELL_PALETTE_ADDR: usize = 0xD619;

/// Address of the (tile, attribute) pairs of each meta-sprite.
pub const META_SPRITE_ADDR: usize = 0xC344;

/// Number of tiles in the pattern region.
pub const TILE_COUNT: usize = 0x800;

/// A hidden cell of a stage: its row, its column and what it holds.
#[derive(Clone, Copy, Debug, PartialEq, Eq, Structural)]
pub struct GroundSecret {
    pub r: u8,
    pub c: u8,
    pub cell: u8,
}

impl GroundSecret {
    pub fn new(r: u8, c: u8, cell: u8) -> (s: Self)
        ensures
            s == (GroundSecret { r, c, cell }),
    {
        GroundSecret { r, c, cell }
    }

    pub fn r(&self) -> (v: u8)
        ensures
            v == self.r,
    {
        self.r
    }

    pub fn c(&self) -> (v: u8)
        ensures
            v == self.c,
    {
        self.c
    }

    pub fn cell(&self) -> (v: u8)
        ensures
            v == self.cell,
    {
        self.cell
    }
}

/// The secret that the two bytes `r`, `b` of a secret list describe: the
/// column in the low five bits of `b`, the content in its top three.
pub open spec fn secret_of(r: u8, b: u8) -> GroundSecret {
    GroundSecret { r, c: b & 0x1F, cell: b >> 5u8 }
}

/// The secret list at offset `pos` of `data`, after the secrets `acc`: pairs
/// of bytes up to a row byte of zero. Nothing when the data ends first.
pub open spec fn secrets_from(data: Seq<u8>, pos: int, acc: Seq<GroundSecret>) -> Option<
    Seq<GroundSecret>,
>
    decreases data.len() - pos,
{
    if pos < 0 || pos >= data.len() {
        None
    } else if data[pos] == 0 {
        Some(acc)
    } else if pos + 1 >= data.len() {
        None
    } else {
        secrets_from(data, pos + 2, acc.push(secret_of(data[pos], data[pos + 1])))
    }
}

/// Reads the secret list that starts at offset `start` of `data`.
pub fn load_ground_secrets_one(data: &Vec<u8>, start: usize) -> (r: Result<
    Vec<GroundSecret>,
    ExtractError,
>)
    ensures
        match r {
            Ok(v) => secrets_from(data@, start as int, seq![]) == Some(v@),
            Err(e) => secrets_from(data@, start as int, seq![]) is None && e
                == ExtractError::Overrun(start),
        },
{
    let mut secrets: Vec<GroundSecret> = Vec::new();
    let mut pos: usize = start;
    assert(data@.len() == data.len());
    loop
        invariant
            start <= pos,
            data@.len() <= usize::MAX,
            secrets_from(data@, start as int, seq![]) == secrets_from(data@, pos as int, secrets@),
        decreases data@.len() - pos,
    {
        if pos >= data.len() {
            return Err(ExtractError::Overrun(start));
        }
        let r = data[pos];
        if r == 0 {
            return Ok(secrets);
        }
        if pos + 1 >= data.len() {
            return Err(ExtractError::Overrun(start));
        }
        let byte = data[pos + 1];
        secrets.push(GroundSecret::new(r, byte & 0x1F, byte >> 5));
        pos = pos + 2;
    }
}

/// The address of the secret list of stage `s` (0-based).
pub open spec fn stage_secrets_addr(prg: Seq<u8>, s: int) -> int {
    le16(prg, GROUND_SECRETS_PTR_ADDR - 0x8000 + 2 * s)
}

/// The secrets of stage `s` (0-based).
pub open spec fn stage_secrets(prg: Seq<u8>, s: int) -> Result<Seq<GroundSecret>, ExtractError> {
    let a = stage_secrets_addr(prg, s);
    if a < 0x8000 {
        Err(ExtractError::AddressOutOfRange(a as u16))
    } else {
        match secrets_from(prg, a - 0x8000, seq![]) {
            Some(v) => Ok(v),
            None => Err(ExtractError::Overrun((a - 0x8000) as usize)),
        }
    }
}

/// Reads the secrets of every stage.
pub fn load_ground_secrets(rom: &Rom) -> (r: Result<Vec<Vec<GroundSecret>>, ExtractError>)
    requires
        rom.wf(),
    ensures
        r is Ok <==> forall|s: int| 0 <= s < STAGE_COUNT ==> (#[trigger] stage_secrets(rom.prg@, s)) is Ok,
        r matches Ok(v) ==> v@.len() == STAGE_COUNT && forall|s: int|
            0 <= s < STAGE_COUNT ==> stage_secrets(rom.prg@, s) == Ok::<
                Seq<GroundSecret>,
                ExtractError,
            >((#[trigger] v@[s])@),
        r matches Err(e) ==> exists|s: int|
            0 <= s < STAGE_COUNT && (#[trigger] stage_secrets(rom.prg@, s)) == Err::<
                Seq<GroundSecret>,
                ExtractError,
            >(e) && forall|j: int| 0 <= j < s ==> stage_secrets(rom.prg@, j) is Ok,
{
    let mut v: Vec<Vec<GroundSecret>> = Vec::with_capacity(STAGE_COUNT);
    let mut s: usize = 0;
    while s < STAGE_COUNT
        invariant
            rom.wf(),
            s <= STAGE_COUNT,
            v@.len() == s,
            forall|j: int| 0 <= j < s ==> (#[trigger] stage_secrets(rom.prg@, j)) is Ok,
            forall|j: int|
                0 <= j < s ==> stage_secrets(rom.prg@, j) == Ok::<Seq<GroundSecret>, ExtractError>(
                    (#[trigger] v@[j])@,
                ),
        decreases STAGE_COUNT - s,
    {
        let ptr = read_u16_le(&rom.prg, GROUND_SECRETS_PTR_ADDR - 0x8000 + 2 * s);
        let start = match prg_offset(ptr) {
            Ok(o) => o,
            Err(e) => {
                assert(stage_secrets(rom.prg@, s as int) == Err::<Seq<GroundSecret>, ExtractError>(e));
                return Err(e);
            },
        };
        let secrets = match load_ground_secrets_one(&rom.prg, start) {
            Ok(x) => x,
            Err(e) => {
                assert(stage_secrets(rom.prg@, s as int) == Err::<Seq<GroundSecret>, ExtractError>(e));
                return Err(e);
            },
        };
        v.push(secrets);
        s += 1;
    }
    Ok(v)
}

/// How one half of a stage is drawn: four ground palette ids, and whether
/// its two column halves are swapped.
#[derive(Clone, Copy, Debug, PartialEq, Eq)]
pub struct GroundConfig {
    pub palette_ids: [u8; 4],
    pub is_rotated: bool,
}

/// `cfg` is the configuration record of the four bytes of `s`: the rotation
/// flag in bit 7 of the first, a palette id in the low six bits of each.
pub open spec fn config_matches(cfg: GroundConfig, s: Seq<u8>) -> bool {
    &&& cfg.is_rotated == (s[0] & 0x80 != 0)
    &&& forall|k: int| 0 <= k < 4 ==> #[trigger] cfg.palette_ids@[k] == s[k] & 0x3F
}

impl GroundConfig {
    pub fn new(palette_ids: [u8; 4], is_rotated: bool) -> (r: Self)
        ensures
            r.palette_ids == palette_ids,
            r.is_rotated == is_rotated,
    {
        GroundConfig { palette_ids, is_rotated }
    }

    /// The configuration record of the first four bytes of `buf`.
    pub fn from_bytes(buf: &[u8]) -> (r: Self)
        requires
            buf@.len() >= 4,
        ensures
            config_matches(r, buf@),
    {
        let is_rotated = (buf[0] & 0x80) != 0;
        let palette_ids = [buf[0] & 0x3F, buf[1] & 0x3F, buf[2] & 0x3F, buf[3] & 0x3F];
        GroundConfig::new(palette_ids, is_rotated)
    }

    pub fn palette_ids(&self) -> (r: &[u8; 4])
        ensures
            *r == self.palette_ids,
    {
        &self.palette_ids
    }

    pub fn is_rotated(&self) -> (r: bool)
        ensures
            r == self.is_rotated,
    {
        self.is_rotated
    }
}

/// The four bytes of configuration record `h` of stage `s` (both 0-based).
pub open spec fn config_bytes(prg: Seq<u8>, s: int, h: int) -> Seq<u8> {
    let off = GROUND_CONFIG_ADDR - 0x8000 + 8 * s + 4 * h;
    prg.subrange(off, off + 4)
}

/// Reads the two configuration records of every stage.
pub fn load_ground_configs(rom: &Rom) -> (r: Vec<Vec<GroundConfig>>)
    requires
        rom.wf(),
    ensures
        r@.len() == STAGE_COUNT,
        forall|s: int|
            0 <= s < STAGE_COUNT ==> (#[trigger] r@[s])@.len() == 2 && config_matches(
                r@[s]@[0],
                config_bytes(rom.prg@, s, 0),
            ) && config_matches(r@[s]@[1], config_bytes(rom.prg@, s, 1)),
{
    let mut v: Vec<Vec<GroundConfig>> = Vec::with_capacity(STAGE_COUNT);
    let mut s: usize = 0;
    while s < STAGE_COUNT
        invariant
            rom.wf(),
            s <= STAGE_COUNT,
            v@.len() == s,
            forall|j: int|
                0 <= j < s ==> (#[trigger] v@[j])@.len() == 2 && config_matches(
                    v@[j]@[0],
                    config_bytes(rom.prg@, j, 0),
                ) && config_matches(v@[j]@[1], config_bytes(rom.prg@, j, 1)),
        decreases STAGE_COUNT - s,
    {
        let off = GROUND_CONFIG_ADDR - 0x8000 + 8 * s;
        let b0 = copy_range(rom.prg.as_slice(), off, 4);
        let b1 = copy_range(rom.prg.as_slice(), off + 4, 4);
        let c0 = GroundConfig::from_bytes(b0.as_slice());
        let c1 = GroundConfig::from_bytes(b1.as_slice());
        v.push(vec![c0, c1]);
        s += 1;
    }
    v
}

/// The `i`-th group of four bytes from offset `off`.
pub open spec fn quad(prg: Seq<u8>, off: int, i: int) -> Seq<u8> {
    prg.subrange(off + 4 * i, off + 4 * i + 4)
}

/// Reads `count` palettes from offset `off`; fails on the first byte, in
/// order, that is no color id.
fn load_palettes(rom: &Rom, off: usize, count: usize) -> (r: Result<Vec<Palette>, ExtractError>)
    requires
        rom.wf(),
        off + 4 * count <= PRG_SIZE,
    ensures
        r is Ok <==> forall|i: int| 0 <= i < count ==> first_bad_color(#[trigger] quad(rom.prg@, off as int, i)) is None,
        r matches Ok(v) ==> v@.len() == count && forall|i: int|
            0 <= i < count ==> (#[trigger] v@[i]).0@ == quad(rom.prg@, off as int, i),
        r matches Err(e) ==> exists|i: int|
            0 <= i < count && first_bad_color(#[trigger] quad(rom.prg@, off as int, i)) == Some(
                e->InvalidColor_0,
            ) && e is InvalidColor && forall|j: int|
                0 <= j < i ==> first_bad_color(#[trigger] quad(rom.prg@, off as int, j)) is None,
{
    let mut v: Vec<Palette> = Vec::with_capacity(count);
    let mut i: usize = 0;
    while i < count
        invariant
            rom.wf(),
            off + 4 * count <= PRG_SIZE,
            i <= count,
            v@.len() == i,
            forall|j: int| 0 <= j < i ==> first_bad_color(#[trigger] quad(rom.prg@, off as int, j)) is None,
            forall|j: int| 0 <= j < i ==> (#[trigger] v@[j]).0@ == quad(rom.prg@, off as int, j),
        decreases count - i,
    {
        let b = copy_range(rom.prg.as_slice(), off + 4 * i, 4);
        assert(b@ == quad(rom.prg@, off as int, i as int));
        match Palette::from_bytes(b.as_slice()) {
            Ok(p) => {
                assert(p.0@ =~= quad(rom.prg@, off as int, i as int));
                v.push(p);
            },
            Err(e) => {
                return Err(e);
            },
        }
        i += 1;
    }
    Ok(v)
}

/// Reads the ground palettes.
pub fn load_ground_palettes(rom: &Rom) -> (r: Result<Vec<Palette>, ExtractError>)
    requires
        rom.wf(),
    ensures
        r is Ok <==> forall|i: int|
            0 <= i < GROUND_PALETTE_COUNT ==> first_bad_color(
                #[trigger] quad(rom.prg@, GROUND_PALETTE_ADDR - 0x8000, i),
            ) is None,
        r matches Ok(v) ==> v@.len() == GROUND_PALETTE_COUNT && forall|i: int|
            0 <= i < GROUND_PALETTE_COUNT ==> (#[trigger] v@[i]).0@ == quad(
                rom.prg@,
                GROUND_PALETTE_ADDR - 0x8000,
                i,
            ),
        r matches Err(e) ==> exists|i: int|
            0 <= i < GROUND_PALETTE_COUNT && first_bad_color(
                #[trigger] quad(rom.prg@, GROUND_PALETTE_ADDR - 0x8000, i),
            ) == Some(e->InvalidColor_0) && e is InvalidColor && forall|j: int|
                0 <= j < i ==> first_bad_color(
                    #[trigger] quad(rom.prg@, GROUND_PALETTE_ADDR - 0x8000, j),
                ) is None,
{
    load_palettes(rom, GROUND_PALETTE_ADDR - 0x8000, GROUND_PALETTE_COUNT)
}

/// Reads the four sprite palettes.
pub fn load_sprite_palette_set(rom: &Rom) -> (r: Result<Vec<Palette>, ExtractError>)
    requires
        rom.wf(),
    ensures
        r is Ok <==> forall|i: int|
            0 <= i < SPRITE_PALETTE_COUNT ==> first_bad_color(
                #[trigger] quad(rom.prg@, SPRITE_PALETTE_ADDR - 0x8000, i),
            ) is None,
        r matches Ok(v) ==> v@.len() == SPRITE_PALETTE_COUNT && forall|i: int|
            0 <= i < SPRITE_PALETTE_COUNT ==> (#[trigger] v@[i]).0@ == quad(
                rom.prg@,
                SPRITE_PALETTE_ADDR - 0x8000,
                i,
            ),
        r matches Err(e) ==> exists|i: int|
            0 <= i < SPRITE_PALETTE_COUNT && first_bad_color(
                #[trigger] quad(rom.prg@, SPRITE_PALETTE_ADDR - 0x8000, i),
            ) == Some(e->InvalidColor_0) && e is InvalidColor && forall|j: int|
                0 <= j < i ==> first_bad_color(
                    #[trigger] quad(rom.prg@, SPRITE_PALETTE_ADDR - 0x8000, j),
                ) is None,
{
    load_palettes(rom, SPRITE_PALETTE_ADDR - 0x8000, SPRITE_PALETTE_COUNT)
}

/// How a cell is drawn: four tiles (top left, top right, bottom left, bottom
/// right) with one palette of the stage half.
#[derive(Clone, Copy, Debug, PartialEq, Eq)]
pub struct CellVisual {
    pub tile_ids: [u8; 4],
    pub plt_idx: u8,
}

impl CellVisual {
    pub fn new(tile_ids: [u8; 4], plt_idx: u8) -> (r: Self)
        ensures
            r.tile_ids == tile_ids,
            r.plt_idx == plt_idx,
    {
        CellVisual { tile_ids, plt_idx }
    }
}

/// How a meta-sprite is drawn: four sprites (top left, bottom left, top
/// right, bottom right), each a tile with its attribute.
#[derive(Clone, Copy, Debug, PartialEq, Eq)]
pub struct MetaSpriteVisual {
    pub tile_ids: [u8; 4],
    pub attrs: [SpriteAttribute; 4],
}

impl MetaSpriteVisual {
    pub fn new(tile_ids: [u8; 4], attrs: [SpriteAttribute; 4]) -> (r: Self)
        ensures
            r.tile_ids == tile_ids,
            r.attrs == attrs,
    {
        MetaSpriteVisual { tile_ids, attrs }
    }
}

/// `cv` is the drawing of cell `i` as the code region `prg` gives it.
pub open spec fn cell_visual_matches(cv: CellVisual, prg: Seq<u8>, i: int) -> bool {
    &&& cv.tile_ids@ == quad(prg, CELL_TILES_ADDR - 0x8000, i)
    &&& cv.plt_idx == prg[CELL_PALETTE_ADDR - 0x8000 + i]
}

/// Reads the drawing of every cell id up to `CELL_MAX`.
pub fn load_cell_visuals(rom: &Rom) -> (r: Vec<CellVisual>)
    requires
        rom.wf(),
    ensures
        r@.len() == CELL_MAX + 1,
        forall|i: int| 0 <= i <= CELL_MAX ==> cell_visual_matches(#[trigger] r@[i], rom.prg@, i),
{
    let mut v: Vec<CellVisual> = Vec::with_capacity(CELL_MAX as usize + 1);
    let mut i: usize = 0;
    while i <= CELL_MAX as usize
        invariant
            rom.wf(),
            i <= CELL_MAX + 1,
            v@.len() == i,
            forall|j: int| 0 <= j < i ==> cell_visual_matches(#[trigger] v@[j], rom.prg@, j),
        decreases CELL_MAX + 1 - i,
    {
        let off = CELL_TILES_ADDR - 0x8000 + 4 * i;
        let tile_ids = [rom.prg[off], rom.prg[off + 1], rom.prg[off + 2], rom.prg[off + 3]];
        assert(tile_ids@ =~= quad(rom.prg@, CELL_TILES_ADDR - 0x8000, i as int));
        let plt_idx = rom.prg[CELL_PALETTE_ADDR - 0x8000 + i];
        v.push(CellVisual::new(tile_ids, plt_idx));
        i += 1;
    }
    v
}

/// `msv` is the drawing of meta-sprite `i` as the code region `prg` gives it:
/// eight bytes, a tile id and an attribute byte for each of its four sprites.
pub open spec fn meta_sprite_matches(msv: MetaSpriteVisual, prg: Seq<u8>, i: int) -> bool {
    forall|j: int|
        0 <= j < 4 ==> #[trigger] msv.tile_ids@[j] == prg[META_SPRITE_ADDR - 0x8000 + 8 * i + 2 * j]
            && msv.attrs@[j].0 == prg[META_SPRITE_ADDR - 0x8000 + 8 * i + 2 * j + 1]
}

/// Reads the drawing of every meta-sprite id up to `META_SPRITE_MAX`.
pub fn load_meta_sprite_visuals(rom: &Rom) -> (r: Vec<MetaSpriteVisual>)
    requires
        rom.wf(),
    ensures
        r@.len() == META_SPRITE_MAX + 1,
        forall|i: int|
            0 <= i <= META_SPRITE_MAX ==> meta_sprite_matches(#[trigger] r@[i], rom.prg@, i),
{
    let mut v: Vec<MetaSpriteVisual> = Vec::with_capacity(META_SPRITE_MAX as usize + 1);
    let mut i: usize = 0;
    while i <= META_SPRITE_MAX as usize
        invariant
            rom.wf(),
            i <= META_SPRITE_MAX + 1,
            v@.len() == i,
            forall|j: int| 0 <= j < i ==> meta_sprite_matches(#[trigger] v@[j], rom.prg@, j),
        decreases META_SPRITE_MAX + 1 - i,
    {
        let off = META_SPRITE_ADDR - 0x8000 + 8 * i;
        let tile_ids = [rom.prg[off], rom.prg[off + 2], rom.prg[off + 4], rom.prg[off + 6]];
        let attrs = [
            SpriteAttribute::from_byte(rom.prg[off + 1]),
            SpriteAttribute::from_byte(rom.prg[off + 3]),
            SpriteAttribute::from_byte(rom.prg[off + 5]),
            SpriteAttribute::from_byte(rom.prg[off + 7]),
        ];
        let m = MetaSpriteVisual::new(tile_ids, attrs);
        assert(meta_sprite_matches(m, rom.prg@, i as int)) by {
            assert forall|j: int| 0 <= j < 4 implies #[trigger] m.tile_ids@[j] == rom.prg@[off + 2
                * j] && m.attrs@[j].0 == rom.prg@[off + 2 * j + 1] by {
                if j == 0 {
                } else if j == 1 {
                } else if j == 2 {
                } else {
                }
            }
        }
        v.push(m);
        i += 1;
    }
    v
}

/// Splits the pattern region into its tiles.
pub fn load_tiles(rom: &Rom) -> (r: Vec<Tile>)
    requires
        rom.wf(),
    ensures
        r@.len() == TILE_COUNT,
        forall|i: int|
            0 <= i < TILE_COUNT ==> (#[trigger] r@[i]).0@ == rom.chr@.subrange(16 * i, 16 * i + 16),
{
    let mut v: Vec<Tile> = Vec::with_capacity(TILE_COUNT);
    let mut i: usize = 0;
    while i < TILE_COUNT
        invariant
            rom.wf(),
            i <= TILE_COUNT,
            v@.len() == i,
            forall|j: int|
                0 <= j < i ==> (#[trigger] v@[j]).0@ == rom.chr@.subrange(16 * j, 16 * j + 16),
        decreases TILE_COUNT - i,
    {
        let b = copy_range(rom.chr.as_slice(), 16 * i, 16);
        let t = Tile::from_bytes(b.as_slice());
        assert(t.0@ =~= rom.chr@.subrange(16 * i, 16 * i + 16));
        v.push(t);
        i += 1;
    }
    v
}

/// Number of palette id bytes in the configuration table.
pub const GROUND_CONFIG_BYTES: usize = 8 * STAGE_COUNT;

/// The ground palette id in byte `n` of the configuration table.
pub open spec fn config_palette_id(prg: Seq<u8>, n: int) -> u8 {
    prg[GROUND_CONFIG_ADDR - 0x8000 + n] & 0x3F
}

/// Every configuration record names an existing ground palette.
pub open spec fn config_ids_ok(prg: Seq<u8>) -> bool {
    forall|n: int|
        0 <= n < GROUND_CONFIG_BYTES ==> #[trigger] config_palette_id(prg, n)
            < GROUND_PALETTE_COUNT
}

/// `e` reports the first configuration byte that names no ground palette.
pub open spec fn config_ids_err(prg: Seq<u8>, e: ExtractError) -> bool {
    exists|n: int|
        0 <= n < GROUND_CONFIG_BYTES && #[trigger] config_palette_id(prg, n)
            >= GROUND_PALETTE_COUNT && e == ExtractError::InvalidPaletteId(config_palette_id(prg, n))
            && forall|m: int| 0 <= m < n ==> #[trigger] config_palette_id(prg, m) < GROUND_PALETTE_COUNT
}

/// Checks that every configuration record names an existing ground palette.
fn check_config_ids(rom: &Rom) -> (r: Result<(), ExtractError>)
    requires
        rom.wf(),
    ensures
        r is Ok <==> config_ids_ok(rom.prg@),
        r matches Err(e) ==> config_ids_err(rom.prg@, e),
{
    let mut n: usize = 0;
    while n < GROUND_CONFIG_BYTES
        invariant
            rom.wf(),
            n <= GROUND_CONFIG_BYTES,
            forall|m: int| 0 <= m < n ==> #[trigger] config_palette_id(rom.prg@, m) < GROUND_PALETTE_COUNT,
        decreases GROUND_CONFIG_BYTES - n,
    {
        let id = rom.prg[GROUND_CONFIG_ADDR - 0x8000 + n] & 0x3F;
        if id as usize >= GROUND_PALETTE_COUNT {
            assert(config_palette_id(rom.prg@, n as int) == id);
            return Err(ExtractError::InvalidPaletteId(id));
        }
        n += 1;
    }
    Ok(())
}

/// All stage secret lists can be read.
pub open spec fn secrets_ok(prg: Seq<u8>) -> bool {
    forall|s: int| 0 <= s < STAGE_COUNT ==> (#[trigger] stage_secrets(prg, s)) is Ok
}

/// `e` is the error of the first stage secret list that cannot be read.
pub open spec fn secrets_err(prg: Seq<u8>, e: ExtractError) -> bool {
    exists|s: int|
        0 <= s < STAGE_COUNT && (#[trigger] stage_secrets(prg, s)) == Err::<
            Seq<GroundSecret>,
            ExtractError,
        >(e) && forall|j: int| 0 <= j < s ==> stage_secrets(prg, j) is Ok
}

/// The `count` palettes from offset `off` hold color ids only.
pub open spec fn palettes_ok(prg: Seq<u8>, off: int, count: int) -> bool {
    forall|i: int| 0 <= i < count ==> first_bad_color(#[trigger] quad(prg, off, i)) is None
}

/// `e` reports the first byte of the `count` palettes from offset `off` that
/// is no color id.
pub open spec fn palettes_err(prg: Seq<u8>, off: int, count: int, e: ExtractError) -> bool {
    exists|i: int|
        0 <= i < count && first_bad_color(#[trigger] quad(prg, off, i)) == Some(e->InvalidColor_0)
            && e is InvalidColor && forall|j: int|
            0 <= j < i ==> first_bad_color(#[trigger] quad(prg, off, j)) is None
}

/// All decoded data of the game.
#[derive(Clone, Debug)]
pub struct Game {
    /// [stage][row][column]
    pub ground_cells: Vec<Vec<Vec<u8>>>,
    /// [stage][n]
    pub ground_secrets: Vec<Vec<GroundSecret>>,
    /// [stage][half]
    pub ground_configs: Vec<Vec<GroundConfig>>,
    pub ground_palettes: Vec<Palette>,
    /// [cell id]
    pub cell_visuals: Vec<CellVisual>,
    pub sprite_palette_set: Vec<Palette>,
    /// [meta-sprite id]
    pub meta_sprite_visuals: Vec<MetaSpriteVisual>,
    pub tiles: Vec<Tile>,
}

/// `g` holds what the regions `prg` and `chr` decode to.
pub open spec fn game_matches(g: Game, prg: Seq<u8>, chr: Seq<u8>) -> bool {
    &&& stages_cells(prg, STAGE_COUNT as nat) == Ok::<Seq<Seq<Seq<u8>>>, ExtractError>(
        stages_view(g.ground_cells@),
    )
    &&& g.ground_secrets@.len() == STAGE_COUNT
    &&& forall|s: int|
        0 <= s < STAGE_COUNT ==> stage_secrets(prg, s) == Ok::<Seq<GroundSecret>, ExtractError>(
            (#[trigger] g.ground_secrets@[s])@,
        )
    &&& g.ground_configs@.len() == STAGE_COUNT
    &&& forall|s: int|
        0 <= s < STAGE_COUNT ==> (#[trigger] g.ground_configs@[s])@.len() == 2 && config_matches(
            g.ground_configs@[s]@[0],
            config_bytes(prg, s, 0),
        ) && config_matches(g.ground_configs@[s]@[1], config_bytes(prg, s, 1))
    &&& g.ground_palettes@.len() == GROUND_PALETTE_COUNT
    &&& forall|i: int|
        0 <= i < GROUND_PALETTE_COUNT ==> (#[trigger] g.ground_palettes@[i]).0@ == quad(
            prg,
            GROUND_PALETTE_ADDR - 0x8000,
            i,
        )
    &&& g.cell_visuals@.len() == CELL_MAX + 1
    &&& forall|i: int|
        0 <= i <= CELL_MAX ==> cell_visual_matches(#[trigger] g.cell_visuals@[i], prg, i)
    &&& g.sprite_palette_set@.len() == SPRITE_PALETTE_COUNT
    &&& forall|i: int|
        0 <= i < SPRITE_PALETTE_COUNT ==> (#[trigger] g.sprite_palette_set@[i]).0@ == quad(
            prg,
            SPRITE_PALETTE_ADDR - 0x8000,
            i,
        )
    &&& g.meta_sprite_visuals@.len() == META_SPRITE_MAX + 1
    &&& forall|i: int|
        0 <= i <= META_SPRITE_MAX ==> meta_sprite_matches(#[trigger] g.meta_sprite_visuals@[i], prg, i)
    &&& g.tiles@.len() == TILE_COUNT
    &&& forall|i: int|
        0 <= i < TILE_COUNT ==> (#[trigger] g.tiles@[i]).0@ == chr.subrange(16 * i, 16 * i + 16)
}

impl Game {
    /// Every stage has 256 rows of 20 cells and two configuration records,
    /// whose palette ids all name a ground palette.
    pub open spec fn wf(&self) -> bool {
        &&& self.ground_cells@.len() == STAGE_COUNT
        &&& stages_full(self.ground_cells@)
        &&& self.ground_secrets@.len() == STAGE_COUNT
        &&& self.ground_configs@.len() == STAGE_COUNT
        &&& forall|s: int|
            0 <= s < STAGE_COUNT ==> (#[trigger] self.ground_configs@[s])@.len() == 2
        &&& forall|s: int, h: int, k: int|
            0 <= s < STAGE_COUNT && 0 <= h < 2 && 0 <= k < 4 ==> (#[trigger] self.ground_configs@[s]@[h].palette_ids@[k])
                < self.ground_palettes@.len()
    }

    /// Decodes all game data of the image.
    pub fn from_rom(rom: &Rom) -> (r: Result<Self, ExtractError>)
        requires
            rom.wf(),
        ensures
            r is Ok <==> stages_cells(rom.prg@, STAGE_COUNT as nat) is Ok && secrets_ok(rom.prg@)
                && palettes_ok(rom.prg@, GROUND_PALETTE_ADDR - 0x8000, GROUND_PALETTE_COUNT as int)
                && config_ids_ok(rom.prg@) && palettes_ok(
                rom.prg@,
                SPRITE_PALETTE_ADDR - 0x8000,
                SPRITE_PALETTE_COUNT as int,
            ),
            r matches Ok(g) ==> g.wf() && game_matches(g, rom.prg@, rom.chr@),
            r matches Err(e) ==> {
                ||| stages_cells(rom.prg@, STAGE_COUNT as nat) == Err::<
                    Seq<Seq<Seq<u8>>>,
                    ExtractError,
                >(e)
                ||| stages_cells(rom.prg@, STAGE_COUNT as nat) is Ok && secrets_err(rom.prg@, e)
                ||| stages_cells(rom.prg@, STAGE_COUNT as nat) is Ok && secrets_ok(rom.prg@)
                    && palettes_err(
                    rom.prg@,
                    GROUND_PALETTE_ADDR - 0x8000,
                    GROUND_PALETTE_COUNT as int,
                    e,
                )
                ||| stages_cells(rom.prg@, STAGE_COUNT as nat) is Ok && secrets_ok(rom.prg@)
                    && palettes_ok(
                    rom.prg@,
                    GROUND_PALETTE_ADDR - 0x8000,
                    GROUND_PALETTE_COUNT as int,
                ) && config_ids_err(rom.prg@, e)
                ||| stages_cells(rom.prg@, STAGE_COUNT as nat) is Ok && secrets_ok(rom.prg@)
                    && palettes_ok(
                    rom.prg@,
                    GROUND_PALETTE_ADDR - 0x8000,
                    GROUND_PALETTE_COUNT as int,
                ) && config_ids_ok(rom.prg@) && palettes_err(
                    rom.prg@,
                    SPRITE_PALETTE_ADDR - 0x8000,
                    SPRITE_PALETTE_COUNT as int,
                    e,
                )
            },
    {
        let ground_cells = match load_ground_cells(rom) {
            Ok(x) => x,
            Err(e) => {
                return Err(e);
            },
        };
        let ground_secrets = match load_ground_secrets(rom) {
            Ok(x) => x,
            Err(e) => {
                return Err(e);
            },
        };
        let ground_configs = load_ground_configs(rom);
        let ground_palettes = match load_ground_palettes(rom) {
            Ok(x) => x,
            Err(e) => {
                return Err(e);
            },
        };
        if let Err(e) = check_config_ids(rom) {
            return Err(e);
        }
        let cell_visuals = load_cell_visuals(rom);
        let sprite_palette_set = match load_sprite_palette_set(rom) {
            Ok(x) => x,
            Err(e) => {
                return Err(e);
            },
        };
        let meta_sprite_visuals = load_meta_sprite_visuals(rom);
        let tiles = load_tiles(rom);
        let g = Game {
            ground_cells,
            ground_secrets,
            ground_configs,
            ground_palettes,
            cell_visuals,
            sprite_palette_set,
            meta_sprite_visuals,
            tiles,
        };
        assert forall|s: int, h: int, k: int|
            0 <= s < STAGE_COUNT && 0 <= h < 2 && 0 <= k < 4 implies (
            #[trigger] g.ground_configs@[s]@[h].palette_ids@[k]) < g.ground_palettes@.len() by {
            assert(config_matches(g.ground_configs@[s]@[h], config_bytes(rom.prg@, s, h)));
            assert(g.ground_configs@[s]@[h].palette_ids@[k] == config_palette_id(
                rom.prg@,
                8 * s + 4 * h + k,
            ));
        }
        Ok(g)
    }
}

/// Rows of a stage that the rotation of its halves can reach.
pub const ROTATION_ROW_END: usize = 240;

/// Row `r` of a stage has its column halves swapped: it lies in a rotated
/// half and above the rotation limit.
pub open spec fn row_is_rotated(r: int, rot0: bool, rot1: bool) -> bool {
    ||| r < HALF_ROWS && rot0
    ||| HALF_ROWS <= r < ROTATION_ROW_END && rot1
}

/// `row` with cell `c` and cell `c + 10` swapped for every `c < 10`.
pub open spec fn swapped_row(row: Seq<u8>) -> Seq<u8> {
    Seq::new(ROW_WIDTH as nat, |c: int| row[(c + 10) % 20])
}

/// The rows of a stage after the rotation of its halves.
pub open spec fn rotated_cells(cells: Seq<Seq<u8>>, rot0: bool, rot1: bool) -> Seq<Seq<u8>> {
    Seq::new(
        cells.len(),
        |r: int|
            if row_is_rotated(r, rot0, rot1) {
                swapped_row(cells[r])
            } else {
                cells[r]
            },
    )
}

/// The first secret at row `r`, column `c`.
pub open spec fn find_secret(s: Seq<GroundSecret>, r: u8, c: u8) -> Option<GroundSecret>
    decreases s.len(),
{
    if s.len() == 0 {
        None
    } else if s[0].r == r && s[0].c == c {
        Some(s[0])
    } else {
        find_secret(s.drop_first(), r, c)
    }
}

/// One stage, ready to be drawn.
#[derive(Clone, Debug)]
pub struct Ground {
    /// [row][column]
    pub cells: Vec<Vec<u8>>,
    /// [half][4]
    pub palette_sets: Vec<Vec<Palette>>,
    pub secrets: Vec<GroundSecret>,
}

/// `g` is stage `stage` (1-based) of `game`: its cells rotated as its
/// configuration records say, the palettes they name, and its secrets.
pub open spec fn ground_matches(g: Ground, game: Game, stage: int) -> bool {
    let cfgs = game.ground_configs@[stage - 1]@;
    &&& rows_view(g.cells@) == rotated_cells(
        rows_view(game.ground_cells@[stage - 1]@),
        cfgs[0].is_rotated,
        cfgs[1].is_rotated,
    )
    &&& forall|h: int, k: int|
        0 <= h < 2 && 0 <= k < 4 ==> #[trigger] g.palette_sets@[h]@[k]
            == game.ground_palettes@[cfgs[h].palette_ids@[k] as int]
    &&& g.secrets@ == game.ground_secrets@[stage - 1]@
}

/// A copy of `row`, with its column halves swapped when `rotate` holds.
fn copy_row(row: &Vec<u8>, rotate: bool) -> (r: Vec<u8>)
    requires
        row@.len() == ROW_WIDTH,
    ensures
        r@ == if rotate {
            swapped_row(row@)
        } else {
            row@
        },
{
    let mut r: Vec<u8> = Vec::with_capacity(ROW_WIDTH);
    let mut c: usize = 0;
    while c < ROW_WIDTH
        invariant
            row@.len() == ROW_WIDTH,
            c <= ROW_WIDTH,
            r@ == (if rotate {
                swapped_row(row@)
            } else {
                row@
            }).take(c as int),
        decreases ROW_WIDTH - c,
    {
        let src = if rotate {
            (c + 10) % 20
        } else {
            c
        };
        r.push(row[src]);
        c += 1;
        assert(r@ =~= (if rotate {
            swapped_row(row@)
        } else {
            row@
        }).take(c as int));
    }
    assert(r@ =~= if rotate {
        swapped_row(row@)
    } else {
        row@
    });
    r
}

impl Game {
    /// Stage `stage` (1-based) of the game.
    pub fn ground(&self, stage: u8) -> (r: Ground)
        requires
            self.wf(),
            1 <= stage <= STAGE_COUNT,
        ensures
            r.wf(),
            ground_matches(r, *self, stage as int),
    {
        Ground::from_game(self, stage)
    }
}

impl Ground {
    /// 256 rows of 20 cells, and two sets of four palettes.
    pub open spec fn wf(&self) -> bool {
        &&& self.cells@.len() == 2 * HALF_ROWS
        &&& rows_full(self.cells@)
        &&& self.palette_sets@.len() == 2
        &&& forall|h: int| 0 <= h < 2 ==> (#[trigger] self.palette_sets@[h])@.len() == 4
    }

    fn from_game(game: &Game, stage: u8) -> (r: Ground)
        requires
            game.wf(),
            1 <= stage <= STAGE_COUNT,
        ensures
            r.wf(),
            ground_matches(r, *game, stage as int),
    {
        let idx = stage as usize - 1;
        let configs = &game.ground_configs[idx];
        let stage_cells = &game.ground_cells[idx];
        assert(stage_cells@.len() == 2 * HALF_ROWS && rows_full(stage_cells@));
        let rot0 = configs[0].is_rotated();
        let rot1 = configs[1].is_rotated();
        let mut cells: Vec<Vec<u8>> = Vec::with_capacity(2 * HALF_ROWS);
        let mut r: usize = 0;
        while r < 2 * HALF_ROWS
            invariant
                stage_cells@.len() == 2 * HALF_ROWS,
                rows_full(stage_cells@),
                r <= 2 * HALF_ROWS,
                cells@.len() == r,
                rows_full(cells@),
                rows_view(cells@) == rotated_cells(rows_view(stage_cells@), rot0, rot1).take(
                    r as int,
                ),
            decreases 2 * HALF_ROWS - r,
        {
            let rotate = (r < HALF_ROWS && rot0) || (HALF_ROWS <= r && r < ROTATION_ROW_END
                && rot1);
            let row = copy_row(&stage_cells[r], rotate);
            cells.push(row);
            r += 1;
            assert(rows_view(cells@) =~= rotated_cells(rows_view(stage_cells@), rot0, rot1).take(
                r as int,
            ));
        }
        assert(rows_view(cells@) =~= rotated_cells(rows_view(stage_cells@), rot0, rot1));
        let mut palette_sets: Vec<Vec<Palette>> = Vec::with_capacity(2);
        let mut h: usize = 0;
        while h < 2
            invariant
                game.wf(),
                idx < STAGE_COUNT,
                configs == game.ground_configs@[idx as int],
                h <= 2,
                palette_sets@.len() == h,
                forall|j: int| 0 <= j < h ==> (#[trigger] palette_sets@[j])@.len() == 4,
                forall|j: int, k: int|
                    0 <= j < h && 0 <= k < 4 ==> #[trigger] palette_sets@[j]@[k]
                        == game.ground_palettes@[configs@[j].palette_ids@[k] as int],
            decreases 2 - h,
        {
            let ids = configs[h].palette_ids();
            assert(forall|k: int| 0 <= k < 4 ==> ids@[k] < game.ground_palettes@.len()) by {
                assert forall|k: int| 0 <= k < 4 implies ids@[k] < game.ground_palettes@.len() by {
                    assert(game.ground_configs@[idx as int]@[h as int].palette_ids@[k]
                        < game.ground_palettes@.len());
                }
            }
            let set = vec![
                game.ground_palettes[ids[0] as usize],
                game.ground_palettes[ids[1] as usize],
                game.ground_palettes[ids[2] as usize],
                game.ground_palettes[ids[3] as usize],
            ];
            assert(forall|k: int| 0 <= k < 4 ==> #[trigger] set@[k] == game.ground_palettes@[ids@[k] as int]) by {
                assert forall|k: int| 0 <= k < 4 implies #[trigger] set@[k] == game.ground_palettes@[ids@[k] as int] by {
                    if k == 0 {
                    } else if k == 1 {
                    } else if k == 2 {
                    } else {
                    }
                }
            }
            palette_sets.push(set);
            h += 1;
        }
        let secrets = copy_secrets(&game.ground_secrets[idx]);
        Ground { cells, palette_sets, secrets }
    }

    /// The cell at row `r`, column `c`; also the id of its drawing.
    pub fn cell(&self, r: u8, c: u8) -> (v: u8)
        requires
            self.wf(),
            c < ROW_WIDTH,
        ensures
            v == self.cells@[r as int]@[c as int],
    {
        assert(self.cells@[r as int]@.len() == ROW_WIDTH);
        self.cells[r as usize][c as usize]
    }

    /// The drawing id of the hidden content at row `r`, column `c`: that of
    /// the first secret there (content 0 stands for one of four by column),
    /// else that of an uncovered zeg where a covered one lies, else none.
    pub fn hidden_visual_id(&self, r: u8, c: u8) -> (v: Option<u8>)
        requires
            self.wf(),
            c < ROW_WIDTH,
        ensures
            v == match find_secret(self.secrets@, r, c) {
                Some(s) => Some(
                    if s.cell == 0 {
                        c % 4
                    } else {
                        s.cell
                    },
                ),
                None => {
                    let cell = self.cells@[r as int]@[c as int];
                    if CELL_ZEG_INI + 1 <= cell <= CELL_ZEG_INI + 5 {
                        Some(CELL_ZEG_INI)
                    } else {
                        None
                    }
                },
            },
    {
        let mut i: usize = 0;
        assert(self.secrets@.subrange(0, self.secrets@.len() as int) =~= self.secrets@);
        while i < self.secrets.len()
            invariant
                i <= self.secrets@.len(),
                find_secret(self.secrets@, r, c) == find_secret(
                    self.secrets@.subrange(i as int, self.secrets@.len() as int),
                    r,
                    c,
                ),
            decreases self.secrets@.len() - i,
        {
            let secret = self.secrets[i];
            assert(self.secrets@.subrange(i as int, self.secrets@.len() as int).drop_first()
                =~= self.secrets@.subrange(i + 1, self.secrets@.len() as int));
            if secret.r == r && secret.c == c {
                return Some(
                    if secret.cell == 0 {
                        c % 4
                    } else {
                        secret.cell
                    },
                );
            }
            i += 1;
        }
        let cell = self.cell(r, c);
        if CELL_ZEG_INI + 1 <= cell && cell <= CELL_ZEG_INI + 5 {
            Some(CELL_ZEG_INI)
        } else {
            None
        }
    }

    /// The four palettes of half `i` of the stage.
    pub fn palette_set_half(&self, i: usize) -> (r: &[Palette])
        requires
            self.wf(),
            i < 2,
        ensures
            r@ == self.palette_sets@[i as int]@,
    {
        self.palette_sets[i].as_slice()
    }

    pub fn secrets(&self) -> (r: &[GroundSecret])
        ensures
            r@ == self.secrets@,
    {
        self.secrets.as_slice()
    }
}

/// A copy of a list of secrets.
fn copy_secrets(v: &Vec<GroundSecret>) -> (r: Vec<GroundSecret>)
    ensures
        r@ == v@,
{
    let mut r: Vec<GroundSecret> = Vec::with_capacity(v.len());
    let mut i: usize = 0;
    while i < v.len()
        invariant
            i <= v@.len(),
            r@ == v@.take(i as int),
        decreases v@.len() - i,
    {
        r.push(v[i]);
        i += 1;
        assert(r@ =~= v@.take(i as int));
    }
    assert(r@ =~= v@);
    r
}

} // verus!
