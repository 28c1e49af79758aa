use vstd::prelude::*;

use crate::error::ExtractError;
use crate::rom::{le16, prg_offset, read_u16_le, Rom, PRG_SIZE};

verus! {

/// Number of stages.
pub const STAGE_COUNT: usize = 16;

/// Cells in one row of a stage.
pub const ROW_WIDTH: usize = 20;

/// Rows in each of the two halves of a stage.
pub const HALF_ROWS: usize = 128;

/// Address of the table of the two half addresses of each stage.
pub const GROUND_CELLS_PTR_ADDR: usize = 0xD5D9;

/// Row byte that makes the row read from the address in the next two bytes.
pub const ROW_REDIRECT: u8 = 0xDB;

/// Unit size and repeat count of a repeat opcode `v` (`v >= 0xDC`).
pub open spec fn rle_group(v: u8) -> (int, int) {
    if v >= 0xEE {
        (1, v - 0xEB)
    } else if v >= 0xE5 {
        (2, v - 0xE3)
    } else if v >= 0xE0 {
        (3, v - 0xDE)
    } else {
        (4, v - 0xDA)
    }
}

/// `unit` written `n` times.
pub open spec fn repeat_seq(unit: Seq<u8>, n: nat) -> Seq<u8>
    decreases n,
{
    if n == 0 {
        seq![]
    } else {
        repeat_seq(unit, (n - 1) as nat) + unit
    }
}

/// Run-length decoding of one row of `data` from `pos`, after the cells
/// `out`: a byte below 0xDC is a cell; a larger one is followed by a unit of
/// 1 to 4 bytes written several times over. The row is cut to its first 20
/// cells once it has that many. Gives the row and the position after the last
/// byte read, or nothing when the data ends first.
pub open spec fn rle_row_from(data: Seq<u8>, pos: int, out: Seq<u8>) -> Option<(Seq<u8>, int)>
    decreases data.len() - pos,
{
    if out.len() >= ROW_WIDTH {
        Some((out.take(ROW_WIDTH as int), pos))
    } else if pos < 0 || pos >= data.len() {
        None
    } else if data[pos] < 0xDC {
        rle_row_from(data, pos + 1, out.push(data[pos]))
    } else {
        let (u, n) = rle_group(data[pos]);
        if pos + 1 + u > data.len() {
            None
        } else {
            rle_row_from(
                data,
                pos + 1 + u,
                out + repeat_seq(data.subrange(pos + 1, pos + 1 + u), n as nat),
            )
        }
    }
}

/// The row stored at offset `off` of `prg` and the offset of the next row. A
/// row whose first byte is the redirect byte is read from the address in the
/// two bytes after it, and the next row follows those three bytes.
pub open spec fn ground_row(prg: Seq<u8>, off: int) -> Result<(Seq<u8>, int), ExtractError> {
    if 0 <= off < prg.len() && prg[off] == ROW_REDIRECT {
        if off + 2 >= prg.len() {
            Err(ExtractError::Overrun(off as usize))
        } else {
            let p = le16(prg, off + 1);
            if p < 0x8000 {
                Err(ExtractError::AddressOutOfRange(p as u16))
            } else {
                match rle_row_from(prg, p - 0x8000, seq![]) {
                    Some((row, _)) => Ok((row, off + 3)),
                    None => Err(ExtractError::Overrun((p - 0x8000) as usize)),
                }
            }
        }
    } else {
        match rle_row_from(prg, off, seq![]) {
            Some((row, next)) => Ok((row, next)),
            None => Err(ExtractError::Overrun(off as usize)),
        }
    }
}

/// `k` more rows from offset `off`, after the rows `acc`.
pub open spec fn ground_rows(prg: Seq<u8>, off: int, k: nat, acc: Seq<Seq<u8>>) -> Result<
    Seq<Seq<u8>>,
    ExtractError,
>
    decreases k,
{
    if k == 0 {
        Ok(acc)
    } else {
        match ground_row(prg, off) {
            Err(e) => Err(e),
            Ok((row, next)) => ground_rows(prg, next, (k - 1) as nat, acc.push(row)),
        }
    }
}

/// The 128 rows of the half that starts at address `addr`.
pub open spec fn ground_half(prg: Seq<u8>, addr: int) -> Result<Seq<Seq<u8>>, ExtractError> {
    if addr < 0x8000 {
        Err(ExtractError::AddressOutOfRange(addr as u16))
    } else {
        ground_rows(prg, addr - 0x8000, HALF_ROWS as nat, seq![])
    }
}

/// The address of half `h` of stage `s` (both 0-based).
pub open spec fn ground_half_addr(prg: Seq<u8>, s: int, h: int) -> int {
    le16(prg, GROUND_CELLS_PTR_ADDR - 0x8000 + 4 * s + 2 * h)
}

/// The 256 rows of stage `s` (0-based): its first half, then its second.
pub open spec fn stage_cells(prg: Seq<u8>, s: int) -> Result<Seq<Seq<u8>>, ExtractError> {
    match ground_half(prg, ground_half_addr(prg, s, 0)) {
        Err(e) => Err(e),
        Ok(a) => match ground_half(prg, ground_half_addr(prg, s, 1)) {
            Err(e) => Err(e),
            Ok(b) => Ok(a + b),
        },
    }
}

/// The rows of the first `n` stages, or the error of the first that fails.
pub open spec fn stages_cells(prg: Seq<u8>, n: nat) -> Result<Seq<Seq<Seq<u8>>>, ExtractError>
    decreases n,
{
    if n == 0 {
        Ok(seq![])
    } else {
        match stages_cells(prg, (n - 1) as nat) {
            Err(e) => Err(e),
            Ok(v) => match stage_cells(prg, n - 1) {
                Err(e) => Err(e),
                Ok(c) => Ok(v.push(c)),
            },
        }
    }
}

/// The cells of each row.
pub open spec fn rows_view(v: Seq<Vec<u8>>) -> Seq<Seq<u8>> {
    v.map_values(|r: Vec<u8>| r@)
}

/// The cells of each row of each stage.
pub open spec fn stages_view(v: Seq<Vec<Vec<u8>>>) -> Seq<Seq<Seq<u8>>> {
    v.map_values(|s: Vec<Vec<u8>>| rows_view(s@))
}

/// Decodes the row that starts at offset `start` of `data` and gives it with
/// the number of bytes read.
pub fn load_ground_cells_row(data: &Vec<u8>, start: usize) -> (r: Result<
    (Vec<u8>, usize),
    ExtractError,
>)
    ensures
        match r {
            Ok((row, n)) => rle_row_from(data@, start as int, seq![]) == Some(
                (row@, start + n),
            ) && row@.len() == ROW_WIDTH && start + n <= data@.len(),
            Err(e) => rle_row_from(data@, start as int, seq![]) is None && e
                == ExtractError::Overrun(start),
        },
{
    let mut row: Vec<u8> = Vec::with_capacity(ROW_WIDTH);
    let mut pos: usize = start;
    if start >= data.len() {
        return Err(ExtractError::Overrun(start));
    }
    while row.len() < ROW_WIDTH
        invariant
            start <= pos <= data@.len(),
            data@.len() <= usize::MAX,
            row@.len() < ROW_WIDTH + 20,
            rle_row_from(data@, start as int, seq![]) == rle_row_from(data@, pos as int, row@),
        decreases data@.len() - pos,
    {
        if pos >= data.len() {
            return Err(ExtractError::Overrun(start));
        }
        let v = data[pos];
        if v < 0xDC {
            row.push(v);
            pos = pos + 1;
        } else {
            let (unit, count): (usize, usize) = if v >= 0xEE {
                (1, (v - 0xEB) as usize)
            } else if v >= 0xE5 {
                (2, (v - 0xE3) as usize)
            } else if v >= 0xE0 {
                (3, (v - 0xDE) as usize)
            } else {
                (4, (v - 0xDA) as usize)
            };
            if data.len() - pos < 1 + unit {
                return Err(ExtractError::Overrun(start));
            }
            assert((unit == 1 && count <= 20) || (unit == 2 && count <= 10) || (unit == 3 && count
                <= 6) || (unit == 4 && count <= 5));
            assert(count * unit <= 20) by (nonlinear_arith)
                requires
                    (unit == 1 && count <= 20) || (unit == 2 && count <= 10) || (unit == 3 && count
                        <= 6) || (unit == 4 && count <= 5),
            ;
            let ghost u = data@.subrange(pos + 1, pos + 1 + unit);
            let ghost before = row@;
            let mut k: usize = 0;
            while k < count
                invariant
                    k <= count,
                    1 <= unit <= 4,
                    count * unit <= 20,
                    data@.len() <= usize::MAX,
                    pos + 1 + unit <= data@.len(),
                    u == data@.subrange(pos + 1, pos + 1 + unit),
                    before.len() < ROW_WIDTH,
                    row@ == before + repeat_seq(u, k as nat),
                    row@.len() == before.len() + k * unit,
                decreases count - k,
            {
                let mut j: usize = 0;
                while j < unit
                    invariant
                        k < count,
                        1 <= unit <= 4,
                        count * unit <= 20,
                        data@.len() <= usize::MAX,
                        j <= unit,
                        pos + 1 + unit <= data@.len(),
                        u == data@.subrange(pos + 1, pos + 1 + unit),
                        before.len() < ROW_WIDTH,
                        row@ == before + repeat_seq(u, k as nat) + u.take(j as int),
                        row@.len() == before.len() + k * unit + j,
                    decreases unit - j,
                {
                    row.push(data[pos + 1 + j]);
                    j += 1;
                    assert(row@ =~= before + repeat_seq(u, k as nat) + u.take(j as int));
                }
                assert(u.take(unit as int) =~= u);
                assert(before + repeat_seq(u, (k + 1) as nat) =~= before + repeat_seq(u, k as nat)
                    + u);
                k += 1;
                assert(row@.len() == before.len() + k * unit) by (nonlinear_arith)
                    requires
                        row@.len() == before.len() + (k - 1) * unit + unit,
                ;
            }
            assert(row@.len() < ROW_WIDTH + 20);
            assert(before + repeat_seq(u, count as nat) == row@);
            pos = pos + 1 + unit;
        }
    }
    row.truncate(ROW_WIDTH);
    Ok((row, pos - start))
}

/// Every row holds exactly one row width of cells.
pub open spec fn rows_full(rows: Seq<Vec<u8>>) -> bool {
    forall|i: int| 0 <= i < rows.len() ==> (#[trigger] rows[i])@.len() == ROW_WIDTH
}

/// Appends to `cells` the 128 rows of the half that starts at address `addr`.
pub fn load_ground_cells_one_half(cells: &mut Vec<Vec<u8>>, rom: &Rom, addr: u16) -> (r: Result<
    (),
    ExtractError,
>)
    requires
        rom.wf(),
    ensures
        match r {
            Ok(_) => ground_half(rom.prg@, addr as int) == Ok::<Seq<Seq<u8>>, ExtractError>(
                rows_view(final(cells)@).subrange(old(cells)@.len() as int, final(cells)@.len() as int),
            ) && final(cells)@.len() == old(cells)@.len() + HALF_ROWS && final(cells)@.subrange(
                0,
                old(cells)@.len() as int,
            ) == old(cells)@ && (rows_full(old(cells)@) ==> rows_full(final(cells)@)),
            Err(e) => ground_half(rom.prg@, addr as int) == Err::<Seq<Seq<u8>>, ExtractError>(e),
        },
{
    let ghost prg = rom.prg@;
    let mut offset = match prg_offset(addr) {
        Ok(o) => o,
        Err(e) => {
            return Err(e);
        },
    };
    let mut rows: Vec<Vec<u8>> = Vec::with_capacity(HALF_ROWS);
    let mut i: usize = 0;
    assert(rows_view(rows@) =~= seq![]);
    while i < HALF_ROWS
        invariant
            rom.wf(),
            prg == rom.prg@,
            addr >= 0x8000,
            i <= HALF_ROWS,
            offset <= PRG_SIZE + 2,
            rows@.len() == i,
            rows_full(rows@),
            ground_half(prg, addr as int) == ground_rows(
                prg,
                offset as int,
                (HALF_ROWS - i) as nat,
                rows_view(rows@),
            ),
        decreases HALF_ROWS - i,
    {
        let ghost before = rows@;
        if offset < PRG_SIZE && rom.prg[offset] == ROW_REDIRECT {
            if offset + 2 >= PRG_SIZE {
                return Err(ExtractError::Overrun(offset));
            }
            let ptr = read_u16_le(&rom.prg, offset + 1);
            let start = match prg_offset(ptr) {
                Ok(o) => o,
                Err(e) => {
                    return Err(e);
                },
            };
            let (row, _n) = match load_ground_cells_row(&rom.prg, start) {
                Ok(x) => x,
                Err(e) => {
                    return Err(e);
                },
            };
            rows.push(row);
            offset = offset + 3;
        } else {
            let (row, n) = match load_ground_cells_row(&rom.prg, offset) {
                Ok(x) => x,
                Err(e) => {
                    return Err(e);
                },
            };
            rows.push(row);
            offset = offset + n;
        }
        assert(rows_view(rows@) =~= rows_view(before).push(rows@.last()@));
        i += 1;
    }
    let ghost old_cells = cells@;
    let ghost rv = rows@;
    cells.append(&mut rows);
    assert(cells@ == old_cells + rv);
    assert(rows_view(cells@).subrange(old_cells.len() as int, cells@.len() as int) =~= rows_view(
        rv,
    ));
    assert(cells@.subrange(0, old_cells.len() as int) =~= old_cells);
    assert(rows_full(old_cells) ==> rows_full(cells@)) by {
        if rows_full(old_cells) {
            assert forall|j: int| 0 <= j < cells@.len() implies (#[trigger] cells@[j])@.len()
                == ROW_WIDTH by {
                if j >= old_cells.len() {
                    assert(cells@[j] == rv[j - old_cells.len()]);
                }
            }
        }
    }
    Ok(())
}

/// Once a stage fails, the stages after it change nothing.
pub proof fn lemma_stages_err_persists(prg: Seq<u8>, n: nat, m: nat)
    requires
        stages_cells(prg, n) is Err,
        n <= m,
    ensures
        stages_cells(prg, m) == stages_cells(prg, n),
    decreases m - n,
{
    if n < m {
        lemma_stages_err_persists(prg, n, (m - 1) as nat);
    }
}

/// Every stage holds 256 rows of 20 cells.
pub open spec fn stages_full(v: Seq<Vec<Vec<u8>>>) -> bool {
    forall|s: int|
        0 <= s < v.len() ==> (#[trigger] v[s])@.len() == 2 * HALF_ROWS && rows_full(v[s]@)
}

/// Decodes the cells of every stage: for each, 256 rows of 20 cells.
pub fn load_ground_cells(rom: &Rom) -> (r: Result<Vec<Vec<Vec<u8>>>, ExtractError>)
    requires
        rom.wf(),
    ensures
        match r {
            Ok(v) => stages_cells(rom.prg@, STAGE_COUNT as nat) == Ok::<
                Seq<Seq<Seq<u8>>>,
                ExtractError,
            >(stages_view(v@)) && v@.len() == STAGE_COUNT && stages_full(v@),
            Err(e) => stages_cells(rom.prg@, STAGE_COUNT as nat) == Err::<
                Seq<Seq<Seq<u8>>>,
                ExtractError,
            >(e),
        },
{
    let ghost prg = rom.prg@;
    let mut v: Vec<Vec<Vec<u8>>> = Vec::with_capacity(STAGE_COUNT);
    let mut s: usize = 0;
    assert(stages_view(v@) =~= seq![]);
    while s < STAGE_COUNT
        invariant
            rom.wf(),
            prg == rom.prg@,
            s <= STAGE_COUNT,
            v@.len() == s,
            stages_full(v@),
            stages_cells(prg, s as nat) == Ok::<Seq<Seq<Seq<u8>>>, ExtractError>(stages_view(v@)),
        decreases STAGE_COUNT - s,
    {
        let base = GROUND_CELLS_PTR_ADDR - 0x8000 + 4 * s;
        let p0 = read_u16_le(&rom.prg, base);
        let p1 = read_u16_le(&rom.prg, base + 2);
        let mut cells: Vec<Vec<u8>> = Vec::with_capacity(2 * HALF_ROWS);
        let r0 = load_ground_cells_one_half(&mut cells, rom, p0);
        if let Err(e) = r0 {
            proof {
                lemma_stages_err_persists(prg, (s + 1) as nat, STAGE_COUNT as nat);
            }
            return Err(e);
        }
        let ghost c0 = cells@;
        let r1 = load_ground_cells_one_half(&mut cells, rom, p1);
        if let Err(e) = r1 {
            proof {
                lemma_stages_err_persists(prg, (s + 1) as nat, STAGE_COUNT as nat);
            }
            return Err(e);
        }
        assert(rows_view(c0) =~= rows_view(c0).subrange(0, 0 + HALF_ROWS));
        assert(rows_view(cells@) =~= rows_view(cells@).subrange(0, HALF_ROWS as int) + rows_view(
            cells@,
        ).subrange(HALF_ROWS as int, 2 * HALF_ROWS as int));
        assert(rows_view(cells@).subrange(0, HALF_ROWS as int) =~= rows_view(c0));
        assert(stage_cells(prg, s as int) == Ok::<Seq<Seq<u8>>, ExtractError>(rows_view(cells@)));
        let ghost before = v@;
        v.push(cells);
        assert(stages_view(v@) =~= stages_view(before).push(rows_view(v@.last()@)));
        s += 1;
    }
    Ok(v)
}

/// A decoded row always holds exactly 20 cells.
pub proof fn lemma_rle_row_width(data: Seq<u8>, pos: int, out: Seq<u8>)
    requires
        rle_row_from(data, pos, out) is Some,
    ensures
        rle_row_from(data, pos, out) matches Some((row, _)) && row.len() == ROW_WIDTH,
    decreases data.len() - pos,
{
    if out.len() < ROW_WIDTH && 0 <= pos < data.len() {
        if data[pos] < 0xDC {
            lemma_rle_row_width(data, pos + 1, out.push(data[pos]));
        } else {
            let (u, n) = rle_group(data[pos]);
            lemma_rle_row_width(
                data,
                pos + 1 + u,
                out + repeat_seq(data.subrange(pos + 1, pos + 1 + u), n as nat),
            );
        }
    }
}

/// Decoding `k` more rows adds exactly `k` rows of 20 cells.
pub proof fn lemma_ground_rows_shape(prg: Seq<u8>, off: int, k: nat, acc: Seq<Seq<u8>>)
    requires
        ground_rows(prg, off, k, acc) is Ok,
        forall|r: int| 0 <= r < acc.len() ==> (#[trigger] acc[r]).len() == ROW_WIDTH,
    ensures
        ground_rows(prg, off, k, acc) matches Ok(v) && v.len() == acc.len() + k && forall|r: int|
            0 <= r < v.len() ==> (#[trigger] v[r]).len() == ROW_WIDTH,
    decreases k,
{
    if k > 0 {
        if let Ok((row, next)) = ground_row(prg, off) {
            if 0 <= off < prg.len() && prg[off] == ROW_REDIRECT {
                lemma_rle_row_width(prg, le16(prg, off + 1) - 0x8000, seq![]);
            } else {
                lemma_rle_row_width(prg, off, seq![]);
            }
            let acc2 = acc.push(row);
            assert forall|r: int| 0 <= r < acc2.len() implies (#[trigger] acc2[r]).len()
                == ROW_WIDTH by {
                if r < acc.len() {
                    assert(acc2[r] == acc[r]);
                }
            }
            lemma_ground_rows_shape(prg, next, (k - 1) as nat, acc2);
        }
    }
}

/// Every stage that decodes has 256 rows of exactly 20 cells.
pub proof fn lemma_stage_cells_shape(prg: Seq<u8>, s: int)
    requires
        stage_cells(prg, s) is Ok,
    ensures
        stage_cells(prg, s) matches Ok(v) && v.len() == 2 * HALF_ROWS && forall|r: int|
            0 <= r < v.len() ==> (#[trigger] v[r]).len() == ROW_WIDTH,
{
    let a0 = ground_half_addr(prg, s, 0);
    let a1 = ground_half_addr(prg, s, 1);
    lemma_ground_rows_shape(prg, a0 - 0x8000, HALF_ROWS as nat, seq![]);
    lemma_ground_rows_shape(prg, a1 - 0x8000, HALF_ROWS as nat, seq![]);
    if let (Ok(h0), Ok(h1)) = (ground_half(prg, a0), ground_half(prg, a1)) {
        let v = h0 + h1;
        assert forall|r: int| 0 <= r < v.len() implies (#[trigger] v[r]).len() == ROW_WIDTH by {
            if r < h0.len() {
                assert(v[r] == h0[r]);
            } else {
                assert(v[r] == h1[r - h0.len()]);
            }
        }
    }
}

/// Whenever all stages decode, there are 16 of them, each of 256 rows of
/// exactly 20 cells.
pub proof fn lemma_stages_shape(prg: Seq<u8>, n: nat)
    requires
        stages_cells(prg, n) is Ok,
    ensures
        stages_cells(prg, n) matches Ok(v) && v.len() == n && forall|s: int|
            0 <= s < n ==> (#[trigger] v[s]).len() == 2 * HALF_ROWS && forall|r: int|
                0 <= r < v[s].len() ==> (#[trigger] v[s][r]).len() == ROW_WIDTH,
    decreases n,
{
    if n > 0 {
        lemma_stages_shape(prg, (n - 1) as nat);
        lemma_stage_cells_shape(prg, n - 1);
        let v = stages_cells(prg, n).unwrap();
        let w = stages_cells(prg, (n - 1) as nat).unwrap();
        assert(v == w.push(stage_cells(prg, n - 1).unwrap()));
        assert forall|s: int| 0 <= s < n implies (#[trigger] v[s]).len() == 2 * HALF_ROWS && forall|r: int|
            0 <= r < v[s].len() ==> (#[trigger] v[s][r]).len() == ROW_WIDTH by {
            if s < n - 1 {
                assert(v[s] == w[s]);
            }
        }
    }
}

} // verus!
