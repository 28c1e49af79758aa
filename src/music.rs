use vstd::prelude::*;

use crate::error::ExtractError;
use crate::rom::{le16, prg_offset, read_u16_le, Rom, PRG_SIZE};

verus! {

/// Number of tunes decoded; the tenth tune of the table is silence.
pub const MUSIC_COUNT: usize = 9;

/// Address of the table of tune configuration bytes.
pub const MUSIC_CFG_ADDR: usize = 0xB716;

/// Address of the table of track start addresses, three per tune.
pub const MUSIC_PTR_ADDR: usize = 0xBBA6;

/// Duty cycle of the square channels.
#[derive(Clone, Copy, Debug, PartialEq, Eq, Structural, Hash)]
pub enum SquareDuty {
    Eighth,
    Quarter,
    Half,
    QuarterNeg,
}

/// The duty class that the two-bit value `v` selects.
pub open spec fn duty_of(v: int) -> SquareDuty {
    if v == 0 {
        SquareDuty::Eighth
    } else if v == 1 {
        SquareDuty::Quarter
    } else if v == 2 {
        SquareDuty::Half
    } else {
        SquareDuty::QuarterNeg
    }
}

/// The two-bit value of a duty class.
pub open spec fn duty_value(d: SquareDuty) -> int {
    match d {
        SquareDuty::Eighth => 0,
        SquareDuty::Quarter => 1,
        SquareDuty::Half => 2,
        SquareDuty::QuarterNeg => 3,
    }
}

impl SquareDuty {
    pub fn new(value: u8) -> (r: Self)
        requires
            value <= 3,
        ensures
            r == duty_of(value as int),
            duty_value(r) == value,
    {
        match value {
            0 => SquareDuty::Eighth,
            1 => SquareDuty::Quarter,
            2 => SquareDuty::Half,
            _ => SquareDuty::QuarterNeg,
        }
    }

    pub fn value(self) -> (r: u8)
        ensures
            r == duty_value(self),
            duty_of(r as int) == self,
    {
        match self {
            SquareDuty::Eighth => 0,
            SquareDuty::Quarter => 1,
            SquareDuty::Half => 2,
            SquareDuty::QuarterNeg => 3,
        }
    }
}

/// One decoded command of a track.
#[derive(Clone, Copy, Debug, PartialEq, Eq, Structural, Hash)]
pub enum MusicCommand {
    Tone { octave: u8, note: u8 },
    Rest,
    SetLength { length: u8 },
    LoopBegin { count: u8 },
    LoopEnd,
    Restart,
    End,
}

impl MusicCommand {
    pub fn new_tone(octave: u8, note: u8) -> (r: Self)
        requires
            note <= 11,
        ensures
            r == (MusicCommand::Tone { octave, note }),
    {
        MusicCommand::Tone { octave, note }
    }

    pub fn new_rest() -> (r: Self)
        ensures
            r == MusicCommand::Rest,
    {
        MusicCommand::Rest
    }

    pub fn new_set_length(length: u8) -> (r: Self)
        requires
            length > 0,
        ensures
            r == (MusicCommand::SetLength { length }),
    {
        MusicCommand::SetLength { length }
    }

    pub fn new_loop_begin(count: u8) -> (r: Self)
        requires
            count > 0,
        ensures
            r == (MusicCommand::LoopBegin { count }),
    {
        MusicCommand::LoopBegin { count }
    }

    pub fn new_loop_end() -> (r: Self)
        ensures
            r == MusicCommand::LoopEnd,
    {
        MusicCommand::LoopEnd
    }

    pub fn new_restart() -> (r: Self)
        ensures
            r == MusicCommand::Restart,
    {
        MusicCommand::Restart
    }

    pub fn new_end() -> (r: Self)
        ensures
            r == MusicCommand::End,
    {
        MusicCommand::End
    }
}

/// What a walk over a command sequence knows after each command: the total
/// duration so far outside loops, the current note length, the count of the
/// open loop and the duration of its body so far.
pub struct DurState {
    pub total: int,
    pub unit: Option<u8>,
    pub loop_count: Option<u8>,
    pub loop_len: int,
}

pub open spec fn dur_init() -> DurState {
    DurState { total: 0, unit: None, loop_count: None, loop_len: 0 }
}

/// The effect of one command on the duration walk.
pub open spec fn dur_step(s: DurState, c: MusicCommand) -> DurState {
    match c {
        MusicCommand::Tone { .. } | MusicCommand::Rest => {
            let u = match s.unit {
                Some(u) => u as int,
                None => 0,
            };
            if s.loop_count is Some {
                DurState { loop_len: s.loop_len + u, ..s }
            } else {
                DurState { total: s.total + u, ..s }
            }
        },
        MusicCommand::SetLength { length } => DurState { unit: Some(length), ..s },
        MusicCommand::LoopBegin { count } => DurState { loop_count: Some(count), ..s },
        MusicCommand::LoopEnd => {
            let n = match s.loop_count {
                Some(n) => n as int,
                None => 0,
            };
            DurState { total: s.total + n * s.loop_len, loop_count: None, loop_len: 0, ..s }
        },
        MusicCommand::Restart | MusicCommand::End => s,
    }
}

/// The duration walk over a whole command sequence.
pub open spec fn dur_state(cmds: Seq<MusicCommand>) -> DurState
    decreases cmds.len(),
{
    if cmds.len() == 0 {
        dur_init()
    } else {
        dur_step(dur_state(cmds.drop_last()), cmds.last())
    }
}

/// Total duration of a track, in frames: every note and rest counts its
/// length, and a loop body counts as many times as the loop repeats.
pub open spec fn track_duration(cmds: Seq<MusicCommand>) -> int {
    dur_state(cmds).total
}

pub proof fn lemma_dur_state_push(cmds: Seq<MusicCommand>, c: MusicCommand)
    ensures
        dur_state(cmds.push(c)) == dur_step(dur_state(cmds), c),
{
    assert(cmds.push(c).drop_last() =~= cmds);
}

/// The command that the non-terminating opcode at address `a` decodes to,
/// with the number of bytes it takes, given the walk state `st` before it.
pub open spec fn track_cmd(prg: Seq<u8>, a: int, st: DurState) -> Result<
    (MusicCommand, int),
    ExtractError,
> {
    let op = prg[a - 0x8000];
    if op == 0 {
        if st.unit is None {
            Err(ExtractError::LengthUnset(a as u16))
        } else {
            Ok((MusicCommand::Rest, 1))
        }
    } else if 0x19 <= op <= 0x7F {
        if st.unit is None {
            Err(ExtractError::LengthUnset(a as u16))
        } else {
            Ok(
                (
                    MusicCommand::Tone {
                        octave: (1 + (op - 1) / 12) as u8,
                        note: ((op - 1) % 12) as u8,
                    },
                    1,
                ),
            )
        }
    } else if 0x80 <= op <= 0xEF {
        if op == 0x80 {
            Err(ExtractError::ZeroLength(a as u16))
        } else {
            Ok((MusicCommand::SetLength { length: (op - 0x80) as u8 }, 1))
        }
    } else if op == 0xFC {
        if st.loop_count is None {
            Err(ExtractError::NotInLoop(a as u16))
        } else {
            Ok((MusicCommand::LoopEnd, 1))
        }
    } else if op == 0xFD {
        if st.loop_count is Some {
            Err(ExtractError::NestedLoop(a as u16))
        } else if a + 1 > 0xFFFF {
            Err(ExtractError::Overrun(PRG_SIZE))
        } else if prg[a + 1 - 0x8000] == 0 {
            Err(ExtractError::ZeroLoopCount(a as u16))
        } else {
            Ok((MusicCommand::LoopBegin { count: prg[a + 1 - 0x8000] }, 2))
        }
    } else {
        Err(ExtractError::InvalidOpcode(a as u16, op))
    }
}

/// Decoding of the track at `ptr` from `offset` on, after the commands `cmds`.
/// With `expect` set, decoding stops once the total duration reaches it and
/// fails if it goes past it.
pub open spec fn decode_track_from(
    prg: Seq<u8>,
    ptr: int,
    expect: Option<int>,
    offset: int,
    cmds: Seq<MusicCommand>,
) -> Result<Seq<MusicCommand>, ExtractError>
    decreases 0x10000 - ptr - offset,
{
    let a = ptr + offset;
    if a < 0x8000 {
        Err(ExtractError::AddressOutOfRange(a as u16))
    } else if a > 0xFFFF || offset < 0 {
        Err(ExtractError::Overrun((a - 0x8000) as usize))
    } else {
        let op = prg[a - 0x8000];
        let st = dur_state(cmds);
        if op == 0xFE || op == 0xFF {
            if st.loop_count is Some {
                Err(ExtractError::UnclosedLoop(a as u16))
            } else if op == 0xFE {
                Ok(cmds.push(MusicCommand::Restart))
            } else {
                Ok(cmds.push(MusicCommand::End))
            }
        } else {
            match track_cmd(prg, a, st) {
                Err(e) => Err(e),
                Ok((c, n)) => {
                    let next = cmds.push(c);
                    match expect {
                        Some(e) => {
                            if track_duration(next) > e {
                                Err(ExtractError::DurationOverrun(a as u16))
                            } else if track_duration(next) == e {
                                Ok(next)
                            } else if n >= 1 {
                                decode_track_from(prg, ptr, expect, offset + n, next)
                            } else {
                                Ok(next)
                            }
                        },
                        None => {
                            if n >= 1 {
                                decode_track_from(prg, ptr, expect, offset + n, next)
                            } else {
                                Ok(next)
                            }
                        },
                    }
                },
            }
        }
    }
}

pub open spec fn opt_int(o: Option<u32>) -> Option<int> {
    match o {
        Some(v) => Some(v as int),
        None => None,
    }
}

/// The commands of the track that starts at `ptr`.
pub open spec fn decode_track(prg: Seq<u8>, ptr: int, expect: Option<int>) -> Result<
    Seq<MusicCommand>,
    ExtractError,
> {
    decode_track_from(prg, ptr, expect, 0, seq![])
}

/// Decodes the track that starts at `ptr` into its commands and its total
/// duration. Without `length_expect` the track ends at its own terminator;
/// with it, once its duration reaches that value.
pub fn load_track(rom: &Rom, ptr: u16, length_expect: Option<u32>) -> (r: Result<
    (Vec<MusicCommand>, u32),
    ExtractError,
>)
    requires
        rom.wf(),
    ensures
        match r {
            Ok((t, len)) => decode_track(rom.prg@, ptr as int, opt_int(length_expect)) == Ok::<
                Seq<MusicCommand>,
                ExtractError,
            >(t@) && len == track_duration(t@),
            Err(e) => decode_track(rom.prg@, ptr as int, opt_int(length_expect)) == Err::<
                Seq<MusicCommand>,
                ExtractError,
            >(e),
        },
{
    let ghost prg = rom.prg@;
    let ghost expect = opt_int(length_expect);
    let mut track: Vec<MusicCommand> = Vec::new();
    let mut offset: usize = 0;
    let mut length: u32 = 0;
    let mut length_unit: Option<u8> = None;
    let mut loop_count: Option<u8> = None;
    let mut length_loop: u32 = 0;

    loop
        invariant
            rom.wf(),
            prg == rom.prg@,
            expect == opt_int(length_expect),
            ptr as int + offset <= 0x10000,
            offset <= 0x8000,
            offset == 0 || ptr >= 0x8000,
            length_unit matches Some(u) ==> u <= 127,
            decode_track(prg, ptr as int, expect) == decode_track_from(
                prg,
                ptr as int,
                expect,
                offset as int,
                track@,
            ),
            length == dur_state(track@).total,
            length_unit == dur_state(track@).unit,
            loop_count == dur_state(track@).loop_count,
            length_loop == dur_state(track@).loop_len,
            // each byte adds at most a note length (127) to a loop body
            // that repeats at most 255 times
            length + 255 * length_loop <= 32385 * offset,
        decreases 0x10000 - ptr - offset,
    {
        let a: usize = ptr as usize + offset;
        if a > 0xFFFF {
            return Err(ExtractError::Overrun(a - 0x8000));
        }
        let pos = match prg_offset(a as u16) {
            Ok(p) => p,
            Err(e) => {
                return Err(e);
            },
        };
        let op = rom.prg[pos];
        assert(offset < 0x8000);
        if op == 0xFE || op == 0xFF {
            if loop_count.is_some() {
                return Err(ExtractError::UnclosedLoop(a as u16));
            }
            let c = if op == 0xFE {
                MusicCommand::new_restart()
            } else {
                MusicCommand::new_end()
            };
            proof {
                lemma_dur_state_push(track@, c);
            }
            track.push(c);
            return Ok((track, length));
        }
        let ghost st = dur_state(track@);
        let c: MusicCommand;
        let n: usize;
        if op == 0 {
            let u = match length_unit {
                Some(u) => u,
                None => {
                    return Err(ExtractError::LengthUnset(a as u16));
                },
            };
            c = MusicCommand::new_rest();
            n = 1;
            if loop_count.is_some() {
                length_loop = length_loop + u as u32;
            } else {
                length = length + u as u32;
            }
        } else if 0x19 <= op && op <= 0x7F {
            let u = match length_unit {
                Some(u) => u,
                None => {
                    return Err(ExtractError::LengthUnset(a as u16));
                },
            };
            let value = op - 1;
            c = MusicCommand::new_tone(1 + value / 12, value % 12);
            n = 1;
            if loop_count.is_some() {
                length_loop = length_loop + u as u32;
            } else {
                length = length + u as u32;
            }
        } else if 0x80 <= op && op <= 0xEF {
            if op == 0x80 {
                return Err(ExtractError::ZeroLength(a as u16));
            }
            length_unit = Some(op - 0x80);
            c = MusicCommand::new_set_length(op - 0x80);
            n = 1;
        } else if op == 0xFC {
            let count = match loop_count {
                Some(k) => k,
                None => {
                    return Err(ExtractError::NotInLoop(a as u16));
                },
            };
            proof {
                assert(count as int * length_loop <= 255 * length_loop) by (nonlinear_arith)
                    requires
                        count <= 255,
                ;
            }
            length = length + count as u32 * length_loop;
            loop_count = None;
            length_loop = 0;
            c = MusicCommand::new_loop_end();
            n = 1;
        } else if op == 0xFD {
            if loop_count.is_some() {
                return Err(ExtractError::NestedLoop(a as u16));
            }
            if a + 1 > 0xFFFF {
                return Err(ExtractError::Overrun(PRG_SIZE));
            }
            let count = rom.prg[pos + 1];
            if count == 0 {
                return Err(ExtractError::ZeroLoopCount(a as u16));
            }
            loop_count = Some(count);
            c = MusicCommand::new_loop_begin(count);
            n = 2;
        } else {
            return Err(ExtractError::InvalidOpcode(a as u16, op));
        }
        proof {
            lemma_dur_state_push(track@, c);
            assert(track_cmd(prg, a as int, st) == Ok::<(MusicCommand, int), ExtractError>(
                (c, n as int),
            ));
        }
        track.push(c);
        offset = offset + n;
        match length_expect {
            Some(e) => {
                if length > e {
                    return Err(ExtractError::DurationOverrun(a as u16));
                }
                if length == e {
                    return Ok((track, length));
                }
            },
            None => {},
        }
    }
}

/// The configuration byte of tune `i` (0-based).
pub open spec fn music_cfg_byte(prg: Seq<u8>, i: int) -> u8 {
    prg[MUSIC_CFG_ADDR - 0x8000 + i]
}

/// A configuration byte is valid when its two reserved bits are clear.
pub open spec fn music_cfg_valid(b: u8) -> bool {
    b & 0x30 == 0
}

/// The (envelope, duty) pair of a configuration byte.
pub open spec fn music_cfg_of(b: u8) -> (u8, SquareDuty) {
    (b & 0x0F, duty_of((b >> 6u8) as int))
}

/// Start address of track `k` (square 1, square 2, triangle) of tune `i`.
pub open spec fn music_ptr(prg: Seq<u8>, i: int, k: int) -> int {
    le16(prg, MUSIC_PTR_ADDR - 0x8000 + 6 * i + 2 * k)
}

/// Reads the (envelope, duty) pair of every tune.
pub fn load_music_cfgs(rom: &Rom) -> (r: Result<Vec<(u8, SquareDuty)>, ExtractError>)
    requires
        rom.wf(),
    ensures
        r is Ok <==> forall|i: int| 0 <= i < MUSIC_COUNT ==> music_cfg_valid(
            #[trigger] music_cfg_byte(rom.prg@, i),
        ),
        r matches Ok(v) ==> v@.len() == MUSIC_COUNT && forall|i: int|
            0 <= i < MUSIC_COUNT ==> #[trigger] v@[i] == music_cfg_of(music_cfg_byte(rom.prg@, i)),
        r matches Err(e) ==> exists|i: int|
            0 <= i < MUSIC_COUNT && !music_cfg_valid(#[trigger] music_cfg_byte(rom.prg@, i))
                && (forall|j: int| 0 <= j < i ==> music_cfg_valid(music_cfg_byte(rom.prg@, j)))
                && e == ExtractError::InvalidMusicConfig(music_cfg_byte(rom.prg@, i)),
{
    let mut v: Vec<(u8, SquareDuty)> = Vec::new();
    let mut i: usize = 0;
    while i < MUSIC_COUNT
        invariant
            rom.wf(),
            i <= MUSIC_COUNT,
            v@.len() == i,
            forall|j: int| 0 <= j < i ==> music_cfg_valid(#[trigger] music_cfg_byte(rom.prg@, j)),
            forall|j: int|
                0 <= j < i ==> #[trigger] v@[j] == music_cfg_of(music_cfg_byte(rom.prg@, j)),
        decreases MUSIC_COUNT - i,
    {
        let b = rom.prg[MUSIC_CFG_ADDR - 0x8000 + i];
        if b & 0x30 != 0 {
            assert(!music_cfg_valid(music_cfg_byte(rom.prg@, i as int)));
            return Err(ExtractError::InvalidMusicConfig(b));
        }
        assert(b >> 6u8 <= 3) by (bit_vector);
        v.push((b & 0x0F, SquareDuty::new(b >> 6)));
        i += 1;
    }
    Ok(v)
}

/// Reads the three track start addresses of every tune.
pub fn load_music_ptrss(rom: &Rom) -> (r: Vec<[u16; 3]>)
    requires
        rom.wf(),
    ensures
        r@.len() == MUSIC_COUNT,
        forall|i: int, k: int|
            0 <= i < MUSIC_COUNT && 0 <= k < 3 ==> #[trigger] r@[i]@[k] as int == music_ptr(
                rom.prg@,
                i,
                k,
            ),
{
    let mut v: Vec<[u16; 3]> = Vec::new();
    let mut i: usize = 0;
    while i < MUSIC_COUNT
        invariant
            rom.wf(),
            i <= MUSIC_COUNT,
            v@.len() == i,
            forall|j: int, k: int|
                0 <= j < i && 0 <= k < 3 ==> #[trigger] v@[j]@[k] as int == music_ptr(
                    rom.prg@,
                    j,
                    k,
                ),
        decreases MUSIC_COUNT - i,
    {
        let base = MUSIC_PTR_ADDR - 0x8000 + 6 * i;
        let ptrs = [
            read_u16_le(&rom.prg, base),
            read_u16_le(&rom.prg, base + 2),
            read_u16_le(&rom.prg, base + 4),
        ];
        v.push(ptrs);
        i += 1;
    }
    v
}

/// A decoded tune.
#[derive(Debug)]
pub struct Music {
    pub id: u8,
    pub sq_envelope: u8,
    pub sq_duty: SquareDuty,
    pub track_sq1: Vec<MusicCommand>,
    pub track_sq2: Vec<MusicCommand>,
    pub track_tri: Vec<MusicCommand>,
}

/// A track that ends by jumping back to the start of the tune.
pub open spec fn is_looping(t: Seq<MusicCommand>) -> bool {
    t.len() > 0 && t.last() == MusicCommand::Restart
}

/// The three tracks of tune `i` (0-based). The square-1 track ends at its own
/// terminator. When it loops, the other two have no terminator: each is read
/// until its duration equals that of square 1 and gets a Restart appended.
/// Otherwise each is read to its own terminator. All three durations must agree.
pub open spec fn decode_music_tracks(prg: Seq<u8>, i: int) -> Result<
    (Seq<MusicCommand>, Seq<MusicCommand>, Seq<MusicCommand>),
    ExtractError,
> {
    match decode_track(prg, music_ptr(prg, i, 0), None) {
        Err(e) => Err(e),
        Ok(t1) => {
            let looping = is_looping(t1);
            let ex = if looping {
                Some(track_duration(t1))
            } else {
                None
            };
            match decode_track(prg, music_ptr(prg, i, 1), ex) {
                Err(e) => Err(e),
                Ok(t2) => match decode_track(prg, music_ptr(prg, i, 2), ex) {
                    Err(e) => Err(e),
                    Ok(t3) => {
                        if track_duration(t1) != track_duration(t2) || track_duration(t1)
                            != track_duration(t3) {
                            Err(ExtractError::DurationMismatch((i + 1) as u8))
                        } else if looping {
                            Ok(
                                (
                                    t1,
                                    t2.push(MusicCommand::Restart),
                                    t3.push(MusicCommand::Restart),
                                ),
                            )
                        } else {
                            Ok((t1, t2, t3))
                        }
                    },
                },
            }
        },
    }
}

/// `m` is tune `i` (0-based) of the code region `prg`.
pub open spec fn music_matches(prg: Seq<u8>, i: int, m: Music) -> bool {
    &&& m.id == i + 1
    &&& (m.sq_envelope, m.sq_duty) == music_cfg_of(music_cfg_byte(prg, i))
    &&& decode_music_tracks(prg, i) == Ok::<
        (Seq<MusicCommand>, Seq<MusicCommand>, Seq<MusicCommand>),
        ExtractError,
    >((m.track_sq1@, m.track_sq2@, m.track_tri@))
}

/// Decodes the three tracks of tune `i` (0-based).
fn load_music_tracks(rom: &Rom, i: usize, ptrs: [u16; 3]) -> (r: Result<
    (Vec<MusicCommand>, Vec<MusicCommand>, Vec<MusicCommand>),
    ExtractError,
>)
    requires
        rom.wf(),
        i < MUSIC_COUNT,
        forall|k: int| 0 <= k < 3 ==> #[trigger] ptrs@[k] as int == music_ptr(rom.prg@, i as int, k),
    ensures
        match r {
            Ok((a, b, c)) => decode_music_tracks(rom.prg@, i as int) == Ok::<
                (Seq<MusicCommand>, Seq<MusicCommand>, Seq<MusicCommand>),
                ExtractError,
            >((a@, b@, c@)),
            Err(e) => decode_music_tracks(rom.prg@, i as int) == Err::<
                (Seq<MusicCommand>, Seq<MusicCommand>, Seq<MusicCommand>),
                ExtractError,
            >(e),
        },
{
    let ghost prg = rom.prg@;
    assert(ptrs@[0] as int == music_ptr(prg, i as int, 0));
    assert(ptrs@[1] as int == music_ptr(prg, i as int, 1));
    assert(ptrs@[2] as int == music_ptr(prg, i as int, 2));
    let (track_sq1, length_sq1) = match load_track(rom, ptrs[0], None) {
        Ok(x) => x,
        Err(e) => {
            return Err(e);
        },
    };
    let n = track_sq1.len();
    let music_loop = n > 0 && matches!(track_sq1[n - 1], MusicCommand::Restart);
    assert(music_loop == is_looping(track_sq1@));
    let length_expect = if music_loop {
        Some(length_sq1)
    } else {
        None
    };
    let (mut track_sq2, length_sq2) = match load_track(rom, ptrs[1], length_expect) {
        Ok(x) => x,
        Err(e) => {
            return Err(e);
        },
    };
    let (mut track_tri, length_tri) = match load_track(rom, ptrs[2], length_expect) {
        Ok(x) => x,
        Err(e) => {
            return Err(e);
        },
    };
    if length_sq1 != length_sq2 || length_sq1 != length_tri {
        return Err(ExtractError::DurationMismatch((i + 1) as u8));
    }
    if music_loop {
        track_sq2.push(MusicCommand::new_restart());
        track_tri.push(MusicCommand::new_restart());
    }
    Ok((track_sq1, track_sq2, track_tri))
}

/// Decodes every tune.
pub fn load_musics(rom: &Rom) -> (r: Result<Vec<Music>, ExtractError>)
    requires
        rom.wf(),
    ensures
        r is Ok <==> (forall|i: int|
            0 <= i < MUSIC_COUNT ==> music_cfg_valid(#[trigger] music_cfg_byte(rom.prg@, i)))
            && (forall|i: int|
            0 <= i < MUSIC_COUNT ==> (#[trigger] decode_music_tracks(rom.prg@, i)) is Ok),
        r matches Ok(v) ==> v@.len() == MUSIC_COUNT && forall|i: int|
            0 <= i < MUSIC_COUNT ==> music_matches(rom.prg@, i, #[trigger] v@[i]),
        r matches Err(e) ==> {
            ||| exists|i: int|
                0 <= i < MUSIC_COUNT && !music_cfg_valid(#[trigger] music_cfg_byte(rom.prg@, i))
                    && (forall|j: int| 0 <= j < i ==> music_cfg_valid(music_cfg_byte(rom.prg@, j)))
                    && e == ExtractError::InvalidMusicConfig(music_cfg_byte(rom.prg@, i))
            ||| (forall|i: int|
                0 <= i < MUSIC_COUNT ==> music_cfg_valid(#[trigger] music_cfg_byte(rom.prg@, i)))
                && exists|i: int|
                0 <= i < MUSIC_COUNT && (#[trigger] decode_music_tracks(rom.prg@, i))
                    == Err::<(Seq<MusicCommand>, Seq<MusicCommand>, Seq<MusicCommand>), ExtractError>(e)
                    && (forall|j: int| 0 <= j < i ==> decode_music_tracks(rom.prg@, j) is Ok)
        },
{
    let cfgs = match load_music_cfgs(rom) {
        Ok(c) => c,
        Err(e) => {
            return Err(e);
        },
    };
    let ptrss = load_music_ptrss(rom);
    let mut v: Vec<Music> = Vec::new();
    let mut i: usize = 0;
    while i < MUSIC_COUNT
        invariant
            rom.wf(),
            i <= MUSIC_COUNT,
            cfgs@.len() == MUSIC_COUNT,
            ptrss@.len() == MUSIC_COUNT,
            forall|j: int| 0 <= j < MUSIC_COUNT ==> music_cfg_valid(#[trigger] music_cfg_byte(rom.prg@, j)),
            forall|j: int|
                0 <= j < MUSIC_COUNT ==> #[trigger] cfgs@[j] == music_cfg_of(music_cfg_byte(rom.prg@, j)),
            forall|j: int, k: int|
                0 <= j < MUSIC_COUNT && 0 <= k < 3 ==> #[trigger] ptrss@[j]@[k] as int == music_ptr(
                    rom.prg@,
                    j,
                    k,
                ),
            v@.len() == i,
            forall|j: int| 0 <= j < i ==> music_matches(rom.prg@, j, #[trigger] v@[j]),
            forall|j: int| 0 <= j < i ==> (#[trigger] decode_music_tracks(rom.prg@, j)) is Ok,
        decreases MUSIC_COUNT - i,
    {
        let ptrs = ptrss[i];
        assert forall|k: int| 0 <= k < 3 implies #[trigger] ptrs@[k] as int == music_ptr(rom.prg@, i as int, k) by {
            assert(ptrss@[i as int]@[k] as int == music_ptr(rom.prg@, i as int, k));
        }
        let (track_sq1, track_sq2, track_tri) = match load_music_tracks(rom, i, ptrs) {
            Ok(x) => x,
            Err(e) => {
                return Err(e);
            },
        };
        let (sq_envelope, sq_duty) = cfgs[i];
        let m = Music {
            id: (i + 1) as u8,
            sq_envelope,
            sq_duty,
            track_sq1,
            track_sq2,
            track_tri,
        };
        assert(music_matches(rom.prg@, i as int, m));
        v.push(m);
        i += 1;
    }
    Ok(v)
}

/// A track read to its own terminator ends in Restart or End.
pub proof fn lemma_track_ends_in_terminator(
    prg: Seq<u8>,
    ptr: int,
    offset: int,
    cmds: Seq<MusicCommand>,
)
    requires
        decode_track_from(prg, ptr, None, offset, cmds) is Ok,
    ensures
        decode_track_from(prg, ptr, None, offset, cmds) matches Ok(t) && t.len() > 0 && (t.last()
            == MusicCommand::Restart || t.last() == MusicCommand::End),
    decreases 0x10000 - ptr - offset,
{
    let a = ptr + offset;
    if 0x8000 <= a <= 0xFFFF && offset >= 0 {
        let op = prg[a - 0x8000];
        if !(op == 0xFE || op == 0xFF) {
            if let Ok((c, n)) = track_cmd(prg, a, dur_state(cmds)) {
                if n >= 1 {
                    lemma_track_ends_in_terminator(prg, ptr, offset + n, cmds.push(c));
                } else {
                    assert(track_cmd(prg, a, dur_state(cmds)) matches Ok((_, k)) && k >= 1);
                }
            }
        }
    }
}

/// In every decoded tune the three tracks last equally long. When square 1
/// loops, the other two tracks end in Restart as well. Otherwise square 1 ends
/// in End and the other two are exactly their own streams read to their own
/// terminators, with nothing appended: each ends in End unless its stream
/// ends in the restart byte.
pub proof fn lemma_music_tracks_agree(prg: Seq<u8>, i: int, m: Music)
    requires
        music_matches(prg, i, m),
    ensures
        track_duration(m.track_sq1@) == track_duration(m.track_sq2@),
        track_duration(m.track_sq1@) == track_duration(m.track_tri@),
        is_looping(m.track_sq1@) ==> m.track_sq2@.last() == MusicCommand::Restart
            && m.track_tri@.last() == MusicCommand::Restart,
        !is_looping(m.track_sq1@) ==> {
            &&& m.track_sq1@.last() == MusicCommand::End
            &&& decode_track(prg, music_ptr(prg, i, 1), None) == Ok::<
                Seq<MusicCommand>,
                ExtractError,
            >(m.track_sq2@)
            &&& decode_track(prg, music_ptr(prg, i, 2), None) == Ok::<
                Seq<MusicCommand>,
                ExtractError,
            >(m.track_tri@)
            &&& m.track_sq2@.last() != MusicCommand::Restart ==> m.track_sq2@.last()
                == MusicCommand::End
            &&& m.track_tri@.last() != MusicCommand::Restart ==> m.track_tri@.last()
                == MusicCommand::End
        },
{
    let t1 = m.track_sq1@;
    lemma_track_ends_in_terminator(prg, music_ptr(prg, i, 0), 0, seq![]);
    if is_looping(t1) {
        let ex = Some(track_duration(t1));
        if let Ok(t2) = decode_track(prg, music_ptr(prg, i, 1), ex) {
            lemma_dur_state_push(t2, MusicCommand::Restart);
        }
        if let Ok(t3) = decode_track(prg, music_ptr(prg, i, 2), ex) {
            lemma_dur_state_push(t3, MusicCommand::Restart);
        }
    } else {
        lemma_track_ends_in_terminator(prg, music_ptr(prg, i, 1), 0, seq![]);
        lemma_track_ends_in_terminator(prg, music_ptr(prg, i, 2), 0, seq![]);
    }
}

} // verus!
