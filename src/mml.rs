use vstd::prelude::*;

use crate::error::ExtractError;
use crate::music::{Music, MusicCommand, SquareDuty};

verus! {

/// Decimal digits of `n`, most significant first.
pub open spec fn dec_text(n: nat) -> Seq<u8>
    decreases n,
{
    if n < 10 {
        seq![(48 + n) as u8]
    } else {
        dec_text(n / 10) + seq![(48 + n % 10) as u8]
    }
}

/// The MML name of a note value 0..=11.
pub open spec fn note_text(note: u8) -> Seq<u8> {
    if note == 0 {
        seq![0x43u8]  // "C"
    } else if note == 1 {
        seq![0x43u8, 0x2Bu8]  // "C+"
    } else if note == 2 {
        seq![0x44u8]  // "D"
    } else if note == 3 {
        seq![0x44u8, 0x2Bu8]  // "D+"
    } else if note == 4 {
        seq![0x45u8]  // "E"
    } else if note == 5 {
        seq![0x46u8]  // "F"
    } else if note == 6 {
        seq![0x46u8, 0x2Bu8]  // "F+"
    } else if note == 7 {
        seq![0x47u8]  // "G"
    } else if note == 8 {
        seq![0x47u8, 0x2Bu8]  // "G+"
    } else if note == 9 {
        seq![0x41u8]  // "A"
    } else if note == 10 {
        seq![0x41u8, 0x2Bu8]  // "A+"
    } else {
        seq![0x42u8]  // "B"
    }
}

/// MML ticks (1/384 note) of a length in frames: one frame is a 1/192 note.
pub open spec fn tick_of(length: int) -> int {
    2 * length
}

/// `p` in front of the text `o`, when there is one.
pub open spec fn prefix_text(p: Seq<u8>, o: Option<Seq<u8>>) -> Option<Seq<u8>> {
    match o {
        Some(t) => Some(p + t),
        None => None,
    }
}

/// The MML text of one command; `cur` is the note length in force.
pub open spec fn mml_cmd_text(c: MusicCommand, cur: int) -> Seq<u8> {
    match c {
        // "O", octave, note name, "%", ticks, " "
        MusicCommand::Tone { octave, note } => seq![0x4Fu8] + dec_text(octave as nat) + note_text(
            note,
        ) + seq![0x25u8] + dec_text(tick_of(cur) as nat) + seq![0x20u8],
        // "R%", ticks, " "
        MusicCommand::Rest => seq![0x52u8, 0x25u8] + dec_text(tick_of(cur) as nat) + seq![0x20u8],
        // "/:", count, " "
        MusicCommand::LoopBegin { count } => seq![0x2Fu8, 0x3Au8] + dec_text(count as nat) + seq![
            0x20u8,
        ],
        MusicCommand::LoopEnd => seq![0x3Au8, 0x2Fu8, 0x20u8],  // ":/ "
        _ => seq![],
    }
}

/// The MML text of the commands of `cmds` from index `i` on, with `cur` the
/// note length in force; nothing when a note or rest comes before any length
/// or a note value is above 11. Text stops at Restart or End.
pub open spec fn mml_track_from(cmds: Seq<MusicCommand>, i: int, cur: Option<u8>) -> Option<
    Seq<u8>,
>
    decreases cmds.len() - i,
{
    if i < 0 || i >= cmds.len() {
        Some(seq![])
    } else {
        match cmds[i] {
            MusicCommand::Restart | MusicCommand::End => Some(seq![]),
            MusicCommand::SetLength { length } => mml_track_from(cmds, i + 1, Some(length)),
            MusicCommand::Tone { note, .. } => {
                if note > 11 || cur is None {
                    None
                } else {
                    prefix_text(
                        mml_cmd_text(cmds[i], cur.unwrap() as int),
                        mml_track_from(cmds, i + 1, cur),
                    )
                }
            },
            MusicCommand::Rest => {
                if cur is None {
                    None
                } else {
                    prefix_text(
                        mml_cmd_text(cmds[i], cur.unwrap() as int),
                        mml_track_from(cmds, i + 1, cur),
                    )
                }
            },
            _ => prefix_text(mml_cmd_text(cmds[i], 0), mml_track_from(cmds, i + 1, cur)),
        }
    }
}

/// The MML text of a whole track.
pub open spec fn mml_track(cmds: Seq<MusicCommand>) -> Option<Seq<u8>> {
    mml_track_from(cmds, 0, None)
}

/// Duty parameter of the MML square voice.
pub open spec fn duty_param(d: SquareDuty) -> int {
    match d {
        SquareDuty::Eighth => 1,
        SquareDuty::Quarter => 2,
        SquareDuty::Half => 4,
        SquareDuty::QuarterNeg => 6,
    }
}

/// Envelope decay in 1/127 s: the hardware envelope steps every
/// (envelope + 1) / 240 s through 15 levels; rounded to nearest, ties up.
pub open spec fn decay_of(envelope: u8) -> int {
    (127 * 15 * (envelope + 1) + 120) / 240
}

/// Header line of a square track.
pub open spec fn sq_header(envelope: u8, duty: SquareDuty) -> Seq<u8> {
    seq![0x40u8, 0x35u8, 0x40u8, 0x57u8]  // "@5@W"
        + dec_text(duty_param(duty) as nat)
        + seq![0x20u8, 0x56u8, 0x31u8, 0x35u8, 0x20u8, 0x40u8, 0x45u8, 0x31u8, 0x2Cu8, 0x30u8, 0x2Cu8]  // " V15 @E1,0,"
        + dec_text(decay_of(envelope) as nat)
        + seq![0x2Cu8, 0x30u8, 0x2Cu8, 0x30u8, 0x20u8, 0x0Au8]  // ",0,0 \n"
}

/// The line that closes a track.
pub open spec fn track_end() -> Seq<u8> {
    seq![0x3Bu8, 0x0Au8]  // ";\n"
}

/// Header line of the triangle track.
pub open spec fn tri_header() -> Seq<u8> {
    seq![0x56u8, 0x31u8, 0x20u8, 0x40u8, 0x36u8, 0x0Au8]  // "V1 @6\n"
}

/// The tempo line. The game counts lengths in frames and MML in 1/384 notes;
/// with one frame taken as a 1/192 note, a quarter note is 48 frames, which
/// at 60 frames per second is 75 beats per minute.
pub open spec fn tempo_line() -> Seq<u8> {
    seq![0x54u8, 0x37u8, 0x35u8, 0x0Au8]  // "T75\n"
}

/// The whole MML text of a tune: the tempo, two square voices and the
/// triangle voice, each closed by a semicolon line.
pub open spec fn mml_text(m: Music) -> Option<Seq<u8>> {
    match (mml_track(m.track_sq1@), mml_track(m.track_sq2@), mml_track(m.track_tri@)) {
        (Some(a), Some(b), Some(c)) => Some(
            tempo_line() + (sq_header(m.sq_envelope, m.sq_duty) + a + track_end()) + (sq_header(
                m.sq_envelope,
                m.sq_duty,
            ) + b + track_end()) + (tri_header() + c + track_end()),
        ),
        _ => None,
    }
}

/// Appends the bytes of `s`.
fn push_all(out: &mut Vec<u8>, s: &[u8])
    ensures
        final(out)@ == old(out)@ + s@,
{
    let mut i: usize = 0;
    while i < s.len()
        invariant
            i <= s@.len(),
            out@ == old(out)@ + s@.take(i as int),
        decreases s@.len() - i,
    {
        out.push(s[i]);
        i += 1;
        assert(out@ =~= old(out)@ + s@.take(i as int));
    }
    assert(s@.take(s@.len() as int) =~= s@);
}

/// Appends the decimal digits of `n`.
fn push_decimal(out: &mut Vec<u8>, n: u32)
    ensures
        final(out)@ == old(out)@ + dec_text(n as nat),
    decreases n,
{
    if n >= 10 {
        push_decimal(out, n / 10);
    }
    out.push((48 + n % 10) as u8);
    assert(final(out)@ =~= old(out)@ + dec_text(n as nat)) by {
        if n >= 10 {
            assert(old(out)@ + dec_text((n / 10) as nat) + seq![(48 + n % 10) as u8] =~= old(
                out,
            )@ + dec_text(n as nat));
        }
    }
}

impl Music {
    /// Renders the tune as MML text: a tempo line, one line of voice settings
    /// and one of notes for each square track, the same for the triangle
    /// track, each track closed by a semicolon line.
    pub fn write_mml(&self) -> (r: Result<Vec<u8>, ExtractError>)
        ensures
            r is Ok <==> mml_text(*self) is Some,
            r matches Ok(v) ==> mml_text(*self) == Some(v@),
    {
        let mut out: Vec<u8> = Vec::new();
        push_all(&mut out, [0x54u8, 0x37u8, 0x35u8, 0x0Au8].as_slice());  // "T75\n"
        assert(out@ =~= tempo_line());
        let r1 = Self::write_mml_sq_track(&mut out, self.sq_envelope, self.sq_duty, &self.track_sq1);
        if let Err(e) = r1 {
            return Err(e);
        }
        let r2 = Self::write_mml_sq_track(&mut out, self.sq_envelope, self.sq_duty, &self.track_sq2);
        if let Err(e) = r2 {
            return Err(e);
        }
        let r3 = Self::write_mml_tri_track(&mut out, &self.track_tri);
        if let Err(e) = r3 {
            return Err(e);
        }
        assert(out@ =~= mml_text(*self).unwrap());
        Ok(out)
    }

    fn write_mml_sq_track(
        out: &mut Vec<u8>,
        envelope: u8,
        duty: SquareDuty,
        track: &Vec<MusicCommand>,
    ) -> (r: Result<(), ExtractError>)
        ensures
            r is Ok <==> mml_track(track@) is Some,
            r is Ok ==> final(out)@ == old(out)@ + (sq_header(envelope, duty) + mml_track(
                track@,
            ).unwrap() + track_end()),
    {
        push_all(out, [0x40u8, 0x35u8, 0x40u8, 0x57u8].as_slice());  // "@5@W"
        let w: u32 = match duty {
            SquareDuty::Eighth => 1,
            SquareDuty::Quarter => 2,
            SquareDuty::Half => 4,
            SquareDuty::QuarterNeg => 6,
        };
        push_decimal(out, w);
        push_all(
            out,
            [0x20u8, 0x56u8, 0x31u8, 0x35u8, 0x20u8, 0x40u8, 0x45u8, 0x31u8, 0x2Cu8, 0x30u8, 0x2Cu8]  // " V15 @E1,0,"
                .as_slice(),
        );
        let decay: u32 = (127 * 15 * (envelope as u32 + 1) + 120) / 240;
        push_decimal(out, decay);
        push_all(out, [0x2Cu8, 0x30u8, 0x2Cu8, 0x30u8, 0x20u8, 0x0Au8].as_slice());  // ",0,0 \n"
        assert(out@ =~= old(out)@ + sq_header(envelope, duty));
        let r = Self::write_mml_track(out, track);
        if r.is_err() {
            return r;
        }
        push_all(out, [0x3Bu8, 0x0Au8].as_slice());  // ";\n"
        assert(out@ =~= old(out)@ + (sq_header(envelope, duty) + mml_track(track@).unwrap()
            + track_end()));
        Ok(())
    }

    fn write_mml_tri_track(out: &mut Vec<u8>, track: &Vec<MusicCommand>) -> (r: Result<
        (),
        ExtractError,
    >)
        ensures
            r is Ok <==> mml_track(track@) is Some,
            r is Ok ==> final(out)@ == old(out)@ + (tri_header() + mml_track(track@).unwrap()
                + track_end()),
    {
        push_all(out, [0x56u8, 0x31u8, 0x20u8, 0x40u8, 0x36u8, 0x0Au8].as_slice());  // "V1 @6\n"
        let r = Self::write_mml_track(out, track);
        if r.is_err() {
            return r;
        }
        push_all(out, [0x3Bu8, 0x0Au8].as_slice());  // ";\n"
        assert(out@ =~= old(out)@ + (tri_header() + mml_track(track@).unwrap() + track_end()));
        Ok(())
    }

    fn write_mml_track(out: &mut Vec<u8>, track: &Vec<MusicCommand>) -> (r: Result<
        (),
        ExtractError,
    >)
        ensures
            r is Ok <==> mml_track(track@) is Some,
            r is Ok ==> final(out)@ == old(out)@ + mml_track(track@).unwrap(),
    {
        let mut length_cur: Option<u8> = None;
        let mut i: usize = 0;
        while i < track.len()
            invariant
                i <= track@.len(),
                prefix_text(old(out)@, mml_track(track@)) == prefix_text(
                    out@,
                    mml_track_from(track@, i as int, length_cur),
                ),
            decreases track@.len() - i,
        {
            let ghost before = out@;
            match track[i] {
                MusicCommand::Tone { octave, note } => {
                    let len = match length_cur {
                        Some(l) => l,
                        None => {
                            return Err(ExtractError::TrackLengthUnset);
                        },
                    };
                    if note > 11 {
                        return Err(ExtractError::InvalidNote(note));
                    }
                    out.push(0x4Fu8);  // "O"
                    push_decimal(out, octave as u32);
                    push_all(out, Self::note_to_str(note));
                    out.push(0x25u8);  // "%"
                    push_decimal(out, Self::length_to_tick(len as u32));
                    out.push(0x20u8);  // " "
                },
                MusicCommand::Rest => {
                    let len = match length_cur {
                        Some(l) => l,
                        None => {
                            return Err(ExtractError::TrackLengthUnset);
                        },
                    };
                    out.push(0x52u8);  // "R"
                    out.push(0x25u8);  // "%"
                    push_decimal(out, Self::length_to_tick(len as u32));
                    out.push(0x20u8);  // " "
                },
                MusicCommand::SetLength { length } => {
                    length_cur = Some(length);
                },
                MusicCommand::LoopBegin { count } => {
                    out.push(0x2Fu8);  // "/"
                    out.push(0x3Au8);  // ":"
                    push_decimal(out, count as u32);
                    out.push(0x20u8);  // " "
                },
                MusicCommand::LoopEnd => {
                    out.push(0x3Au8);  // ":"
                    out.push(0x2Fu8);  // "/"
                    out.push(0x20u8);  // " "
                },
                MusicCommand::Restart | MusicCommand::End => {
                    assert(out@ =~= old(out)@ + mml_track(track@).unwrap());
                    return Ok(());
                },
            }
            proof {
                let c = track@[i as int];
                if !(c is SetLength) {
                    assert(out@ =~= before + mml_cmd_text(
                        c,
                        match length_cur {
                            Some(l) => l as int,
                            None => 0,
                        },
                    ));
                }
            }
            i += 1;
        }
        assert(out@ =~= old(out)@ + mml_track(track@).unwrap());
        Ok(())
    }

    fn note_to_str(note: u8) -> (r: &'static [u8])
        requires
            note <= 11,
        ensures
            r@ == note_text(note),
    {
        let r: &'static [u8] = match note {
            0 => [0x43u8].as_slice(),  // "C"
            1 => [0x43u8, 0x2Bu8].as_slice(),  // "C+"
            2 => [0x44u8].as_slice(),  // "D"
            3 => [0x44u8, 0x2Bu8].as_slice(),  // "D+"
            4 => [0x45u8].as_slice(),  // "E"
            5 => [0x46u8].as_slice(),  // "F"
            6 => [0x46u8, 0x2Bu8].as_slice(),  // "F+"
            7 => [0x47u8].as_slice(),  // "G"
            8 => [0x47u8, 0x2Bu8].as_slice(),  // "G+"
            9 => [0x41u8].as_slice(),  // "A"
            10 => [0x41u8, 0x2Bu8].as_slice(),  // "A+"
            _ => [0x42u8].as_slice(),  // "B"
        };
        r
    }

    fn length_to_tick(length: u32) -> (r: u32)
        requires
            length <= 255,
        ensures
            r == tick_of(length as int),
    {
        2 * length
    }
}

} // verus!
