use star_soldier_extract::{
    load_music_cfgs, load_music_ptrss, load_musics, load_track, ExtractError, Music, MusicCommand,
    Rom, SquareDuty,
};

fn music_image(patches: &[(u16, &[u8])]) -> Vec<u8> {
    let mut buf = vec![0u8; 16 + 0x10000];
    buf[..4].copy_from_slice(&[0x4E, 0x45, 0x53, 0x1A]);
    for (addr, bytes) in patches {
        let at = 16 + (*addr as usize - 0x8000);
        buf[at..at + bytes.len()].copy_from_slice(bytes);
    }
    buf
}

fn track_rom(bytes: &[u8]) -> Rom {
    Rom::from_ines_bytes(&music_image(&[(0x9000, bytes)])).unwrap()
}

/// An image whose nine tunes all use the three given track addresses.
fn tunes_image(ptrs: [u16; 3], tracks: &[(u16, &[u8])]) -> Vec<u8> {
    let mut table = Vec::new();
    for _ in 0..9 {
        for p in ptrs {
            table.extend(p.to_le_bytes());
        }
    }
    let mut patches: Vec<(u16, &[u8])> = vec![(0xBBA6, &table)];
    patches.extend_from_slice(tracks);
    music_image(&patches)
}

#[test]
fn track_single_tone() {
    let rom = track_rom(&[0xB0, 0x25, 0xFF]);
    let (track, len) = load_track(&rom, 0x9000, None).unwrap();
    assert_eq!(
        track,
        vec![
            MusicCommand::new_set_length(48),
            MusicCommand::new_tone(4, 0),
            MusicCommand::new_end()
        ]
    );
    assert_eq!(len, 48);
}

#[test]
fn track_tone_octaves_and_rest() {
    let rom = track_rom(&[0x81, 0x19, 0x7F, 0x00, 0xFE]);
    let (track, len) = load_track(&rom, 0x9000, None).unwrap();
    assert_eq!(
        track,
        vec![
            MusicCommand::SetLength { length: 1 },
            MusicCommand::Tone { octave: 3, note: 0 },
            MusicCommand::Tone { octave: 11, note: 6 },
            MusicCommand::Rest,
            MusicCommand::Restart,
        ]
    );
    assert_eq!(len, 3);
}

#[test]
fn track_loop_counts_body_times_count() {
    let rom = track_rom(&[0x8A, 0xFD, 3, 0x25, 0x00, 0xFC, 0x85, 0x25, 0xFF]);
    let (track, len) = load_track(&rom, 0x9000, None).unwrap();
    assert_eq!(track.len(), 8);
    assert_eq!(track[1], MusicCommand::new_loop_begin(3));
    assert_eq!(track[4], MusicCommand::new_loop_end());
    assert_eq!(len, 3 * 20 + 5);
}

#[test]
fn track_expected_length_stops_without_terminator() {
    let rom = track_rom(&[0x90, 0x25, 0x25, 0x25, 0x37]);
    let (track, len) = load_track(&rom, 0x9000, Some(32)).unwrap();
    assert_eq!(track.len(), 3);
    assert_eq!(len, 32);
    assert_eq!(
        load_track(&rom, 0x9000, Some(40)),
        Err(ExtractError::DurationOverrun(0x9003))
    );
}

#[test]
fn track_errors() {
    let cases: Vec<(Vec<u8>, ExtractError)> = vec![
        (vec![0x25, 0xFF], ExtractError::LengthUnset(0x9000)),
        (vec![0x00], ExtractError::LengthUnset(0x9000)),
        (vec![0x81, 0x10], ExtractError::InvalidOpcode(0x9001, 0x10)),
        (vec![0xF5], ExtractError::InvalidOpcode(0x9000, 0xF5)),
        (vec![0x80], ExtractError::ZeroLength(0x9000)),
        (vec![0xFD, 0], ExtractError::ZeroLoopCount(0x9000)),
        (vec![0xFD, 2, 0xFD, 2], ExtractError::NestedLoop(0x9002)),
        (vec![0x81, 0xFC], ExtractError::NotInLoop(0x9001)),
        (vec![0xFD, 2, 0xFF], ExtractError::UnclosedLoop(0x9002)),
        (vec![0xFD, 2, 0xFE], ExtractError::UnclosedLoop(0x9002)),
    ];
    for (bytes, err) in cases {
        let rom = track_rom(&bytes);
        assert_eq!(load_track(&rom, 0x9000, None), Err(err));
    }
    let rom = track_rom(&[]);
    assert_eq!(load_track(&rom, 0x1000, None), Err(ExtractError::AddressOutOfRange(0x1000)));
}

#[test]
fn track_runs_off_region_end() {
    let rom = Rom::from_ines_bytes(&music_image(&[(0xFFFE, &[0x81, 0x25])])).unwrap();
    assert_eq!(load_track(&rom, 0xFFFE, None), Err(ExtractError::Overrun(0x8000)));
    let rom = Rom::from_ines_bytes(&music_image(&[(0xFFFF, &[0xFD])])).unwrap();
    assert_eq!(load_track(&rom, 0xFFFF, None), Err(ExtractError::Overrun(0x8000)));
}

#[test]
fn music_cfgs_split_envelope_and_duty() {
    let buf = music_image(&[(0xB716, &[0x07, 0x4F, 0x80, 0xC3, 0, 0, 0, 0, 0x0A])]);
    let rom = Rom::from_ines_bytes(&buf).unwrap();
    let cfgs = load_music_cfgs(&rom).unwrap();
    assert_eq!(cfgs.len(), 9);
    assert_eq!(cfgs[0], (7, SquareDuty::Eighth));
    assert_eq!(cfgs[1], (15, SquareDuty::Quarter));
    assert_eq!(cfgs[2], (0, SquareDuty::Half));
    assert_eq!(cfgs[3], (3, SquareDuty::QuarterNeg));
    assert_eq!(cfgs[8], (10, SquareDuty::Eighth));
    let buf = music_image(&[(0xB716, &[0x07, 0x4F, 0x10, 0x20])]);
    let rom = Rom::from_ines_bytes(&buf).unwrap();
    assert_eq!(load_music_cfgs(&rom), Err(ExtractError::InvalidMusicConfig(0x10)));
}

#[test]
fn music_ptrs_table() {
    let buf = tunes_image([0x9000, 0x9100, 0xA234], &[]);
    let rom = Rom::from_ines_bytes(&buf).unwrap();
    let ptrss = load_music_ptrss(&rom);
    assert_eq!(ptrss.len(), 9);
    assert!(ptrss.iter().all(|p| *p == [0x9000, 0x9100, 0xA234]));
}

#[test]
fn musics_non_looping_tracks_keep_their_end() {
    let buf = tunes_image([0x9000, 0x9000, 0x9000], &[(0x9000, &[0xB0, 0x25, 0xFF])]);
    let rom = Rom::from_ines_bytes(&buf).unwrap();
    let musics = load_musics(&rom).unwrap();
    assert_eq!(musics.len(), 9);
    for (i, m) in musics.iter().enumerate() {
        assert_eq!(m.id as usize, i + 1);
        assert_eq!(m.track_sq1.len(), 3);
        assert_eq!(m.track_sq1, m.track_sq2);
        assert_eq!(m.track_sq1, m.track_tri);
        assert_eq!(m.track_sq2.last(), Some(&MusicCommand::End));
        let tones = m.track_sq1.iter().filter(|c| matches!(c, MusicCommand::Tone { .. }));
        assert_eq!(tones.count(), 1);
    }
}

#[test]
fn musics_looping_tracks_get_restart() {
    let buf = tunes_image(
        [0x9000, 0x9100, 0x9200],
        &[
            (0x9000, &[0xB0, 0x25, 0x25, 0xFE]),
            (0x9100, &[0xE0, 0x29, 0xAA]),
            (0x9200, &[0xA0, 0x00, 0x00, 0x00, 0x12]),
        ],
    );
    let rom = Rom::from_ines_bytes(&buf).unwrap();
    let musics = load_musics(&rom).unwrap();
    let m = &musics[0];
    assert_eq!(m.track_sq1.last(), Some(&MusicCommand::Restart));
    assert_eq!(
        m.track_sq2,
        vec![
            MusicCommand::SetLength { length: 0x60 },
            MusicCommand::Tone { octave: 4, note: 4 },
            MusicCommand::Restart
        ]
    );
    assert_eq!(m.track_tri.len(), 5);
    assert_eq!(m.track_tri.last(), Some(&MusicCommand::Restart));
    assert_eq!(load_track(&rom, 0x9000, None).unwrap().1, 96);
    assert_eq!(load_track(&rom, 0x9100, Some(96)).unwrap().1, 96);
    assert_eq!(load_track(&rom, 0x9200, Some(96)).unwrap().1, 96);
}

#[test]
fn musics_reject_duration_mismatch() {
    let buf = tunes_image(
        [0x9000, 0x9100, 0x9000],
        &[(0x9000, &[0xB0, 0x25, 0xFF]), (0x9100, &[0xB0, 0x25, 0x25, 0xFF])],
    );
    let rom = Rom::from_ines_bytes(&buf).unwrap();
    assert_eq!(load_musics(&rom).unwrap_err(), ExtractError::DurationMismatch(1));
}

#[test]
fn musics_reject_looping_overrun() {
    let buf = tunes_image(
        [0x9000, 0x9100, 0x9000],
        &[(0x9000, &[0xB0, 0x25, 0xFE]), (0x9100, &[0xC0, 0x25])],
    );
    let rom = Rom::from_ines_bytes(&buf).unwrap();
    assert_eq!(load_musics(&rom).unwrap_err(), ExtractError::DurationOverrun(0x9101));
}

#[test]
fn square_duty_values() {
    for v in 0..4u8 {
        assert_eq!(SquareDuty::new(v).value(), v);
    }
    assert_eq!(SquareDuty::new(2), SquareDuty::Half);
}

fn tune(envelope: u8, duty: SquareDuty, track: Vec<MusicCommand>) -> Music {
    Music {
        id: 1,
        sq_envelope: envelope,
        sq_duty: duty,
        track_sq1: track.clone(),
        track_sq2: track.clone(),
        track_tri: track,
    }
}

#[test]
fn mml_text_of_single_tone() {
    let m = tune(
        7,
        SquareDuty::Half,
        vec![
            MusicCommand::new_set_length(48),
            MusicCommand::new_tone(4, 0),
            MusicCommand::new_end(),
        ],
    );
    let text = String::from_utf8(m.write_mml().unwrap()).unwrap();
    assert_eq!(
        text,
        "T75\n@5@W4 V15 @E1,0,64,0,0 \nO4C%96 ;\n@5@W4 V15 @E1,0,64,0,0 \nO4C%96 ;\nV1 @6\nO4C%96 ;\n"
    );
}

#[test]
fn mml_text_of_loops_rests_and_sharps() {
    let m = tune(
        0,
        SquareDuty::QuarterNeg,
        vec![
            MusicCommand::new_set_length(5),
            MusicCommand::new_loop_begin(12),
            MusicCommand::new_tone(3, 1),
            MusicCommand::new_rest(),
            MusicCommand::new_loop_end(),
            MusicCommand::new_set_length(127),
            MusicCommand::new_tone(10, 11),
            MusicCommand::new_restart(),
            MusicCommand::new_tone(1, 1),
        ],
    );
    let text = String::from_utf8(m.write_mml().unwrap()).unwrap();
    let body = "/:12 O3C+%10 R%10 :/ O10B%254 ;\n";
    let expect = format!(
        "T75\n@5@W6 V15 @E1,0,8,0,0 \n{body}@5@W6 V15 @E1,0,8,0,0 \n{body}V1 @6\n{body}"
    );
    assert_eq!(text, expect);
}

#[test]
fn mml_decay_and_duty_per_setting() {
    let track = vec![MusicCommand::new_end()];
    let m = tune(15, SquareDuty::Eighth, track.clone());
    let text = String::from_utf8(m.write_mml().unwrap()).unwrap();
    assert!(text.starts_with("T75\n@5@W1 V15 @E1,0,127,0,0 \n;\n"));
    let m = tune(1, SquareDuty::Quarter, track);
    let text = String::from_utf8(m.write_mml().unwrap()).unwrap();
    assert!(text.starts_with("T75\n@5@W2 V15 @E1,0,16,0,0 \n;\n"));
}

#[test]
fn mml_rejects_unwritable_tracks() {
    let m = tune(0, SquareDuty::Half, vec![MusicCommand::Rest]);
    assert_eq!(m.write_mml(), Err(ExtractError::TrackLengthUnset));
    let m = tune(
        0,
        SquareDuty::Half,
        vec![MusicCommand::SetLength { length: 1 }, MusicCommand::Tone { octave: 1, note: 12 }],
    );
    assert_eq!(m.write_mml(), Err(ExtractError::InvalidNote(12)));
}
