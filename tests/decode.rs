use star_soldier_extract::{
    load_enemy_groups, load_ground_cells_one_half, load_ground_cells_row, load_ground_secrets_one,
    load_spawn_table, load_tiles, prg_offset, ExtractError, Game, GroundConfig, GroundSecret,
    Palette, Rom, SpawnTableEntry, SpriteAttribute, Tile,
};

const IMAGE_LEN: usize = 16 + 0x8000 + 0x8000;

fn blank_image() -> Vec<u8> {
    let mut buf = vec![0u8; IMAGE_LEN];
    buf[..4].copy_from_slice(&[0x4E, 0x45, 0x53, 0x1A]);
    buf
}

fn put(buf: &mut [u8], addr: u16, bytes: &[u8]) {
    let at = 16 + (addr as usize - 0x8000);
    buf[at..at + bytes.len()].copy_from_slice(bytes);
}

fn put_ptr(buf: &mut [u8], addr: u16, ptr: u16) {
    put(buf, addr, &ptr.to_le_bytes());
}

/// An image whose every table decodes: all stage halves and secret lists
/// point into a zero-filled area.
fn playable_image() -> Vec<u8> {
    let mut buf = blank_image();
    for s in 0..16u16 {
        put_ptr(&mut buf, 0xD5D9 + 4 * s, 0x9000);
        put_ptr(&mut buf, 0xD5D9 + 4 * s + 2, 0x9000);
        put_ptr(&mut buf, 0xD5B9 + 2 * s, 0x8000);
    }
    buf
}

fn rom_of(buf: &[u8]) -> Rom {
    Rom::from_ines_bytes(buf).unwrap()
}

#[test]
fn from_ines_bytes_splits_regions() {
    let mut buf = blank_image();
    buf[16] = 0x11;
    buf[16 + 0x7FFF] = 0x22;
    buf[16 + 0x8000] = 0x33;
    buf[IMAGE_LEN - 1] = 0x44;
    let rom = rom_of(&buf);
    assert_eq!(rom.prg.len(), 0x8000);
    assert_eq!(rom.chr.len(), 0x8000);
    assert_eq!(rom.prg[0], 0x11);
    assert_eq!(rom.prg[0x7FFF], 0x22);
    assert_eq!(rom.chr[0], 0x33);
    assert_eq!(rom.chr[0x7FFF], 0x44);
}

#[test]
fn from_ines_bytes_rejects_size() {
    let buf = vec![0x4E, 0x45, 0x53, 0x1A, 0, 0];
    assert_eq!(Rom::from_ines_bytes(&buf).unwrap_err(), ExtractError::SizeMismatch);
    let mut buf = blank_image();
    buf.push(0);
    assert_eq!(Rom::from_ines_bytes(&buf).unwrap_err(), ExtractError::SizeMismatch);
}

#[test]
fn from_ines_bytes_rejects_magic() {
    let mut buf = blank_image();
    buf[3] = 0x1B;
    assert_eq!(Rom::from_ines_bytes(&buf).unwrap_err(), ExtractError::MagicNotFound);
}

#[test]
fn prg_offset_maps_code_region() {
    assert_eq!(prg_offset(0x8000), Ok(0));
    assert_eq!(prg_offset(0xD30D), Ok(0x530D));
    assert_eq!(prg_offset(0xFFFF), Ok(0x7FFF));
    for addr in (0x8000..=0xFFFFu16).step_by(0x0FFF) {
        assert_eq!(prg_offset(addr).unwrap() + 0x8000, addr as usize);
    }
    assert_eq!(prg_offset(0x7FFF), Err(ExtractError::AddressOutOfRange(0x7FFF)));
    assert_eq!(prg_offset(0), Err(ExtractError::AddressOutOfRange(0)));
}

#[test]
fn rle_row_literal_then_single_byte_repeat() {
    let mut data = vec![0x05, 0xEE, 0x07];
    data.extend(1..=16u8);
    data.push(0xAA);
    let (row, n) = load_ground_cells_row(&data, 0).unwrap();
    let mut expect = vec![0x05, 0x07, 0x07, 0x07];
    expect.extend(1..=16u8);
    assert_eq!(row, expect);
    assert_eq!(n, 19);
}

#[test]
fn rle_row_cuts_last_group() {
    let mut data: Vec<u8> = (1..=19u8).collect();
    data.extend([0xFF, 0x09, 0x33]);
    let (row, n) = load_ground_cells_row(&data, 0).unwrap();
    assert_eq!(row.len(), 20);
    assert_eq!(row[19], 0x09);
    assert_eq!(n, 21);
}

#[test]
fn rle_row_multi_byte_units() {
    // 4-byte unit twice, 3-byte unit twice, 2-byte unit three times
    let data = vec![
        0xDC, 1, 2, 3, 4, 0xE0, 5, 6, 7, 0xE6, 8, 9, 0x50, 0x51, 0x60,
    ];
    let (row, n) = load_ground_cells_row(&data, 0).unwrap();
    assert_eq!(
        row,
        vec![1, 2, 3, 4, 1, 2, 3, 4, 5, 6, 7, 5, 6, 7, 8, 9, 8, 9, 8, 9]
    );
    assert_eq!(n, 12);
}

#[test]
fn rle_row_from_offset() {
    let mut data = vec![0x99, 0x98];
    data.extend([0xF4, 0x42]);
    data.extend([0x43; 12]);
    let (row, n) = load_ground_cells_row(&data, 2).unwrap();
    let mut expect = vec![0x42; 9];
    expect.extend([0x43; 11]);
    assert_eq!(row, expect);
    assert_eq!(n, 13);
}

#[test]
fn rle_row_overrun() {
    let data = vec![1, 2, 3];
    assert_eq!(load_ground_cells_row(&data, 0).unwrap_err(), ExtractError::Overrun(0));
    let data = vec![1, 2, 0xDC, 1, 2];
    assert_eq!(load_ground_cells_row(&data, 1).unwrap_err(), ExtractError::Overrun(1));
    assert_eq!(load_ground_cells_row(&data, 9).unwrap_err(), ExtractError::Overrun(9));
}

#[test]
fn ground_half_follows_redirect() {
    let mut buf = blank_image();
    put(&mut buf, 0x9000, &[0xDB, 0x00, 0xA0, 0x01]);
    put(&mut buf, 0xA000, &[0xFF, 0x0C]);
    let rom = rom_of(&buf);
    let mut cells = vec![vec![0xEEu8; 20]];
    load_ground_cells_one_half(&mut cells, &rom, 0x9000).unwrap();
    assert_eq!(cells.len(), 129);
    assert_eq!(cells[0], vec![0xEE; 20]);
    assert_eq!(cells[1], vec![0x0C; 20]);
    let mut second = vec![0x01];
    second.extend([0u8; 19]);
    assert_eq!(cells[2], second);
    assert!(cells[3..].iter().all(|r| r == &vec![0u8; 20]));
}

#[test]
fn ground_half_rejects_low_address() {
    let rom = rom_of(&blank_image());
    let mut cells = Vec::new();
    assert_eq!(
        load_ground_cells_one_half(&mut cells, &rom, 0x7000),
        Err(ExtractError::AddressOutOfRange(0x7000))
    );
}

#[test]
fn game_decodes_synthetic_stage_row() {
    let mut buf = playable_image();
    put_ptr(&mut buf, 0xD5D9, 0x9800);
    put(&mut buf, 0x9800, &[0x05, 0xEE, 0x07]);
    let rom = rom_of(&buf);
    let game = Game::from_rom(&rom).unwrap();
    assert_eq!(game.ground_cells.len(), 16);
    for stage in &game.ground_cells {
        assert_eq!(stage.len(), 256);
        assert!(stage.iter().all(|row| row.len() == 20));
    }
    let ground = game.ground(1);
    let row0: Vec<u8> = (0..20).map(|c| ground.cell(0, c)).collect();
    let mut expect = vec![0x05, 0x07, 0x07, 0x07];
    expect.extend([0u8; 16]);
    assert_eq!(row0, expect);
    assert_eq!(game.tiles.len(), 0x800);
    assert_eq!(game.cell_visuals.len(), 0x97);
    assert_eq!(game.meta_sprite_visuals.len(), 0x90);
    assert_eq!(game.ground_palettes.len(), 43);
    assert_eq!(game.sprite_palette_set.len(), 4);
}

#[test]
fn ground_rotates_marked_halves() {
    let mut buf = playable_image();
    let row: Vec<u8> = (0..20u8).collect();
    let mut half = Vec::new();
    for _ in 0..128 {
        half.extend(&row);
    }
    put(&mut buf, 0xA000, &half);
    put_ptr(&mut buf, 0xD5D9 + 4, 0xA000);
    put_ptr(&mut buf, 0xD5D9 + 6, 0xA000);
    // stage 2: first half plain, second half rotated
    put(&mut buf, 0xD48D + 8, &[0x01, 0x02, 0x03, 0x04, 0x85, 0x06, 0x07, 0x08]);
    let rom = rom_of(&buf);
    let game = Game::from_rom(&rom).unwrap();
    let ground = game.ground(2);
    let swapped: Vec<u8> = (10..20u8).chain(0..10u8).collect();
    assert_eq!(ground.cells[0], row);
    assert_eq!(ground.cells[127], row);
    assert_eq!(ground.cells[128], swapped);
    assert_eq!(ground.cells[239], swapped);
    assert_eq!(ground.cells[240], row);
    assert_eq!(ground.cells[255], row);
    assert_eq!(ground.palette_set_half(0).len(), 4);
    assert_eq!(ground.palette_set_half(1)[0], game.ground_palettes[5]);
    assert_eq!(ground.palette_set_half(0)[3], game.ground_palettes[4]);
}

#[test]
fn ground_hidden_visual_ids() {
    let mut buf = playable_image();
    put_ptr(&mut buf, 0xD5B9, 0x9900);
    // (row 3, col 5, content 0), (row 4, col 6, content 2), (row 3, col 5, content 7)
    put(&mut buf, 0x9900, &[3, 0x05, 4, 0x46, 3, 0xE5, 0]);
    put_ptr(&mut buf, 0xD5D9, 0x9A00);
    let mut row = vec![0x09, 0x0D, 0x0E, 0x08];
    row.extend([0u8; 16]);
    put(&mut buf, 0x9A00, &row);
    let rom = rom_of(&buf);
    let game = Game::from_rom(&rom).unwrap();
    let ground = game.ground(1);
    assert_eq!(ground.secrets().len(), 3);
    assert_eq!(ground.secrets()[1].cell(), 2);
    assert_eq!(ground.hidden_visual_id(3, 5), Some(1));
    assert_eq!(ground.hidden_visual_id(4, 6), Some(2));
    assert_eq!(ground.hidden_visual_id(0, 0), Some(0x08));
    assert_eq!(ground.hidden_visual_id(0, 1), Some(0x08));
    assert_eq!(ground.hidden_visual_id(0, 2), None);
    assert_eq!(ground.hidden_visual_id(0, 3), None);
    assert_eq!(ground.hidden_visual_id(1, 0), None);
}

#[test]
fn secrets_list_decoding() {
    let data = vec![7, 0x3F, 9, 0xA1, 0];
    let secrets = load_ground_secrets_one(&data, 0).unwrap();
    assert_eq!(secrets, vec![GroundSecret::new(7, 0x1F, 1), GroundSecret::new(9, 1, 5)]);
    assert_eq!(secrets[0].r(), 7);
    assert_eq!(secrets[0].c(), 0x1F);
    assert_eq!(load_ground_secrets_one(&data, 4).unwrap(), vec![]);
    assert_eq!(load_ground_secrets_one(&data, 2).unwrap(), vec![GroundSecret::new(9, 1, 5)]);
    assert_eq!(load_ground_secrets_one(&data, 3).unwrap_err(), ExtractError::Overrun(3));
    assert_eq!(load_ground_secrets_one(&data[..3].to_vec(), 0).unwrap_err(), ExtractError::Overrun(0));
}

#[test]
fn game_rejects_unknown_palette_id() {
    let mut buf = playable_image();
    put(&mut buf, 0xD48D + 17, &[0x2B]);
    let rom = rom_of(&buf);
    assert_eq!(Game::from_rom(&rom).unwrap_err(), ExtractError::InvalidPaletteId(0x2B));
}

#[test]
fn game_rejects_bad_color() {
    let mut buf = playable_image();
    put(&mut buf, 0xD50D + 6, &[0x41]);
    let rom = rom_of(&buf);
    assert_eq!(Game::from_rom(&rom).unwrap_err(), ExtractError::InvalidColor(0x41));
    let mut buf = playable_image();
    put(&mut buf, 0xB143 + 15, &[0xFF]);
    let rom = rom_of(&buf);
    assert_eq!(Game::from_rom(&rom).unwrap_err(), ExtractError::InvalidColor(0xFF));
}

#[test]
fn game_rejects_bad_stage_pointer() {
    let rom = rom_of(&blank_image());
    assert_eq!(Game::from_rom(&rom).unwrap_err(), ExtractError::AddressOutOfRange(0));
    let mut buf = playable_image();
    put_ptr(&mut buf, 0xD5B9 + 6, 0x1234);
    let rom = rom_of(&buf);
    assert_eq!(Game::from_rom(&rom).unwrap_err(), ExtractError::AddressOutOfRange(0x1234));
}

#[test]
fn game_reads_visual_tables() {
    let mut buf = playable_image();
    put(&mut buf, 0xD6B0 + 4 * 2, &[0x10, 0x11, 0x12, 0x13]);
    put(&mut buf, 0xD619 + 2, &[3]);
    put(&mut buf, 0xC344 + 8, &[1, 0x41, 2, 0x82, 3, 0x23, 4, 0x00]);
    put(&mut buf, 0xB143, &[0x0F, 0x16, 0x27, 0x30]);
    let rom = rom_of(&buf);
    let game = Game::from_rom(&rom).unwrap();
    assert_eq!(game.cell_visuals[2].tile_ids, [0x10, 0x11, 0x12, 0x13]);
    assert_eq!(game.cell_visuals[2].plt_idx, 3);
    let msv = &game.meta_sprite_visuals[1];
    assert_eq!(msv.tile_ids, [1, 2, 3, 4]);
    assert_eq!(msv.attrs[0].palette_index(), 1);
    assert!(msv.attrs[0].is_flipped_horizontal());
    assert!(msv.attrs[1].is_flipped_vertical());
    assert!(msv.attrs[2].is_behind());
    assert_eq!(game.sprite_palette_set[0], Palette::new([0x0F, 0x16, 0x27, 0x30]));
}

#[test]
fn tiles_split_pattern_region() {
    let mut buf = blank_image();
    for i in 0..32 {
        buf[16 + 0x8000 + 16 + i] = i as u8;
    }
    let rom = rom_of(&buf);
    let tiles = load_tiles(&rom);
    assert_eq!(tiles.len(), 0x800);
    let pattern: Vec<u8> = (0..16u8).collect();
    assert_eq!(tiles[1], Tile::from_bytes(&pattern));
    assert_eq!(tiles[1].0[15], 15);
    assert_eq!(tiles[2].0[0], 16);
}

#[test]
fn palette_and_config_bytes() {
    assert_eq!(Palette::from_bytes(&[1, 2, 3, 0x3F, 0x99]).unwrap().0, [1, 2, 3, 0x3F]);
    assert_eq!(Palette::from_bytes(&[1, 0x40, 0x50, 0]), Err(ExtractError::InvalidColor(0x40)));
    let cfg = GroundConfig::from_bytes(&[0xC1, 0x7F, 0x02, 0x43]);
    assert!(cfg.is_rotated());
    assert_eq!(cfg.palette_ids(), &[0x01, 0x3F, 0x02, 0x03]);
    let cfg = GroundConfig::from_bytes(&[0x41, 0, 0, 0]);
    assert!(!cfg.is_rotated());
    assert_eq!(cfg, GroundConfig::new([1, 0, 0, 0], false));
}

#[test]
fn sprite_attribute_bits() {
    let a = SpriteAttribute::from_byte(0xE3);
    assert_eq!(a.palette_index(), 3);
    assert!(a.is_behind() && a.is_flipped_horizontal() && a.is_flipped_vertical());
    let b = SpriteAttribute::from_byte(0x1E);
    assert_eq!(b.palette_index(), 2);
    assert!(!b.is_behind() && !b.is_flipped_horizontal() && !b.is_flipped_vertical());
}

#[test]
fn spawn_table_entries() {
    let mut buf = blank_image();
    let mut window = vec![0x05u8; 0x100];
    window[..6].copy_from_slice(&[0xFF, 0x00, 0x01, 0x81, 0x45, 0xFF]);
    put(&mut buf, 0xD30D, &window);
    let rom = rom_of(&buf);
    let entries = load_spawn_table(&rom).unwrap();
    assert_eq!(entries.len(), 1 + 1 + 3 + 250);
    assert_eq!(entries[0], SpawnTableEntry::Mark(1));
    assert_eq!(entries[1], SpawnTableEntry::Jump(1));
    assert_eq!(
        entries[2],
        SpawnTableEntry::Spawn { object_id: 1, combi: false, boss: false }
    );
    assert_eq!(
        entries[3],
        SpawnTableEntry::Spawn { object_id: 5, combi: true, boss: true }
    );
    assert_eq!(entries[4], SpawnTableEntry::Mark(6));
    assert_eq!(
        entries[254],
        SpawnTableEntry::Spawn { object_id: 5, combi: true, boss: false }
    );
}

#[test]
fn spawn_table_zero_window_is_jumps() {
    let rom = rom_of(&blank_image());
    let entries = load_spawn_table(&rom).unwrap();
    assert_eq!(entries.len(), 128);
    assert!(entries.iter().all(|e| *e == SpawnTableEntry::Jump(0)));
}

#[test]
fn spawn_table_cut_entries_fail() {
    let mut buf = blank_image();
    let mut window = vec![0x05u8; 0x100];
    window[0xFF] = 0xFF;
    put(&mut buf, 0xD30D, &window);
    assert_eq!(load_spawn_table(&rom_of(&buf)).unwrap_err(), ExtractError::Overrun(0x540D));
    window[0xFF] = 0x00;
    put(&mut buf, 0xD30D, &window);
    assert_eq!(load_spawn_table(&rom_of(&buf)).unwrap_err(), ExtractError::Overrun(0x540D));
}

fn enemy_image() -> Vec<u8> {
    let mut buf = blank_image();
    for i in 0..30u16 {
        put_ptr(&mut buf, 0xC804 + 2 * i, 0x9000 + 0x20 * i);
    }
    buf
}

#[test]
fn enemy_groups_blobs_and_params() {
    let mut buf = enemy_image();
    put(&mut buf, 0xC7C5, &[0x15]);
    put(&mut buf, 0xC7E5, &[0x42]);
    // slot 0: blob at 0x9009, up to slot 1's block at 0x9020
    put(&mut buf, 0x9000, &[0x09, 0x90, 10, 20, 30, 40, 2, 0xAA, 0xBB]);
    put(&mut buf, 0x9009, &[0x77; 0x17]);
    // slot 29: blob far away, fixed length
    put(&mut buf, 0x9000 + 0x20 * 29, &[0x00, 0xB0, 1, 2, 3, 4, 0]);
    let rom = rom_of(&buf);
    let groups = load_enemy_groups(&rom).unwrap();
    assert_eq!(groups.len(), 30);
    let g = &groups[0];
    assert_eq!(g.id, 1);
    assert!(g.shot_with_rank && !g.accel_shot_with_rank && g.homing_shot_with_rank);
    assert!(!g.extra_act_with_rank && g.accel_with_rank);
    assert_eq!(g.difficulty, 0x42);
    assert_eq!((g.x_ini, g.y_ini, g.sprite_idx_base), (10, 20, 30));
    assert_eq!((g.spawn_interval, g.spawn_count), (40, 2));
    assert_eq!(g.entrypoints, vec![0xAA, 0xBB]);
    assert_eq!(g.bytecode.as_ref().unwrap().len(), 0x17);
    assert_eq!(g.bytecode.as_ref().unwrap()[0], 0x77);
    assert!(groups[1].bytecode.is_none());
    assert_eq!(groups[29].id, 30);
    assert_eq!(groups[29].bytecode.as_ref().unwrap().len(), 0xCA);
}

#[test]
fn enemy_groups_reject_negative_length() {
    let mut buf = enemy_image();
    put(&mut buf, 0x9000 + 0x20 * 3, &[0x00, 0x91, 0, 0, 0, 0, 0]);
    let rom = rom_of(&buf);
    assert_eq!(load_enemy_groups(&rom).unwrap_err(), ExtractError::NegativeBlobLength(3));
}

#[test]
fn enemy_groups_reject_low_param_pointer() {
    let mut buf = enemy_image();
    put_ptr(&mut buf, 0xC804 + 2 * 5, 0x0100);
    let rom = rom_of(&buf);
    assert_eq!(load_enemy_groups(&rom).unwrap_err(), ExtractError::AddressOutOfRange(0x0100));
}

#[test]
fn enemy_groups_reject_cut_entrypoints() {
    let mut buf = enemy_image();
    put_ptr(&mut buf, 0xC804, 0xFFF9);
    put(&mut buf, 0xFFF9, &[0, 0, 0, 0, 0, 0, 3]);
    let rom = rom_of(&buf);
    assert_eq!(load_enemy_groups(&rom).unwrap_err(), ExtractError::Overrun(0x7FF9));
}
