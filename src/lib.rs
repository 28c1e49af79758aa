//! Decoding of the game data held in a 64 KiB cartridge image: stage tile
//! grids, enemy parameter records, sprite and palette tables, spawn scripts
//! and music tracks.

pub mod enemy_group;
pub mod error;
pub mod game;
pub mod ground;
pub mod mml;
pub mod music;
pub mod ppu;
pub mod rom;
pub mod spawn_table;

pub use crate::enemy_group::{load_enemy_groups, EnemyGroup};
pub use crate::error::ExtractError;
pub use crate::game::{
    load_cell_visuals, load_ground_configs, load_ground_palettes, load_ground_secrets,
    load_ground_secrets_one, load_meta_sprite_visuals, load_sprite_palette_set, load_tiles,
    CellVisual, Game, Ground, GroundConfig, GroundSecret, MetaSpriteVisual, CELL_MAX, CELL_TRAP,
    CELL_ZEG_INI, META_SPRITE_MAX,
};
pub use crate::ground::{load_ground_cells, load_ground_cells_one_half, load_ground_cells_row};
pub use crate::music::{
    load_music_cfgs, load_music_ptrss, load_musics, load_track, Music, MusicCommand, SquareDuty,
};
pub use crate::ppu::{Palette, SpriteAttribute, Tile};
pub use crate::rom::{prg_offset, Rom};
pub use crate::spawn_table::{load_spawn_table, SpawnTableEntry};
