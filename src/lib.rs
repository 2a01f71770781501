//! Text codec, script-buffer editing and two-tier glyph caching for a
//! variable-width byte-pair text encoding.

pub mod script;
pub mod editor;
pub mod lru;
pub mod font;
pub mod vram_font;
pub mod game;
pub mod video;
pub mod mem;
pub mod tile_img;
