pub mod background;
pub mod pixel;
pub mod ppu;
pub mod registers;
pub mod sprite;
pub mod tile;
pub mod vram;
