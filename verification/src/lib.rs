//! A character-grid rendering engine for a terminal clock: a fixed-size
//! screen buffer with a bottom-left origin, a stepping counter that serves
//! as a column cursor, and a box-drawing font in two sizes.

pub mod buffer;
pub mod clock;
pub mod counter;
pub mod grid;
pub mod symbols;

pub use buffer::ScrBuf;
pub use counter::Counter;
pub use symbols::Symbols;
