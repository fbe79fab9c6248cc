//! Text-mode display driver for an 80x25 character grid.
//!
//! The driver renders a byte stream onto memory-mapped video memory: each byte
//! lands in the bottom row in the writer's colour, lines wrap, and the screen
//! scrolls up when the bottom row is full or a newline arrives. Every function
//! is stated over a mathematical model of the screen and proved against it.

pub mod cell;
pub mod color;
pub mod console;
pub mod laws;
pub mod screen;
pub mod writer;

pub use cell::ScreenChar;
pub use cell::VolatileScreenChar;
pub use color::Color;
pub use color::ColorCode;
pub use console::_print;
pub use screen::index_memory_block;
pub use screen::WriterState;
pub use screen::BUFFER_ADDRESS;
pub use screen::BUFFER_HEIGHT;
pub use screen::BUFFER_SIZE;
pub use screen::BUFFER_WIDTH;
pub use writer::Writer;
