//! A fixed grid of single-column Unicode cells ("stamp"), built from text,
//! rendered back to text, and composited by overlaying one grid on another.
pub mod cell;
pub mod error;
pub mod lines;
pub mod pad;
pub mod stamp;
pub mod unicode;

pub use cell::Char;
pub use error::StampError;
pub use pad::to_rectangle;
pub use stamp::Stamp;
