//! A lightweight temporary arena for values that live for one scope or iteration
//! (like a game frame), with handles, fixed-capacity buffers and text built on it.

pub mod error;
pub mod index;
pub mod item;

pub use error::{TempArenaError, TempArenaResult};
pub use index::ArenaIndex;
pub use item::ArenaItem;

pub mod id;
pub use id::TempID;

pub mod temp_arena;
pub use temp_arena::TempArena;

pub mod buffer;
pub use buffer::TempBuffer;

pub mod text;
pub use text::TempText;
