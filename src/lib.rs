pub mod buffer;
pub mod cursor;
pub mod editor;
pub mod line;
pub mod text;
