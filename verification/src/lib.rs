//! Message and request building for the patchbot Discord bot, with the
//! bot's text formatting rules stated and proved.
pub mod commands;
pub mod text;

pub use commands::format_num;
