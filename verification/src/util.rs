//! What the other modules share.

pub mod cancel;
pub mod channel;
pub mod link;
pub mod parse;
pub mod sorted;
pub mod temp_dir;
pub mod text;
pub mod text_map;
