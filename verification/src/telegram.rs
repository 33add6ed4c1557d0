//! The Telegram bot: what it is asked, and what it writes.

pub mod defs;
pub mod dispatch;
pub mod display;
pub mod state;
