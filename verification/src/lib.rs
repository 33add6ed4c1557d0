//! A bot that plays music: the player, the queue, the downloads, and the two ways to ask for it.

pub mod bot;
pub mod cli;
pub mod controller;
pub mod player;
pub mod run;
pub mod server;
pub mod telegram;
pub mod track_manager;
pub mod util;
pub mod youtube;
