//! What is given on the command line.

use crate::controller::Settings as ControllerSettings;
use crate::telegram::state::Settings as BotSettings;
use crate::youtube::Settings as YoutubeSettings;
use vstd::prelude::*;

verus! {

/// Where downloads go unless something else is given.
pub const DEFAULT_DOWNLOAD_DIR: &'static str = "data";

/// How many downloads run at the same time unless something else is given.
pub const DEFAULT_YOUTUBE_WORKERS: usize = 2;

/// After how many seconds a download is given up unless something else is given.
pub const DEFAULT_YOUTUBE_DOWNLOAD_TIMEOUT_S: u64 = 30;

/// How many tracks are downloaded beforehand unless something else is given.
pub const DEFAULT_TRACK_CACHE_SIZE: usize = 4;

/// How many seconds the tracks of one request may last unless something else is given.
pub const DEFAULT_BOT_REQUEST_MAX_DURATION_S: u64 = 3600;

/// What is given on the command line.
#[derive(Debug)]
pub struct Cli {
    pub download_dir: String,
    pub unix_socket_path: Option<String>,
    pub telegram_bot_token: Option<String>,
    pub youtube_workers: usize,
    pub youtube_download_timeout_s: u64,
    pub workers: usize,
    pub track_cache_size: usize,
    pub auto_play: bool,
    pub bot_request_max_duration_s: u64,
    pub bot_only_music_tracks: bool,
}

impl Cli {
    /// How the controller behaves.
    pub fn controller_settings(&self) -> (r: ControllerSettings)
        ensures
            r.auto_play == self.auto_play,
            r.track_cache_size == self.track_cache_size,
    {
        ControllerSettings { auto_play: self.auto_play, track_cache_size: self.track_cache_size }
    }

    /// How the bot behaves.
    pub fn bot_settings(&self) -> (r: BotSettings)
        ensures
            r.max_request_duration == self.bot_request_max_duration_s,
            r.only_music_tracks == self.bot_only_music_tracks,
    {
        BotSettings {
            max_request_duration: self.bot_request_max_duration_s,
            only_music_tracks: self.bot_only_music_tracks,
        }
    }

    /// How tracks are downloaded.
    pub fn youtube_settings(&self) -> (r: YoutubeSettings)
        ensures
            r.jobs == self.youtube_workers,
            r.download_timeout == self.youtube_download_timeout_s,
    {
        YoutubeSettings {
            jobs: self.youtube_workers,
            download_timeout: self.youtube_download_timeout_s,
        }
    }
}

} // verus!
