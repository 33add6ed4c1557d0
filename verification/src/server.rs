//! The admin server: what the lines that are typed there ask for, and what is written back.

use crate::controller::{
    listed, Data, Error as ControllerError, ErrorView as ControllerErrorView, Event, EventView,
    ListedTrack, QueuedTrackState, Status, StatusView,
};
use crate::player::{Error as PlayerError, Request as PlayerRequest, MAX_VOLUME};
use crate::util::channel::ChannelError;
use crate::util::link::{url_of_text, Url, UrlView};
use crate::util::parse::{
    level_is_read_back, shell_split, split_line, texts, texts_of_push, volume_command,
    VolumeCommand,
};
use crate::util::text::{
    decimal, decimal_text, left_aligned, pad_left, pad_right, right_aligned, same,
};
use crate::youtube::{Error as YoutubeError, ErrorView as YoutubeErrorView, Track, TrackView};
use vstd::prelude::*;

verus! {

/// What a volume command with a wrong level is answered.
pub const VOLUME_ERROR_MSG: &'static str =
    "invalid volume level; volume must be between 0 and 10";

/// What is written first.
pub const GREETING: &'static str = "Hello!";

/// What is written last.
pub const FAREWELL: &'static str = "Bye!";

/// What is written when a line can be typed.
pub const PROMPT: &'static str = "> ";

/// The result of a request.
pub type Result<T> = core::result::Result<T, Error>;

/// Why a request failed.
#[derive(Debug)]
pub enum Error {
    InvalidYoutubeUrl(String),
    InvalidRequest(String),
    Player(PlayerError),
    Youtube(YoutubeError),
    Channel(ChannelError),
}

/// An error, with its texts as sequences of characters.
pub enum ErrorView {
    InvalidYoutubeUrl(Seq<char>),
    InvalidRequest(Seq<char>),
    Player(PlayerError),
    Youtube(YoutubeErrorView),
    Channel(ChannelError),
}

impl View for Error {
    type V = ErrorView;

    open spec fn view(&self) -> ErrorView {
        match self {
            Error::InvalidYoutubeUrl(url) => ErrorView::InvalidYoutubeUrl(url@),
            Error::InvalidRequest(message) => ErrorView::InvalidRequest(message@),
            Error::Player(e) => ErrorView::Player(*e),
            Error::Youtube(e) => ErrorView::Youtube(e@),
            Error::Channel(e) => ErrorView::Channel(*e),
        }
    }
}

/// Text as `std` formats it for debugging, with `{:?}`.
pub uninterp spec fn debug_text(s: Seq<char>) -> Seq<char>;

/// Calls `format!` of `std` with `{:?}`, which puts text between quotes and escapes what is not
/// plain. The outcome is a function of the text, and is named `debug_text`; nothing more is claimed
/// of it.
#[verifier::external_body]
fn format_debug(s: &str) -> (r: String)
    ensures
        r@ == debug_text(s@),
{
    format!("{:?}", s)
}

impl ErrorView {
    /// What the error says.
    pub open spec fn text(self) -> Seq<char> {
        match self {
            ErrorView::InvalidYoutubeUrl(url) => invalid_url_text(debug_text(url)),
            ErrorView::InvalidRequest(message) => "invalid request: "@ + message,
            ErrorView::Player(e) => e.text(),
            ErrorView::Youtube(e) => e.text(),
            ErrorView::Channel(e) => e.text(),
        }
    }
}

/// What is said of text that is no address, given that text between quotes.
pub open spec fn invalid_url_text(quoted: Seq<char>) -> Seq<char> {
    "invalid url: "@ + quoted
}

/// What is said of text that is no address, given that text between quotes.
pub fn invalid_url_message(quoted: &str) -> (r: String)
    ensures
        r@ == invalid_url_text(quoted@),
{
    "invalid url: ".to_owned().concat(quoted)
}

/// The error of a command that is not known, given its name between quotes.
pub open spec fn unknown_command_error(quoted: Seq<char>) -> ErrorView {
    ErrorView::InvalidRequest("Unknown command "@ + quoted)
}

/// The error of a command that is not known, given its name between quotes.
pub fn unknown_command(quoted: &str) -> (r: Error)
    ensures
        r@ == unknown_command_error(quoted@),
{
    Error::InvalidRequest("Unknown command ".to_owned().concat(quoted))
}

/// The error that an error of the controller amounts to.
pub open spec fn controller_error(e: ControllerErrorView) -> ErrorView {
    match e {
        ControllerErrorView::Youtube(e) => ErrorView::Youtube(e),
        ControllerErrorView::Channel(e) => ErrorView::Channel(e),
        ControllerErrorView::Player(e) => ErrorView::Player(e),
    }
}

impl Error {
    /// The error that an error of the controller amounts to.
    pub fn from_controller(value: ControllerError) -> (r: Error)
        ensures
            r@ == controller_error(value@),
    {
        match value {
            ControllerError::Youtube(e) => Error::Youtube(e),
            ControllerError::Channel(e) => Error::Channel(e),
            ControllerError::Player(e) => Error::Player(e),
        }
    }

    /// The error as a sentence.
    pub fn message(&self) -> (r: String)
        ensures
            r@ == self@.text(),
    {
        match self {
            Error::InvalidYoutubeUrl(url) => invalid_url_message(
                format_debug(url.as_str()).as_str(),
            ),
            Error::InvalidRequest(message) => "invalid request: ".to_owned().concat(
                message.as_str(),
            ),
            Error::Player(e) => e.message(),
            Error::Youtube(e) => e.message(),
            Error::Channel(e) => e.message(),
        }
    }
}

/// What a line can ask for.
#[derive(Debug, Clone, Copy, PartialEq, Eq, Structural)]
pub enum Command {
    Exit,
    Play,
    Pause,
    PlayToggle,
    Stop,
    Queue,
    Skip,
    Volume,
    Mute,
    Unmute,
    MuteToggle,
    Info,
}

/// The command with a name.
pub open spec fn command_of(s: Seq<char>) -> Option<Command> {
    if s == "exit"@ {
        Some(Command::Exit)
    } else if s == "play"@ {
        Some(Command::Play)
    } else if s == "pause"@ {
        Some(Command::Pause)
    } else if s == "play-toggle"@ || s == "p"@ {
        Some(Command::PlayToggle)
    } else if s == "stop"@ {
        Some(Command::Stop)
    } else if s == "skip"@ || s == "s"@ {
        Some(Command::Skip)
    } else if s == "queue"@ || s == "q"@ {
        Some(Command::Queue)
    } else if s == "mute"@ {
        Some(Command::Mute)
    } else if s == "unmute"@ {
        Some(Command::Unmute)
    } else if s == "mute-toggle"@ || s == "m"@ {
        Some(Command::MuteToggle)
    } else if s == "volume"@ || s == "v"@ {
        Some(Command::Volume)
    } else if s == "info"@ || s == "i"@ {
        Some(Command::Info)
    } else {
        None
    }
}

/// What to do about a line.
#[derive(Debug)]
pub enum Step {
    /// Nothing.
    Nothing,
    /// Close the connection.
    Exit,
    /// Ask the player for something.
    Ask(PlayerRequest),
    /// Put what is behind some addresses into the queue.
    Queue(Vec<Url>),
    /// List the queue.
    ListQueue,
    /// Tell how the player stands.
    Info,
}

/// What to do about a line, with texts as sequences of characters.
pub enum StepView {
    Nothing,
    Exit,
    Ask(PlayerRequest),
    Queue(Seq<UrlView>),
    ListQueue,
    Info,
}

/// The addresses of a list.
pub open spec fn url_views(urls: Seq<Url>) -> Seq<UrlView> {
    urls.map_values(|u: Url| u@)
}

impl View for Step {
    type V = StepView;

    open spec fn view(&self) -> StepView {
        match self {
            Step::Nothing => StepView::Nothing,
            Step::Exit => StepView::Exit,
            Step::Ask(request) => StepView::Ask(*request),
            Step::Queue(urls) => StepView::Queue(url_views(urls@)),
            Step::ListQueue => StepView::ListQueue,
            Step::Info => StepView::Info,
        }
    }
}

/// The addresses that some words stand for, or the first word that stands for none.
pub open spec fn urls_of(words: Seq<Seq<char>>) -> core::result::Result<Seq<UrlView>, Seq<char>>
    decreases words.len(),
{
    if words.len() == 0 {
        Ok(seq![])
    } else {
        match urls_of(words.drop_last()) {
            Ok(urls) => match url_of_text(words.last()) {
                Ok(url) => Ok(urls.push(url)),
                Err(_) => Err(words.last()),
            },
            Err(word) => Err(word),
        }
    }
}

/// The first word that stands for no address stays the first.
proof fn bad_word_stays(words: Seq<Seq<char>>, k: int)
    requires
        0 <= k <= words.len(),
        urls_of(words.take(k)) is Err,
    ensures
        urls_of(words) == urls_of(words.take(k)),
    decreases words.len() - k,
{
    if k < words.len() {
        assert(words.take(k + 1).drop_last() =~= words.take(k));
        bad_word_stays(words, k + 1);
    } else {
        assert(words.take(k) =~= words);
    }
}

/// What the words after `volume` ask for.
pub open spec fn volume_step(args: Seq<Seq<char>>) -> core::result::Result<
    VolumeCommand,
    ErrorView,
> {
    if args.len() == 0 {
        Err(ErrorView::InvalidRequest("One argument expected +/-/num"@))
    } else {
        match volume_command(args[0]) {
            Some(command) => Ok(command),
            None => Err(ErrorView::InvalidRequest(VOLUME_ERROR_MSG@)),
        }
    }
}

/// What the words after `queue` ask for.
pub open spec fn queue_step(args: Seq<Seq<char>>) -> core::result::Result<StepView, ErrorView> {
    if args.len() == 0 {
        Ok(StepView::ListQueue)
    } else {
        match urls_of(args) {
            Ok(urls) => Ok(StepView::Queue(urls)),
            Err(word) => Err(ErrorView::InvalidYoutubeUrl(word)),
        }
    }
}

/// The request that a volume command amounts to.
pub open spec fn volume_request(command: VolumeCommand) -> PlayerRequest {
    match command {
        VolumeCommand::Increase => PlayerRequest::IncreaseVolume,
        VolumeCommand::Decrease => PlayerRequest::DecreaseVolume,
        VolumeCommand::SetTo(level) => PlayerRequest::SetVolume { level },
    }
}

/// What a command with some words after it asks for.
pub open spec fn command_step(command: Command, args: Seq<Seq<char>>) -> core::result::Result<
    StepView,
    ErrorView,
> {
    match command {
        Command::Exit => Ok(StepView::Exit),
        Command::Play => Ok(StepView::Ask(PlayerRequest::Play)),
        Command::Pause => Ok(StepView::Ask(PlayerRequest::Pause)),
        Command::PlayToggle => Ok(StepView::Ask(PlayerRequest::PlayToggle)),
        Command::Stop => Ok(StepView::Ask(PlayerRequest::Stop)),
        Command::Skip => Ok(StepView::Ask(PlayerRequest::Skip)),
        Command::Queue => queue_step(args),
        Command::Volume => match volume_step(args) {
            Ok(command) => Ok(StepView::Ask(volume_request(command))),
            Err(e) => Err(e),
        },
        Command::Mute => Ok(StepView::Ask(PlayerRequest::Mute)),
        Command::Unmute => Ok(StepView::Ask(PlayerRequest::Unmute)),
        Command::MuteToggle => Ok(StepView::Ask(PlayerRequest::MuteToggle)),
        Command::Info => Ok(StepView::Info),
    }
}

/// What the words of a line ask for. No words ask for nothing.
pub open spec fn words_step(words: Seq<Seq<char>>) -> core::result::Result<StepView, ErrorView> {
    if words.len() == 0 {
        Ok(StepView::Nothing)
    } else {
        match command_of(words[0]) {
            Some(command) => command_step(command, words.skip(1)),
            None => Err(unknown_command_error(debug_text(words[0]))),
        }
    }
}

/// What a line asks for.
pub open spec fn line_step(line: Seq<char>) -> core::result::Result<StepView, ErrorView> {
    match shell_split(line) {
        Some(words) => words_step(words),
        None => Err(
            ErrorView::InvalidRequest(
                "Unable to parse request: "@ + "missing closing quote"@,
            ),
        ),
    }
}

/// Whether an outcome is the one that is meant.
pub open spec fn step_is(
    r: Result<Step>,
    meant: core::result::Result<StepView, ErrorView>,
) -> bool {
    match r {
        Ok(step) => meant == Ok::<StepView, ErrorView>(step@),
        Err(e) => meant == Err::<StepView, ErrorView>(e@),
    }
}

/// What is written back, and whether the connection is closed then.
#[derive(Debug)]
pub struct Reply {
    pub lines: Vec<String>,
    pub stop: bool,
}

/// What an error is answered.
pub open spec fn error_lines(e: ErrorView) -> Seq<Seq<char>> {
    match e {
        ErrorView::Channel(_) => seq![],
        ErrorView::Player(e) => seq!["[x] Player error"@, "... "@ + e.text()],
        ErrorView::Youtube(e) => seq!["[x] Youtube download error"@, "... "@ + e.text()],
        e => seq!["[x] "@ + e.text()],
    }
}

/// A track as it is written here: the first artist and the title.
pub open spec fn track_text(track: TrackView) -> Seq<char> {
    if track.artist.len() > 0 {
        track.artist[0] + " - "@ + track.title
    } else {
        track.title
    }
}

/// How a track is written here.
#[derive(Debug)]
pub struct TrackFmt<'a>(pub &'a Track);

impl<'a> TrackFmt<'a> {
    /// The track as text. All artists but the first are left out.
    pub fn fmt(&self) -> (r: String)
        ensures
            r@ == track_text(self.0@),
    {
        if self.0.artist.len() > 0 {
            assert(self.0@.artist[0] == self.0.artist@[0]@);
            self.0.artist[0].clone().concat(" - ").concat(self.0.title.as_str())
        } else {
            self.0.title.clone()
        }
    }
}

/// The sign for how far a track has come.
pub open spec fn state_text(state: QueuedTrackState) -> Seq<char> {
    match state {
        QueuedTrackState::NotReady => "x"@,
        QueuedTrackState::Downloaded => "d"@,
        QueuedTrackState::SentToPlayer => "s"@,
    }
}

/// The number of a line in a listing. The first has a star.
pub open spec fn index_text(i: nat) -> Seq<char> {
    left_aligned(
        if i == 0 {
            "*"@
        } else {
            decimal_text(i)
        },
        ' ',
        2,
    )
}

/// A line of a listing of the queue.
pub open spec fn queue_line(i: nat, item: ListedTrack) -> Seq<char> {
    "... ("@ + index_text(i) + ") ["@ + state_text(item.state) + "] "@ + track_text(item.track)
}

/// A listing of the queue.
pub open spec fn queue_lines(items: Seq<ListedTrack>) -> Seq<Seq<char>> {
    if items.len() == 0 {
        seq!["... Queue is empty"@]
    } else {
        Seq::new(items.len(), |i: int| queue_line(i as nat, items[i]))
    }
}

/// How the player stands.
pub open spec fn info_text(status: StatusView) -> Seq<char> {
    "... ["@ + (if status.is_paused {
        "⏸"@
    } else {
        "▶️"@
    }) + "] "@ + left_aligned(
        if status.is_muted {
            "muted"@
        } else {
            "volume"@
        },
        ' ',
        6,
    ) + " "@ + right_aligned(decimal_text(status.volume_level as nat), ' ', 2) + " : "@
        + decimal_text(status.length as nat) + " in queue"@
}

/// What is written of an event.
pub open spec fn notification_text(e: EventView) -> Seq<char> {
    match e {
        EventView::Muted => "[*] Muted"@,
        EventView::Unmuted => "[*] Unmuted"@,
        EventView::Volume { level } => "[*] Volume level is "@ + decimal_text(level as nat),
        EventView::PlaybackStarted => "[*] Started"@,
        EventView::PlaybackPaused => "[*] Paused"@,
        EventView::PlaybackStopped => "[*] Stopped"@,
        EventView::QueueFinished => "[*] Queue completed"@,
        EventView::WaitingForDownload => "[*] Waiting for track download"@,
        EventView::NowPlaying { queue_id: _, track } => "[*] Now playing: "@ + track_text(track),
        EventView::DownloadError { track, err } => "[*] Error downloading track "@ + track_text(
            track,
        ) + ": "@ + err.text(),
        EventView::TracksQueued { tracks } => "[*] "@ + decimal_text(tracks.len())
            + " tracks queued"@,
    }
}

/// The decimal representation of a size.
fn decimal_size(n: usize) -> (r: String)
    ensures
        r@ == decimal_text(n as nat),
{
    decimal(n as u64)
}

/// A connection to the admin server.
#[derive(Debug, Clone, Copy, PartialEq, Eq, Structural)]
pub struct Connection;

impl Connection {
    /// What a line is answered, given what came of it: whether the connection is to be closed, or
    /// why it failed.
    pub fn handle_wrapper(r: Result<bool>) -> (reply: Reply)
        ensures
            match r {
                Ok(stop) => reply.stop == stop && texts(reply.lines@) == Seq::<
                    Seq<char>,
                >::empty(),
                Err(e) => reply.stop == (e@ is Channel) && texts(reply.lines@) == error_lines(e@),
            },
    {
        match r {
            Ok(stop) => {
                let lines: Vec<String> = Vec::new();
                assert(texts(lines@) =~= Seq::empty());
                Reply { lines, stop }
            },
            Err(e) => Connection::handle_error(e),
        }
    }

    /// What an error is answered. The connection is closed if nobody is there to be asked.
    pub fn handle_error(e: Error) -> (r: Reply)
        ensures
            texts(r.lines@) == error_lines(e@),
            r.stop == (e@ is Channel),
    {
        let ghost error = e@;
        let mut lines: Vec<String> = Vec::new();
        let mut stop = false;
        match &e {
            Error::Channel(_) => {
                stop = true;
            },
            Error::Player(e) => {
                lines.push("[x] Player error".to_owned());
                lines.push("... ".to_owned().concat(e.message().as_str()));
            },
            Error::Youtube(e) => {
                lines.push("[x] Youtube download error".to_owned());
                lines.push("... ".to_owned().concat(e.message().as_str()));
            },
            e => {
                lines.push("[x] ".to_owned().concat(e.message().as_str()));
            },
        }
        assert(texts(lines@) =~= error_lines(error));
        Reply { lines, stop }
    }

    /// What a line asks for.
    pub fn handle_request(request: &str) -> (r: Result<Step>)
        ensures
            step_is(r, line_step(request@)),
    {
        match split_line(request) {
            Ok(words) => Connection::handle_words(words),
            Err(e) => Err(
                Error::InvalidRequest("Unable to parse request: ".to_owned().concat(e.as_str())),
            ),
        }
    }

    /// What the words of a line ask for.
    pub fn handle_words(words: Vec<String>) -> (r: Result<Step>)
        ensures
            step_is(r, words_step(texts(words@))),
    {
        if words.len() == 0 {
            return Ok(Step::Nothing);
        }
        let mut args = words;
        let name = args.remove(0);
        proof {
            assert(texts(words@)[0] == name@);
            assert(texts(args@) =~= texts(words@).skip(1));
        }
        let command = match Connection::get_command(name.as_str()) {
            Ok(command) => command,
            Err(e) => {
                return Err(e);
            },
        };
        let request = match command {
            Command::Exit => {
                return Ok(Step::Exit);
            },
            Command::Info => {
                return Ok(Step::Info);
            },
            Command::Queue => {
                return Connection::queue_request(&args);
            },
            Command::Volume => match Connection::extract_volume_subcommand(&args) {
                Ok(VolumeCommand::Increase) => PlayerRequest::IncreaseVolume,
                Ok(VolumeCommand::Decrease) => PlayerRequest::DecreaseVolume,
                Ok(VolumeCommand::SetTo(level)) => PlayerRequest::SetVolume { level },
                Err(e) => {
                    return Err(e);
                },
            },
            Command::Play => PlayerRequest::Play,
            Command::Pause => PlayerRequest::Pause,
            Command::PlayToggle => PlayerRequest::PlayToggle,
            Command::Stop => PlayerRequest::Stop,
            Command::Skip => PlayerRequest::Skip,
            Command::Mute => PlayerRequest::Mute,
            Command::Unmute => PlayerRequest::Unmute,
            Command::MuteToggle => PlayerRequest::MuteToggle,
        };
        Ok(Step::Ask(request))
    }

    /// The command with a name.
    pub fn get_command(command: &str) -> (r: Result<Command>)
        ensures
            match r {
                Ok(c) => command_of(command@) == Some(c),
                Err(e) => command_of(command@) is None && e@ == unknown_command_error(
                    debug_text(command@),
                ),
            },
    {
        if same(command, "exit") {
            Ok(Command::Exit)
        } else if same(command, "play") {
            Ok(Command::Play)
        } else if same(command, "pause") {
            Ok(Command::Pause)
        } else if same(command, "play-toggle") || same(command, "p") {
            Ok(Command::PlayToggle)
        } else if same(command, "stop") {
            Ok(Command::Stop)
        } else if same(command, "skip") || same(command, "s") {
            Ok(Command::Skip)
        } else if same(command, "queue") || same(command, "q") {
            Ok(Command::Queue)
        } else if same(command, "mute") {
            Ok(Command::Mute)
        } else if same(command, "unmute") {
            Ok(Command::Unmute)
        } else if same(command, "mute-toggle") || same(command, "m") {
            Ok(Command::MuteToggle)
        } else if same(command, "volume") || same(command, "v") {
            Ok(Command::Volume)
        } else if same(command, "info") || same(command, "i") {
            Ok(Command::Info)
        } else {
            Err(unknown_command(format_debug(command).as_str()))
        }
    }

    /// What the words after `volume` ask for.
    pub fn extract_volume_subcommand(args: &Vec<String>) -> (r: Result<VolumeCommand>)
        ensures
            match r {
                Ok(command) => volume_step(texts(args@)) == Ok::<VolumeCommand, ErrorView>(
                    command,
                ),
                Err(e) => volume_step(texts(args@)) == Err::<VolumeCommand, ErrorView>(e@),
            },
    {
        if args.len() == 0 {
            return Err(Error::InvalidRequest("One argument expected +/-/num".to_owned()));
        }
        assert(texts(args@)[0] == args@[0]@);
        match VolumeCommand::from_str(args[0].as_str()) {
            Ok(command) => Ok(command),
            Err(_) => Err(Error::InvalidRequest(VOLUME_ERROR_MSG.to_owned())),
        }
    }

    /// What the words after `queue` ask for.
    pub fn queue_request(args: &Vec<String>) -> (r: Result<Step>)
        ensures
            step_is(r, queue_step(texts(args@))),
    {
        if args.len() == 0 {
            return Ok(Step::ListQueue);
        }
        match Connection::queue_tracks_request(args) {
            Ok(urls) => Ok(Step::Queue(urls)),
            Err(e) => Err(e),
        }
    }

    /// The addresses after `queue`.
    fn queue_tracks_request(args: &Vec<String>) -> (r: Result<Vec<Url>>)
        ensures
            match r {
                Ok(urls) => urls_of(texts(args@)) == Ok::<Seq<UrlView>, Seq<char>>(
                    url_views(urls@),
                ),
                Err(e) => e@ matches ErrorView::InvalidYoutubeUrl(word) && urls_of(texts(args@))
                    == Err::<Seq<UrlView>, Seq<char>>(word),
            },
    {
        let ghost words = texts(args@);
        let mut urls: Vec<Url> = Vec::new();
        let mut i: usize = 0;
        assert(words.take(0) =~= Seq::empty());
        assert(url_views(urls@) =~= Seq::empty());
        while i < args.len()
            invariant
                i <= args@.len(),
                words == texts(args@),
                urls_of(words.take(i as int)) == Ok::<Seq<UrlView>, Seq<char>>(url_views(urls@)),
            decreases args.len() - i,
        {
            let ghost so_far = urls@;
            assert(words[i as int] == args@[i as int]@);
            assert(words.take(i + 1).drop_last() =~= words.take(i as int));
            match Url::parse(args[i].as_str()) {
                Ok(url) => {
                    urls.push(url);
                    assert(url_views(urls@) =~= url_views(so_far).push(url@));
                },
                Err(_) => {
                    proof {
                        bad_word_stays(words, i + 1);
                    }
                    return Err(Error::InvalidYoutubeUrl(args[i].clone()));
                },
            }
            i = i + 1;
        }
        assert(words.take(i as int) =~= words);
        Ok(urls)
    }

    /// A listing of the queue.
    pub fn list_queue_request(view: &Data) -> (r: Vec<String>)
        requires
            view.wf(),
        ensures
            texts(r@) == queue_lines(view@.listing()),
    {
        let items = view.iter();
        let ghost all = view@.listing();
        assert(items@.len() == all.len());
        let mut r: Vec<String> = Vec::new();
        if items.len() == 0 {
            r.push("... Queue is empty".to_owned());
            assert(texts(r@) =~= queue_lines(all));
            return r;
        }
        let mut i: usize = 0;
        assert(texts(r@) =~= queue_lines(all).take(0));
        while i < items.len()
            invariant
                i <= items@.len(),
                items@.len() > 0,
                all == listed(items@),
                texts(r@) == queue_lines(all).take(i as int),
            decreases items.len() - i,
        {
            let item = &items[i];
            assert(all[i as int] == item@);
            let idx = if i == 0 {
                "*".to_owned()
            } else {
                decimal_size(i)
            };
            let state = match item.state {
                QueuedTrackState::NotReady => "x",
                QueuedTrackState::Downloaded => "d",
                QueuedTrackState::SentToPlayer => "s",
            };
            let line = "... (".to_owned().concat(
                pad_right(idx.as_str(), ' ', 2).as_str(),
            ).concat(") [").concat(state).concat("] ").concat(
                TrackFmt(item.track).fmt().as_str(),
            );
            proof {
                texts_of_push(r@, line);
                assert(line@ == queue_line(i as nat, all[i as int]));
                assert(queue_lines(all).take(i + 1) =~= queue_lines(all).take(i as int).push(
                    line@,
                ));
            }
            r.push(line);
            i = i + 1;
        }
        assert(queue_lines(all).take(i as int) =~= queue_lines(all));
        r
    }

    /// How the player stands.
    pub fn info_request(status: &Status) -> (r: String)
        ensures
            r@ == info_text(status@),
    {
        let sign = if status.is_paused {
            "⏸"
        } else {
            "▶️"
        };
        let volume = if status.is_muted {
            "muted"
        } else {
            "volume"
        };
        let level = decimal(status.volume_level as u64);
        "... [".to_owned().concat(sign).concat("] ").concat(
            pad_right(volume, ' ', 6).as_str(),
        ).concat(" ").concat(pad_left(level.as_str(), ' ', 2).as_str()).concat(" : ").concat(
            decimal_size(status.length).as_str(),
        ).concat(" in queue")
    }

    /// What is written of an event.
    pub fn handle_notification(e: &Event) -> (r: String)
        ensures
            r@ == notification_text(e@),
    {
        match e {
            Event::Muted => "[*] Muted".to_owned(),
            Event::Unmuted => "[*] Unmuted".to_owned(),
            Event::Volume { level } => "[*] Volume level is ".to_owned().concat(
                decimal(*level as u64).as_str(),
            ),
            Event::PlaybackStarted => "[*] Started".to_owned(),
            Event::PlaybackPaused => "[*] Paused".to_owned(),
            Event::PlaybackStopped => "[*] Stopped".to_owned(),
            Event::QueueFinished => "[*] Queue completed".to_owned(),
            Event::WaitingForDownload => "[*] Waiting for track download".to_owned(),
            Event::NowPlaying { queue_id: _, track } => "[*] Now playing: ".to_owned().concat(
                TrackFmt(track).fmt().as_str(),
            ),
            Event::DownloadError { track, err } => {
                "[*] Error downloading track ".to_owned().concat(
                    TrackFmt(track).fmt().as_str(),
                ).concat(": ").concat(err.message().as_str())
            },
            Event::TracksQueued { tracks } => "[*] ".to_owned().concat(
                decimal_size(tracks.len()).as_str(),
            ).concat(" tracks queued"),
        }
    }
}

/// What the writer of a connection can be told.
#[derive(Debug)]
pub enum WriteMessage {
    SetPrompt,
    ClearPrompt,
    Exit,
    Lines(Vec<String>),
}

/// What the writer of a connection can be told, with texts as sequences of characters.
pub enum WriteMessageView {
    SetPrompt,
    ClearPrompt,
    Exit,
    Lines(Seq<Seq<char>>),
}

impl View for WriteMessage {
    type V = WriteMessageView;

    open spec fn view(&self) -> WriteMessageView {
        match self {
            WriteMessage::SetPrompt => WriteMessageView::SetPrompt,
            WriteMessage::ClearPrompt => WriteMessageView::ClearPrompt,
            WriteMessage::Exit => WriteMessageView::Exit,
            WriteMessage::Lines(lines) => WriteMessageView::Lines(texts(lines@)),
        }
    }
}

/// What happens in a session of the admin server.
#[derive(Debug)]
pub enum SessionEvent {
    /// Somebody has connected.
    Opened,
    /// A line was typed.
    Line(String),
    /// The last line has been carried out, and this is to be answered.
    Answered(Reply),
    /// Nothing more will be typed.
    EndOfInput,
    /// The server shuts down.
    Cancelled,
    /// Nothing can be read, or the writer is gone.
    Failed,
}

/// One step of a session. Where a step fails while the session goes on, those after it are not
/// taken, and the session has failed.
#[derive(Debug)]
pub enum SessionStep {
    /// Tell the writer something.
    Write(WriteMessage),
    /// Wait for a line, for the end of the input, or for the server to shut down.
    Read,
    /// Carry out what a line asks for.
    Handle(String),
    /// The session is over.
    End,
}

/// One step of a session, with texts as sequences of characters.
pub enum SessionStepView {
    Write(WriteMessageView),
    Read,
    Handle(Seq<char>),
    End,
}

impl View for SessionStep {
    type V = SessionStepView;

    open spec fn view(&self) -> SessionStepView {
        match self {
            SessionStep::Write(x) => SessionStepView::Write(x@),
            SessionStep::Read => SessionStepView::Read,
            SessionStep::Handle(line) => SessionStepView::Handle(line@),
            SessionStep::End => SessionStepView::End,
        }
    }
}

/// The steps of a list.
pub open spec fn session_views(steps: Seq<SessionStep>) -> Seq<SessionStepView> {
    steps.map_values(|x: SessionStep| x@)
}

/// What writes one line.
pub open spec fn write_line(line: Seq<char>) -> SessionStepView {
    SessionStepView::Write(WriteMessageView::Lines(seq![line]))
}

/// How a session goes on: with a prompt, and another line.
pub open spec fn next_line_steps() -> Seq<SessionStepView> {
    seq![SessionStepView::Write(WriteMessageView::SetPrompt), SessionStepView::Read]
}

/// How a session ends: with a farewell.
pub open spec fn end_steps() -> Seq<SessionStepView> {
    seq![
        write_line(FAREWELL@),
        SessionStepView::Write(WriteMessageView::Exit),
        SessionStepView::End,
    ]
}

/// What to do about something that happens in a session.
pub open spec fn session_steps(e: SessionEvent) -> Seq<SessionStepView> {
    match e {
        SessionEvent::Opened => seq![write_line(GREETING@)] + next_line_steps(),
        SessionEvent::Line(line) => seq![
            SessionStepView::Write(WriteMessageView::ClearPrompt),
            SessionStepView::Handle(line@),
        ],
        SessionEvent::Answered(reply) => (if reply.lines@.len() == 0 {
            seq![]
        } else {
            seq![SessionStepView::Write(WriteMessageView::Lines(texts(reply.lines@)))]
        }) + (if reply.stop {
            end_steps()
        } else {
            next_line_steps()
        }),
        SessionEvent::EndOfInput => end_steps(),
        SessionEvent::Cancelled => end_steps(),
        SessionEvent::Failed => end_steps(),
    }
}

/// Adds the step that writes one line.
fn push_line(steps: &mut Vec<SessionStep>, line: &str)
    ensures
        session_views(final(steps)@) == session_views(old(steps)@).push(write_line(line@)),
{
    let ghost before = steps@;
    let lines = vec![line.to_owned()];
    assert(texts(lines@) =~= seq![line@]);
    steps.push(SessionStep::Write(WriteMessage::Lines(lines)));
    assert(session_views(steps@) =~= session_views(before).push(write_line(line@)));
}

/// Adds the steps with which a session goes on.
fn push_next_line(steps: &mut Vec<SessionStep>)
    ensures
        session_views(final(steps)@) == session_views(old(steps)@) + next_line_steps(),
{
    let ghost before = steps@;
    steps.push(SessionStep::Write(WriteMessage::SetPrompt));
    steps.push(SessionStep::Read);
    assert(session_views(steps@) =~= session_views(before) + next_line_steps());
}

/// Adds the steps with which a session ends.
fn push_end(steps: &mut Vec<SessionStep>)
    ensures
        session_views(final(steps)@) == session_views(old(steps)@) + end_steps(),
{
    let ghost before = steps@;
    push_line(steps, FAREWELL);
    let ghost with_line = steps@;
    steps.push(SessionStep::Write(WriteMessage::Exit));
    steps.push(SessionStep::End);
    assert(session_views(steps@) =~= session_views(with_line) + end_steps().skip(1));
    assert(session_views(steps@) =~= session_views(before) + end_steps());
}

impl Connection {
    /// What to do about something that happens in a session.
    pub fn serve_requests(e: SessionEvent) -> (r: Vec<SessionStep>)
        ensures
            session_views(r@) == session_steps(e),
    {
        let ghost event = e;
        let mut r: Vec<SessionStep> = Vec::new();
        assert(session_views(r@) =~= Seq::empty());
        match e {
            SessionEvent::Opened => {
                push_line(&mut r, GREETING);
                push_next_line(&mut r);
            },
            SessionEvent::Line(line) => {
                r.push(SessionStep::Write(WriteMessage::ClearPrompt));
                r.push(SessionStep::Handle(line));
            },
            SessionEvent::Answered(reply) => {
                if reply.lines.len() > 0 {
                    r.push(SessionStep::Write(WriteMessage::Lines(reply.lines)));
                }
                if reply.stop {
                    push_end(&mut r);
                } else {
                    push_next_line(&mut r);
                }
            },
            SessionEvent::EndOfInput | SessionEvent::Cancelled | SessionEvent::Failed => {
                push_end(&mut r);
            },
        }
        assert(session_views(r@) =~= session_steps(event));
        r
    }
}

/// Something to be written.
#[derive(Debug)]
pub struct Chunk {
    pub text: String,
    /// Whether it must not be held back.
    pub flush: bool,
}

/// The text of some chunks.
pub open spec fn chunk_texts(chunks: Seq<Chunk>) -> Seq<Seq<char>> {
    chunks.map_values(|c: Chunk| c.text@)
}

/// What is written of some lines, one after the other.
pub open spec fn lines_text(lines: Seq<Seq<char>>) -> Seq<Seq<char>> {
    lines.map_values(|line: Seq<char>| line + "\n"@)
}

/// The writer of a connection.
#[derive(Debug, Clone, Copy, PartialEq, Eq, Structural)]
pub struct WriterWorker {
    /// Whether the last thing that was written is a prompt, and nothing has been typed since.
    pub prompt: bool,
}

/// What to write, and whether the writer is done then.
#[derive(Debug)]
pub struct Output {
    pub chunks: Vec<Chunk>,
    pub stop: bool,
}

impl WriterWorker {
    /// What is written when the writer is told something. Lines do not go on after a prompt: a line
    /// break comes first.
    pub open spec fn written(self, x: WriteMessage) -> Seq<Seq<char>> {
        match x {
            WriteMessage::SetPrompt => seq![PROMPT@],
            WriteMessage::ClearPrompt => seq![],
            WriteMessage::Exit => seq![],
            WriteMessage::Lines(lines) => if self.prompt {
                seq!["\n"@] + lines_text(texts(lines@))
            } else {
                lines_text(texts(lines@))
            },
        }
    }

    /// Whether the last thing that was written is a prompt.
    pub open spec fn prompt_after(self, x: WriteMessage) -> bool {
        match x {
            WriteMessage::SetPrompt => true,
            WriteMessage::ClearPrompt => false,
            WriteMessage::Exit => self.prompt,
            WriteMessage::Lines(_) => false,
        }
    }

    /// A writer that has not written anything.
    pub fn new() -> (r: WriterWorker)
        ensures
            r == (WriterWorker { prompt: false }),
    {
        WriterWorker { prompt: false }
    }

    /// Handles what the writer is told.
    pub fn handle(&mut self, x: &WriteMessage) -> (r: Output)
        ensures
            final(self).prompt == old(self).prompt_after(*x),
            chunk_texts(r.chunks@) == old(self).written(*x),
            r.stop == (x is Exit),
            forall|i: int|
                0 <= i < r.chunks@.len() ==> (#[trigger] r.chunks@[i]).flush == (i > 0
                    || !old(self).prompt || !(x is Lines)),
    {
        match x {
            WriteMessage::Exit => {
                let chunks: Vec<Chunk> = Vec::new();
                assert(chunk_texts(chunks@) =~= Seq::empty());
                Output { chunks, stop: true }
            },
            WriteMessage::SetPrompt => {
                let chunks = self.handle_prompt();
                Output { chunks, stop: false }
            },
            WriteMessage::ClearPrompt => {
                self.prompt = false;
                let chunks: Vec<Chunk> = Vec::new();
                assert(chunk_texts(chunks@) =~= Seq::empty());
                Output { chunks, stop: false }
            },
            WriteMessage::Lines(lines) => {
                let chunks = self.handle_message(lines);
                Output { chunks, stop: false }
            },
        }
    }

    /// Writes a prompt.
    fn handle_prompt(&mut self) -> (r: Vec<Chunk>)
        ensures
            final(self).prompt,
            chunk_texts(r@) == seq![PROMPT@],
            r@.len() == 1,
            r@[0].flush,
    {
        self.prompt = true;
        let r = vec![Chunk { text: PROMPT.to_owned(), flush: true }];
        assert(chunk_texts(r@) =~= seq![PROMPT@]);
        r
    }

    /// Writes lines.
    fn handle_message(&mut self, lines: &Vec<String>) -> (r: Vec<Chunk>)
        ensures
            !final(self).prompt,
            chunk_texts(r@) == old(self).written(WriteMessage::Lines(*lines)),
            forall|i: int|
                0 <= i < r@.len() ==> (#[trigger] r@[i]).flush == (i > 0 || !old(self).prompt),
    {
        let ghost was_prompt = self.prompt;
        let mut r: Vec<Chunk> = Vec::new();
        if self.prompt {
            r.push(Chunk { text: "\n".to_owned(), flush: false });
            self.prompt = false;
        }
        let ghost start = r@;
        let ghost all = lines_text(texts(lines@));
        let mut i: usize = 0;
        assert(chunk_texts(r@) =~= chunk_texts(start) + all.take(0));
        while i < lines.len()
            invariant
                i <= lines@.len(),
                all == lines_text(texts(lines@)),
                chunk_texts(r@) == chunk_texts(start) + all.take(i as int),
                was_prompt ==> start.len() == 1 && r@.len() > 0 && r@[0] == start[0]
                    && !start[0].flush,
                !was_prompt ==> start.len() == 0,
                forall|j: int|
                    0 <= j < r@.len() ==> (#[trigger] r@[j]).flush == (j > 0 || !was_prompt),
                !self.prompt,
            decreases lines.len() - i,
        {
            let ghost before = r@;
            let text = lines[i].clone().concat("\n");
            r.push(Chunk { text, flush: true });
            proof {
                assert(all[i as int] == lines@[i as int]@ + "\n"@);
                assert(chunk_texts(r@) =~= chunk_texts(before).push(text@));
                assert(all.take(i + 1) =~= all.take(i as int).push(text@));
                assert(chunk_texts(r@) =~= chunk_texts(start) + all.take(i + 1));
            }
            i = i + 1;
        }
        proof {
            assert(all.take(i as int) =~= all);
            if was_prompt {
                assert(chunk_texts(start) =~= seq!["\n"@]);
                assert(chunk_texts(r@) =~= seq!["\n"@] + all);
            } else {
                assert(chunk_texts(r@) =~= all);
            }
        }
        r
    }
}

/// Only `exit` closes the connection: whatever else is typed, it stays open.
pub proof fn only_exit_closes(words: Seq<Seq<char>>)
    ensures
        words_step(words) == Ok::<StepView, ErrorView>(StepView::Exit) <==> words.len() > 0
            && words[0] == "exit"@,
{
}

/// A level that is typed after `volume` is the level that the player is asked for, if it is not
/// above the highest.
pub proof fn typed_level_is_asked_for(level: u8)
    requires
        level <= MAX_VOLUME,
    ensures
        command_step(Command::Volume, seq![decimal_text(level as nat)]) == Ok::<
            StepView,
            ErrorView,
        >(StepView::Ask(PlayerRequest::SetVolume { level })),
{
    level_is_read_back(level);
}

/// Lines never go on after a prompt, and there is no empty line before them where there is none:
/// after a prompt a line break comes first, and after what was typed, or after other lines, it does
/// not.
pub proof fn lines_start_on_their_own(w: WriterWorker, typed: WriteMessage, lines: Vec<String>)
    requires
        typed is ClearPrompt || typed is Lines,
    ensures
        ({
            let prompted = WriterWorker { prompt: w.prompt_after(WriteMessage::SetPrompt) };
            prompted.written(WriteMessage::Lines(lines)) == seq!["\n"@] + lines_text(
                texts(lines@),
            )
        }),
        ({
            let answered = WriterWorker { prompt: w.prompt_after(typed) };
            answered.written(WriteMessage::Lines(lines)) == lines_text(texts(lines@))
        }),
{
}

/// A session always goes on in one way, which is the last of its steps: it waits for a line, carries
/// one out, or is over. It is over exactly when the last line says so, when nothing more is typed,
/// when the server shuts down, or when it has failed; and it does not end without a farewell.
pub proof fn sessions_wait_or_end(e: SessionEvent)
    ensures
        ({
            let steps = session_steps(e);
            let ends = match e {
                SessionEvent::Opened => false,
                SessionEvent::Line(_) => false,
                SessionEvent::Answered(reply) => reply.stop,
                _ => true,
            };
            &&& steps.len() > 0
            &&& forall|i: int|
                0 <= i < steps.len() - 1 ==> (#[trigger] steps[i]) is Write
            &&& steps.last() is End <==> ends
            &&& steps.last() is Handle <==> e is Line
            &&& steps.last() is Read <==> !ends && !(e is Line)
            &&& ends ==> steps.len() >= 3 && steps.skip(steps.len() - 3) == end_steps()
        }),
{
    let steps = session_steps(e);
    match e {
        SessionEvent::Answered(reply) => {
            if reply.stop {
                assert(steps.skip(steps.len() - 3) =~= end_steps());
            }
        },
        SessionEvent::EndOfInput | SessionEvent::Cancelled | SessionEvent::Failed => {
            assert(steps.skip(0) =~= steps);
        },
        _ => {},
    }
}

/// Every command has its own names, and a name that is none of these names no command.
pub proof fn commands_have_their_names(s: Seq<char>)
    ensures
        command_of(s) == Some(Command::Exit) <==> s == "exit"@,
        command_of(s) == Some(Command::Play) <==> s == "play"@,
        command_of(s) == Some(Command::Pause) <==> s == "pause"@,
        command_of(s) == Some(Command::PlayToggle) <==> s == "play-toggle"@ || s == "p"@,
        command_of(s) == Some(Command::Stop) <==> s == "stop"@,
        command_of(s) == Some(Command::Skip) <==> s == "skip"@ || s == "s"@,
        command_of(s) == Some(Command::Queue) <==> s == "queue"@ || s == "q"@,
        command_of(s) == Some(Command::Mute) <==> s == "mute"@,
        command_of(s) == Some(Command::Unmute) <==> s == "unmute"@,
        command_of(s) == Some(Command::MuteToggle) <==> s == "mute-toggle"@ || s == "m"@,
        command_of(s) == Some(Command::Volume) <==> s == "volume"@ || s == "v"@,
        command_of(s) == Some(Command::Info) <==> s == "info"@ || s == "i"@,
{
    reveal_strlit("exit");
    reveal_strlit("play");
    reveal_strlit("pause");
    reveal_strlit("play-toggle");
    reveal_strlit("p");
    reveal_strlit("stop");
    reveal_strlit("skip");
    reveal_strlit("s");
    reveal_strlit("queue");
    reveal_strlit("q");
    reveal_strlit("mute");
    reveal_strlit("unmute");
    reveal_strlit("mute-toggle");
    reveal_strlit("m");
    reveal_strlit("volume");
    reveal_strlit("v");
    reveal_strlit("info");
    reveal_strlit("i");
    assert("exit"@[0] == 'e' && "play"@[0] == 'p' && "stop"@[0] == 's' && "stop"@[1] == 't'
        && "skip"@[0] == 's' && "skip"@[1] == 'k' && "mute"@[0] == 'm' && "info"@[0] == 'i');
    assert("exit"@.len() == 4 && "play"@.len() == 4 && "stop"@.len() == 4 && "skip"@.len() == 4
        && "mute"@.len() == 4 && "info"@.len() == 4);
    assert("pause"@.len() == 5 && "queue"@.len() == 5);
    assert("unmute"@.len() == 6 && "volume"@.len() == 6);
    assert("play-toggle"@.len() == 11 && "mute-toggle"@.len() == 11);
    assert("p"@.len() == 1 && "s"@.len() == 1 && "q"@.len() == 1 && "m"@.len() == 1 && "v"@.len()
        == 1 && "i"@.len() == 1);
    assert("pause"@[0] == 'p' && "queue"@[0] == 'q');
    assert("play-toggle"@[0] == 'p' && "mute-toggle"@[0] == 'm');
    assert("unmute"@[0] == 'u' && "volume"@[0] == 'v');
    assert("p"@[0] == 'p' && "s"@[0] == 's' && "q"@[0] == 'q' && "m"@[0] == 'm' && "v"@[0] == 'v'
        && "i"@[0] == 'i');
}

/// Words are addresses exactly if every one is, and the addresses are those of the words, in their
/// order. Otherwise the word that is told is the first that is none.
pub proof fn words_are_addresses_one_by_one(words: Seq<Seq<char>>)
    ensures
        match urls_of(words) {
            Ok(urls) => urls.len() == words.len() && forall|i: int|
                0 <= i < words.len() ==> (url_of_text(#[trigger] words[i]) matches Ok(url) && url
                    == urls[i]),
            Err(word) => exists|k: int|
                0 <= k < words.len() && #[trigger] words[k] == word && url_of_text(word) is Err
                    && forall|j: int| 0 <= j < k ==> url_of_text(#[trigger] words[j]) is Ok,
        },
    decreases words.len(),
{
    if words.len() > 0 {
        let front = words.drop_last();
        let last = words.len() - 1;
        words_are_addresses_one_by_one(front);
        assert(words[last] == words.last());
        match urls_of(front) {
            Ok(urls) => {
                assert forall|i: int| 0 <= i < last implies (url_of_text(
                    #[trigger] words[i],
                ) matches Ok(url) && url == urls[i]) by {
                    assert(front[i] == words[i]);
                }
            },
            Err(word) => {
                let k = choose|k: int|
                    0 <= k < front.len() && #[trigger] front[k] == word && url_of_text(word) is Err
                        && forall|j: int| 0 <= j < k ==> url_of_text(#[trigger] front[j]) is Ok;
                assert(words[k] == word);
                assert forall|j: int| 0 <= j < k implies url_of_text(#[trigger] words[j]) is Ok by {
                    assert(front[j] == words[j]);
                }
            },
        }
    }
}

/// What a line asks for follows from its first word and from those after it. A command asks for what
/// it is named after, and words behind it make no difference unless it is about the queue or the
/// volume.
pub proof fn commands_do_what_they_are_named(args: Seq<Seq<char>>)
    ensures
        command_step(Command::Exit, args) == Ok::<StepView, ErrorView>(StepView::Exit),
        command_step(Command::Info, args) == Ok::<StepView, ErrorView>(StepView::Info),
        command_step(Command::Play, args) == Ok::<StepView, ErrorView>(
            StepView::Ask(PlayerRequest::Play),
        ),
        command_step(Command::Pause, args) == Ok::<StepView, ErrorView>(
            StepView::Ask(PlayerRequest::Pause),
        ),
        command_step(Command::PlayToggle, args) == Ok::<StepView, ErrorView>(
            StepView::Ask(PlayerRequest::PlayToggle),
        ),
        command_step(Command::Stop, args) == Ok::<StepView, ErrorView>(
            StepView::Ask(PlayerRequest::Stop),
        ),
        command_step(Command::Skip, args) == Ok::<StepView, ErrorView>(
            StepView::Ask(PlayerRequest::Skip),
        ),
        command_step(Command::Mute, args) == Ok::<StepView, ErrorView>(
            StepView::Ask(PlayerRequest::Mute),
        ),
        command_step(Command::Unmute, args) == Ok::<StepView, ErrorView>(
            StepView::Ask(PlayerRequest::Unmute),
        ),
        command_step(Command::MuteToggle, args) == Ok::<StepView, ErrorView>(
            StepView::Ask(PlayerRequest::MuteToggle),
        ),
{
}

/// The queue is listed if nothing follows the command. Otherwise what follows is put into it, if all
/// words are addresses, and if not, the first that is none is the error.
pub proof fn queue_lists_or_adds(args: Seq<Seq<char>>)
    ensures
        ({
            let r = command_step(Command::Queue, args);
            &&& r == Ok::<StepView, ErrorView>(StepView::ListQueue) <==> args.len() == 0
            &&& args.len() > 0 ==> match urls_of(args) {
                Ok(urls) => r == Ok::<StepView, ErrorView>(StepView::Queue(urls)),
                Err(word) => r == Err::<StepView, ErrorView>(ErrorView::InvalidYoutubeUrl(word)),
            }
        }),
{
}

/// The first word after `volume` is what counts: a sign asks for a step, a level for that level, and
/// anything else is an error, as is nothing.
pub proof fn volume_takes_one_word(args: Seq<Seq<char>>, level: u8)
    ensures
        ({
            let r = command_step(Command::Volume, args);
            &&& args.len() == 0 ==> r == Err::<StepView, ErrorView>(
                ErrorView::InvalidRequest("One argument expected +/-/num"@),
            )
            &&& args.len() > 0 && volume_command(args[0]) is None ==> r == Err::<
                StepView,
                ErrorView,
            >(
                ErrorView::InvalidRequest(
                    "invalid volume level; volume must be between 0 and 10"@,
                ),
            )
            &&& args.len() > 0 && volume_command(args[0]) == Some(VolumeCommand::Increase) ==> r
                == Ok::<StepView, ErrorView>(StepView::Ask(PlayerRequest::IncreaseVolume))
            &&& args.len() > 0 && volume_command(args[0]) == Some(VolumeCommand::Decrease) ==> r
                == Ok::<StepView, ErrorView>(StepView::Ask(PlayerRequest::DecreaseVolume))
            &&& args.len() > 0 && volume_command(args[0]) == Some(VolumeCommand::SetTo(level))
                ==> r == Ok::<StepView, ErrorView>(
                StepView::Ask(PlayerRequest::SetVolume { level }),
            )
        }),
{
}

/// A line is answered by its words: none ask for nothing, the first names a command that gets the
/// others, and a name that no command has is told in the error. A line that cannot be split is an
/// error.
pub proof fn lines_are_answered_by_their_words(line: Seq<char>)
    ensures
        match shell_split(line) {
            None => line_step(line) == Err::<StepView, ErrorView>(
                ErrorView::InvalidRequest(
                    "Unable to parse request: "@ + "missing closing quote"@,
                ),
            ),
            Some(words) => if words.len() == 0 {
                line_step(line) == Ok::<StepView, ErrorView>(StepView::Nothing)
            } else {
                match command_of(words[0]) {
                    Some(command) => line_step(line) == command_step(
                        command,
                        words.subrange(1, words.len() as int),
                    ),
                    None => line_step(line) == Err::<StepView, ErrorView>(
                        ErrorView::InvalidRequest("Unknown command "@ + debug_text(words[0])),
                    ),
                }
            },
        },
{
    match shell_split(line) {
        Some(words) => {
            if words.len() > 0 {
                assert(words.skip(1) =~= words.subrange(1, words.len() as int));
            }
        },
        None => {},
    }
}

/// An outcome that is meant is the outcome: it succeeds exactly if it is meant to, and with the same
/// step or the same error.
pub proof fn outcomes_are_what_is_meant(
    r: Result<Step>,
    meant: core::result::Result<StepView, ErrorView>,
)
    requires
        step_is(r, meant),
    ensures
        r is Ok <==> meant is Ok,
        r is Ok ==> r->Ok_0@ == meant->Ok_0,
        r is Err ==> r->Err_0@ == meant->Err_0,
{
}

/// An error says what it is about.
pub proof fn errors_say_what_they_are_about(
    s: Seq<char>,
    player: PlayerError,
    youtube: YoutubeErrorView,
)
    ensures
        ErrorView::InvalidYoutubeUrl(s).text() == "invalid url: "@ + debug_text(s),
        ErrorView::InvalidRequest(s).text() == "invalid request: "@ + s,
        ErrorView::Player(player).text() == player.text(),
        ErrorView::Youtube(youtube).text() == youtube.text(),
        ErrorView::Channel(ChannelError).text() == ChannelError.text(),
        invalid_url_text(s) == "invalid url: "@ + s,
        controller_error(ControllerErrorView::Player(player)) == ErrorView::Player(player),
        controller_error(ControllerErrorView::Youtube(youtube)) == ErrorView::Youtube(youtube),
        controller_error(ControllerErrorView::Channel(ChannelError)) == ErrorView::Channel(
            ChannelError,
        ),
{
}

/// An error is answered with what it says, below a heading if it comes from elsewhere. If nobody is
/// there to be asked, nothing is answered.
pub proof fn errors_are_answered(e: ErrorView)
    ensures
        match e {
            ErrorView::Channel(_) => error_lines(e).len() == 0,
            ErrorView::Player(p) => error_lines(e).len() == 2 && error_lines(e)[0]
                == "[x] Player error"@ && error_lines(e)[1] == "... "@ + p.text(),
            ErrorView::Youtube(y) => error_lines(e).len() == 2 && error_lines(e)[0]
                == "[x] Youtube download error"@ && error_lines(e)[1] == "... "@ + y.text(),
            ErrorView::InvalidRequest(_) => error_lines(e).len() == 1 && error_lines(e)[0]
                == "[x] "@ + e.text(),
            ErrorView::InvalidYoutubeUrl(_) => error_lines(e).len() == 1 && error_lines(e)[0]
                == "[x] "@ + e.text(),
        },
{
}

/// A track is written as its first artist and its title, and as its title if it has no artist.
/// Nothing else that is known of it makes a difference.
pub proof fn tracks_are_artist_and_title(track: TrackView)
    ensures
        track.artist.len() > 0 ==> track_text(track) == track.artist[0] + " - "@ + track.title,
        track.artist.len() == 0 ==> track_text(track) == track.title,
{
}

/// A listing has a line for each track, in the order of the queue, and each line is about the track
/// at its own place. The first bears a star and the others the number of their place. An empty queue
/// has one line that says so.
pub proof fn every_track_has_its_line(items: Seq<ListedTrack>, i: int, j: int, other: ListedTrack)
    ensures
        items.len() == 0 ==> queue_lines(items) == seq!["... Queue is empty"@],
        items.len() > 0 ==> queue_lines(items).len() == items.len(),
        0 <= i < items.len() ==> queue_lines(items)[i] == "... ("@ + left_aligned(
            if i == 0 {
                "*"@
            } else {
                decimal_text(i as nat)
            },
            ' ',
            2,
        ) + ") ["@ + (if items[i].state == QueuedTrackState::NotReady {
            "x"@
        } else if items[i].state == QueuedTrackState::Downloaded {
            "d"@
        } else {
            "s"@
        }) + "] "@ + track_text(items[i].track),
        0 <= i < items.len() && 0 <= j < items.len() && i != j ==> queue_lines(
            items.update(i, other),
        )[j] == queue_lines(items)[j],
{
}

/// How the player stands is told by a sign for whether it plays, by whether it can be heard, by the
/// level, and by how many tracks are to come.
pub proof fn info_is_told_by_its_parts(status: StatusView)
    ensures
        ({
            let rest = " "@ + right_aligned(decimal_text(status.volume_level as nat), ' ', 2)
                + " : "@ + decimal_text(status.length as nat) + " in queue"@;
            &&& status.is_paused && status.is_muted ==> info_text(status) == "... ["@ + "⏸"@
                + "] "@ + left_aligned("muted"@, ' ', 6) + rest
            &&& status.is_paused && !status.is_muted ==> info_text(status) == "... ["@ + "⏸"@
                + "] "@ + left_aligned("volume"@, ' ', 6) + rest
            &&& !status.is_paused && status.is_muted ==> info_text(status) == "... ["@
                + "▶️"@ + "] "@ + left_aligned("muted"@, ' ', 6) + rest
            &&& !status.is_paused && !status.is_muted ==> info_text(status) == "... ["@
                + "▶️"@ + "] "@ + left_aligned("volume"@, ' ', 6) + rest
        }),
{
    let rest = " "@ + right_aligned(decimal_text(status.volume_level as nat), ' ', 2) + " : "@
        + decimal_text(status.length as nat) + " in queue"@;
    let first = "... ["@ + (if status.is_paused {
        "⏸"@
    } else {
        "▶️"@
    }) + "] "@ + left_aligned(
        if status.is_muted {
            "muted"@
        } else {
            "volume"@
        },
        ' ',
        6,
    );
    assert(info_text(status) =~= first + rest);
}

/// What is written of an event says what happened, and with which track, level or error.
pub proof fn events_are_written_out(e: EventView)
    ensures
        match e {
            EventView::Muted => notification_text(e) == "[*] Muted"@,
            EventView::Unmuted => notification_text(e) == "[*] Unmuted"@,
            EventView::Volume { level } => notification_text(e) == "[*] Volume level is "@
                + decimal_text(level as nat),
            EventView::PlaybackStarted => notification_text(e) == "[*] Started"@,
            EventView::PlaybackPaused => notification_text(e) == "[*] Paused"@,
            EventView::PlaybackStopped => notification_text(e) == "[*] Stopped"@,
            EventView::QueueFinished => notification_text(e) == "[*] Queue completed"@,
            EventView::WaitingForDownload => notification_text(e)
                == "[*] Waiting for track download"@,
            EventView::NowPlaying { queue_id, track } => notification_text(e)
                == "[*] Now playing: "@ + track_text(track),
            EventView::DownloadError { track, err } => notification_text(e)
                == "[*] Error downloading track "@ + track_text(track) + ": "@ + err.text(),
            EventView::TracksQueued { tracks } => notification_text(e) == "[*] "@ + decimal_text(
                tracks.len(),
            ) + " tracks queued"@,
        },
{
}

/// A session starts with a greeting and a prompt. A line that is typed takes the place of the prompt
/// and is carried out as it is. What is answered is written whole, if there is anything, and then
/// comes a prompt or the end. The end is a farewell, and then the writer is told to stop.
pub proof fn sessions_take_their_steps(line: String, reply: Reply)
    ensures
        session_steps(SessionEvent::Opened) == seq![
            SessionStepView::Write(WriteMessageView::Lines(seq!["Hello!"@])),
            SessionStepView::Write(WriteMessageView::SetPrompt),
            SessionStepView::Read,
        ],
        session_steps(SessionEvent::Line(line)) == seq![
            SessionStepView::Write(WriteMessageView::ClearPrompt),
            SessionStepView::Handle(line@),
        ],
        reply.lines@.len() == 0 && !reply.stop ==> session_steps(SessionEvent::Answered(reply))
            == seq![SessionStepView::Write(WriteMessageView::SetPrompt), SessionStepView::Read],
        reply.lines@.len() > 0 && !reply.stop ==> session_steps(SessionEvent::Answered(reply))
            == seq![
            SessionStepView::Write(WriteMessageView::Lines(texts(reply.lines@))),
            SessionStepView::Write(WriteMessageView::SetPrompt),
            SessionStepView::Read,
        ],
        reply.lines@.len() == 0 && reply.stop ==> session_steps(SessionEvent::Answered(reply))
            == session_steps(SessionEvent::EndOfInput),
        reply.lines@.len() > 0 && reply.stop ==> session_steps(SessionEvent::Answered(reply))
            == seq![SessionStepView::Write(WriteMessageView::Lines(texts(reply.lines@)))]
            + session_steps(SessionEvent::EndOfInput),
        session_steps(SessionEvent::EndOfInput) == seq![
            SessionStepView::Write(WriteMessageView::Lines(seq!["Bye!"@])),
            SessionStepView::Write(WriteMessageView::Exit),
            SessionStepView::End,
        ],
        session_steps(SessionEvent::Cancelled) == session_steps(SessionEvent::EndOfInput),
        session_steps(SessionEvent::Failed) == session_steps(SessionEvent::EndOfInput),
{
    assert(session_steps(SessionEvent::Opened) =~= seq![
        SessionStepView::Write(WriteMessageView::Lines(seq!["Hello!"@])),
        SessionStepView::Write(WriteMessageView::SetPrompt),
        SessionStepView::Read,
    ]);
    let answered = session_steps(SessionEvent::Answered(reply));
    if reply.lines@.len() == 0 && !reply.stop {
        assert(answered =~= seq![
            SessionStepView::Write(WriteMessageView::SetPrompt),
            SessionStepView::Read,
        ]);
    }
    if reply.lines@.len() > 0 && !reply.stop {
        assert(answered =~= seq![
            SessionStepView::Write(WriteMessageView::Lines(texts(reply.lines@))),
            SessionStepView::Write(WriteMessageView::SetPrompt),
            SessionStepView::Read,
        ]);
    }
    if reply.lines@.len() == 0 && reply.stop {
        assert(answered =~= session_steps(SessionEvent::EndOfInput));
    }
}

/// Every line is written whole, with a line break behind it, in the order of the lines. Only lines
/// that come after a prompt have a line break before them, and only once. A prompt is written as it
/// is, and nothing else is written.
pub proof fn lines_are_written_whole(w: WriterWorker, lines: Vec<String>, i: int)
    ensures
        ({
            let written = w.written(WriteMessage::Lines(lines));
            let skip: int = if w.prompt {
                1
            } else {
                0
            };
            &&& written.len() == lines@.len() + skip
            &&& w.prompt ==> written[0] == "\n"@
            &&& 0 <= i < lines@.len() ==> written[i + skip] == lines@[i]@ + "\n"@
        }),
        w.written(WriteMessage::SetPrompt) == seq!["> "@],
        w.written(WriteMessage::ClearPrompt).len() == 0,
        w.written(WriteMessage::Exit).len() == 0,
        w.prompt_after(WriteMessage::SetPrompt),
        !w.prompt_after(WriteMessage::ClearPrompt),
        !w.prompt_after(WriteMessage::Lines(lines)),
        w.prompt_after(WriteMessage::Exit) == w.prompt,
{
}

/// What is seen of chunks, addresses and steps is each of them, in their order, with all that it
/// holds.
pub proof fn views_show_what_is_there(
    chunks: Seq<Chunk>,
    urls: Seq<Url>,
    steps: Seq<SessionStep>,
    i: int,
)
    ensures
        chunk_texts(chunks).len() == chunks.len(),
        0 <= i < chunks.len() ==> chunk_texts(chunks)[i] == chunks[i].text@,
        url_views(urls).len() == urls.len(),
        0 <= i < urls.len() ==> url_views(urls)[i] == urls[i]@,
        session_views(steps).len() == steps.len(),
        0 <= i < steps.len() ==> match steps[i] {
            SessionStep::Write(WriteMessage::SetPrompt) => session_views(steps)[i]
                == SessionStepView::Write(WriteMessageView::SetPrompt),
            SessionStep::Write(WriteMessage::ClearPrompt) => session_views(steps)[i]
                == SessionStepView::Write(WriteMessageView::ClearPrompt),
            SessionStep::Write(WriteMessage::Exit) => session_views(steps)[i]
                == SessionStepView::Write(WriteMessageView::Exit),
            SessionStep::Write(WriteMessage::Lines(lines)) => session_views(steps)[i]
                == SessionStepView::Write(WriteMessageView::Lines(texts(lines@))),
            SessionStep::Read => session_views(steps)[i] == SessionStepView::Read,
            SessionStep::Handle(line) => session_views(steps)[i] == SessionStepView::Handle(line@),
            SessionStep::End => session_views(steps)[i] == SessionStepView::End,
        },
{
}

/// What is seen of a step and of an error is what they are, with all that they hold.
pub proof fn steps_show_what_they_hold(step: Step, e: Error)
    ensures
        match step {
            Step::Nothing => step@ is Nothing,
            Step::Exit => step@ is Exit,
            Step::Ask(request) => step@ == StepView::Ask(request),
            Step::Queue(urls) => step@ == StepView::Queue(url_views(urls@)),
            Step::ListQueue => step@ is ListQueue,
            Step::Info => step@ is Info,
        },
        match e {
            Error::InvalidYoutubeUrl(url) => e@ == ErrorView::InvalidYoutubeUrl(url@),
            Error::InvalidRequest(message) => e@ == ErrorView::InvalidRequest(message@),
            Error::Player(p) => e@ == ErrorView::Player(p),
            Error::Youtube(y) => e@ == ErrorView::Youtube(y@),
            Error::Channel(c) => e@ == ErrorView::Channel(c),
        },
{
}

} // verus!
