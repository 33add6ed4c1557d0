//! What the commands of a chat ask for.

use crate::controller::{
    listed, manager_request_before, track_views, Data, DataView, Error as ControllerError,
    ListedTrack, QueuedTrackState, State as ControllerState,
};
use crate::player::{
    playback_follows_requests, told, Event as PlayerEvent, EventEnvelope,
    Request as PlayerRequest, SinkModel, SinkState, Worker,
};
use crate::server::volume_request;
use crate::telegram::defs::CONFIRM_TEXT;
use crate::telegram::display::{paginate, pages, track_text, TrackFmt};
use crate::telegram::state::{DialogueData, Settings};
use crate::track_manager::{ManagerView, Request as ManagerRequest};
use crate::util::link::Url;
use crate::util::parse::{texts, texts_of_push, ArgumentList, VolumeCommand};
use crate::util::text::{decimal, decimal_text, pad_left, right_aligned};
use crate::youtube::{Track, TrackView};
use vstd::prelude::*;

verus! {

/// What is answered while tracks are looked for.
pub const SEARCH_TEXT: &'static str = "Ищу треки...";

/// What is answered when no track is let through.
pub const ALL_FILTERED_TEXT: &'static str = "Все треки были отфильтрованы";

/// What is answered to a command that is not known.
pub const UNKNOWN_COMMAND_TEXT: &'static str =
    "Неизвестная команда, наберите /help для вывода справки";

/// What can be asked in a chat.
#[derive(Debug)]
pub enum Command {
    Start,
    Stop,
    Help,
    Play,
    Pause,
    PlayToggle,
    Clear,
    Skip,
    Mute,
    Unmute,
    MuteToggle,
    Volume { cmd: VolumeCommand },
    Queue { urls: ArgumentList<Url> },
    Status,
    Show,
}

/// What to do about a command.
#[derive(Debug)]
pub enum Endpoint {
    /// Let the bot run in the chat, and confirm it.
    Start,
    /// Let the bot run in the chat no longer, and confirm it.
    Stop,
    /// Show all commands.
    Help,
    /// Ask the player for something, remember who asked, and confirm it.
    Ask(PlayerRequest),
    /// Look for what is behind some addresses, and put it into the queue.
    Queue(Vec<Url>),
    /// Tell how the player stands.
    Status,
    /// List the queue.
    Show,
    /// The command cannot be used here.
    Unknown,
}

/// What to do about a command, with lists as sequences.
pub enum EndpointView {
    Start,
    Stop,
    Help,
    Ask(PlayerRequest),
    Queue(Seq<Url>),
    Status,
    Show,
    Unknown,
}

impl View for Endpoint {
    type V = EndpointView;

    open spec fn view(&self) -> EndpointView {
        match self {
            Endpoint::Start => EndpointView::Start,
            Endpoint::Stop => EndpointView::Stop,
            Endpoint::Help => EndpointView::Help,
            Endpoint::Ask(request) => EndpointView::Ask(*request),
            Endpoint::Queue(urls) => EndpointView::Queue(urls@),
            Endpoint::Status => EndpointView::Status,
            Endpoint::Show => EndpointView::Show,
            Endpoint::Unknown => EndpointView::Unknown,
        }
    }
}

/// The request that a command is for the player, if it is one.
pub open spec fn command_request(command: Command) -> Option<PlayerRequest> {
    match command {
        Command::Play => Some(PlayerRequest::Play),
        Command::Pause => Some(PlayerRequest::Pause),
        Command::PlayToggle => Some(PlayerRequest::PlayToggle),
        Command::Clear => Some(PlayerRequest::Stop),
        Command::Skip => Some(PlayerRequest::Skip),
        Command::Mute => Some(PlayerRequest::Mute),
        Command::Unmute => Some(PlayerRequest::Unmute),
        Command::MuteToggle => Some(PlayerRequest::MuteToggle),
        Command::Volume { cmd } => Some(volume_request(cmd)),
        _ => None,
    }
}

/// What to do about a message, which is a command or is none. Where the bot does not run, it can only
/// be started or asked for help; where it runs, everything but starting it can be asked.
pub open spec fn endpoint_of(dialogue: DialogueData, command: Option<Command>) -> EndpointView {
    match (dialogue, command) {
        (_, None) => EndpointView::Unknown,
        (_, Some(Command::Help)) => EndpointView::Help,
        (DialogueData::Start, Some(Command::Start)) => EndpointView::Start,
        (DialogueData::Start, Some(_)) => EndpointView::Unknown,
        (DialogueData::Run, Some(Command::Start)) => EndpointView::Unknown,
        (DialogueData::Run, Some(Command::Stop)) => EndpointView::Stop,
        (DialogueData::Run, Some(Command::Queue { urls })) => EndpointView::Queue(urls.items()),
        (DialogueData::Run, Some(Command::Status)) => EndpointView::Status,
        (DialogueData::Run, Some(Command::Show)) => EndpointView::Show,
        (DialogueData::Run, Some(command)) => EndpointView::Ask(command_request(command)->0),
    }
}

/// Finds out what to do about a message, which is a command or is none.
pub fn schema(dialogue: DialogueData, command: Option<Command>) -> (r: Endpoint)
    ensures
        r@ == endpoint_of(dialogue, command),
{
    let command = match command {
        Some(command) => command,
        None => {
            return Endpoint::Unknown;
        },
    };
    match dialogue {
        DialogueData::Start => match command {
            Command::Start => Endpoint::Start,
            Command::Help => Endpoint::Help,
            _ => Endpoint::Unknown,
        },
        DialogueData::Run => match command {
            Command::Start => Endpoint::Unknown,
            Command::Stop => Endpoint::Stop,
            Command::Help => Endpoint::Help,
            Command::Play => Endpoint::Ask(PlayerRequest::Play),
            Command::Pause => Endpoint::Ask(PlayerRequest::Pause),
            Command::PlayToggle => Endpoint::Ask(PlayerRequest::PlayToggle),
            Command::Clear => Endpoint::Ask(PlayerRequest::Stop),
            Command::Skip => Endpoint::Ask(PlayerRequest::Skip),
            Command::Mute => Endpoint::Ask(PlayerRequest::Mute),
            Command::Unmute => Endpoint::Ask(PlayerRequest::Unmute),
            Command::MuteToggle => Endpoint::Ask(PlayerRequest::MuteToggle),
            Command::Volume { cmd } => Endpoint::Ask(volume(cmd)),
            Command::Queue { urls } => Endpoint::Queue(urls.into_vec()),
            Command::Status => Endpoint::Status,
            Command::Show => Endpoint::Show,
        },
    }
}

/// The request that a volume command amounts to.
fn volume(cmd: VolumeCommand) -> (r: PlayerRequest)
    ensures
        r == volume_request(cmd),
{
    match cmd {
        VolumeCommand::Increase => PlayerRequest::IncreaseVolume,
        VolumeCommand::Decrease => PlayerRequest::DecreaseVolume,
        VolumeCommand::SetTo(level) => PlayerRequest::SetVolume { level },
    }
}

/// Whether the bot runs in the chat afterwards.
pub open spec fn dialogue_of(dialogue: DialogueData, endpoint: EndpointView) -> DialogueData {
    match endpoint {
        EndpointView::Start => DialogueData::Run,
        EndpointView::Stop => DialogueData::Start,
        _ => dialogue,
    }
}

/// Whether the bot runs in the chat afterwards.
pub fn dialogue_after(dialogue: DialogueData, endpoint: &Endpoint) -> (r: DialogueData)
    ensures
        r == dialogue_of(dialogue, endpoint@),
{
    match endpoint {
        Endpoint::Start => DialogueData::Run,
        Endpoint::Stop => DialogueData::Start,
        _ => dialogue,
    }
}

/// What is answered to a message that asks for nothing: nothing, unless it looks like a command.
pub fn error(text: Option<&str>) -> (r: Option<&'static str>)
    ensures
        match r {
            Some(reply) => reply@ == UNKNOWN_COMMAND_TEXT@ && (text matches Some(s) && s@.len() > 0
                && s@[0] == '/'),
            None => text matches Some(s) ==> s@.len() == 0 || s@[0] != '/',
        },
{
    match text {
        Some(s) => if s.unicode_len() > 0 && s.get_char(0) == '/' {
            Some(UNKNOWN_COMMAND_TEXT)
        } else {
            None
        },
        None => None,
    }
}

/// What is answered when tracks cannot be found.
pub open spec fn search_error_text(e: Seq<char>) -> Seq<char> {
    "❗ Ошибка поиска: "@ + e
}

/// What is answered when tracks cannot be found.
pub fn search_error(e: &ControllerError) -> (r: String)
    ensures
        r@ == search_error_text(e@.text()),
{
    "❗ Ошибка поиска: ".to_owned().concat(e.message().as_str())
}

/// The tracks that are let through for what they are.
pub open spec fn allowed(tracks: Seq<TrackView>, only_music_tracks: bool) -> Seq<TrackView> {
    tracks.filter(|t: TrackView| !only_music_tracks || t.is_music_track)
}

/// How many seconds some tracks last.
pub open spec fn total_duration(tracks: Seq<TrackView>) -> nat
    decreases tracks.len(),
{
    if tracks.len() == 0 {
        0
    } else {
        total_duration(tracks.drop_last()) + tracks.last().duration as nat
    }
}

/// The number of tracks at the front that together last no longer than the limit.
pub open spec fn count_within(tracks: Seq<TrackView>, limit: nat) -> nat
    decreases tracks.len(),
{
    if total_duration(tracks) <= limit || tracks.len() == 0 {
        tracks.len()
    } else {
        count_within(tracks.drop_last(), limit)
    }
}

/// The tracks that are let through: only music where that is asked for, and as many from the front
/// as together last no longer than the limit.
pub open spec fn filtered(tracks: Seq<TrackView>, settings: Settings) -> Seq<TrackView> {
    let music = allowed(tracks, settings.only_music_tracks);
    music.take(count_within(music, settings.max_request_duration as nat) as int)
}

/// Whether the durations can be added up as far as that is needed: up to the first track that is
/// over the limit.
pub open spec fn adds_up(tracks: Seq<TrackView>, settings: Settings) -> bool {
    let music = allowed(tracks, settings.only_music_tracks);
    forall|k: int|
        0 <= k < music.len() && total_duration(music.take(k)) <= settings.max_request_duration
            ==> total_duration(#[trigger] music.take(k + 1)) <= u64::MAX
}

/// More tracks last longer.
proof fn total_grows(tracks: Seq<TrackView>, k: int)
    requires
        0 <= k <= tracks.len(),
    ensures
        total_duration(tracks.take(k)) <= total_duration(tracks),
    decreases tracks.len() - k,
{
    if k < tracks.len() {
        assert(tracks.take(k + 1).drop_last() =~= tracks.take(k));
        total_grows(tracks, k + 1);
    } else {
        assert(tracks.take(k) =~= tracks);
    }
}

/// The count is that of the last front part within the limit.
proof fn count_is(tracks: Seq<TrackView>, limit: nat, k: int)
    requires
        0 <= k <= tracks.len(),
        total_duration(tracks.take(k)) <= limit,
        k < tracks.len() ==> total_duration(tracks.take(k + 1)) > limit,
    ensures
        count_within(tracks, limit) == k,
    decreases tracks.len(),
{
    if k == tracks.len() {
        assert(tracks.take(k) =~= tracks);
    } else {
        total_grows(tracks, k + 1);
        let front = tracks.drop_last();
        assert(front.take(k) =~= tracks.take(k));
        if k < front.len() {
            assert(front.take(k + 1) =~= tracks.take(k + 1));
        }
        count_is(front, limit, k);
    }
}

/// The tracks that are let through last no longer than the limit, and with the next one they would.
/// They are the first of those that are let through for what they are, and all of them are music
/// where that is asked for.
pub proof fn filter_takes_what_fits(tracks: Seq<TrackView>, settings: Settings)
    ensures
        ({
            let music = allowed(tracks, settings.only_music_tracks);
            let kept = filtered(tracks, settings);
            &&& kept.len() <= music.len()
            &&& kept == music.take(kept.len() as int)
            &&& total_duration(kept) <= settings.max_request_duration
            &&& kept.len() < music.len() ==> total_duration(music.take(kept.len() as int + 1))
                > settings.max_request_duration
            &&& settings.only_music_tracks ==> forall|i: int|
                0 <= i < kept.len() ==> (#[trigger] kept[i]).is_music_track
        }),
{
    let music = allowed(tracks, settings.only_music_tracks);
    let kept = filtered(tracks, settings);
    count_is_last(music, settings.max_request_duration as nat);
    let keep = |t: TrackView| !settings.only_music_tracks || t.is_music_track;
    assert forall|i: int| 0 <= i < kept.len() && settings.only_music_tracks implies (
    #[trigger] kept[i]).is_music_track by {
        tracks.lemma_filter_pred(keep, i);
        assert(keep(music[i]));
    }
}

/// What the count counts.
proof fn count_is_last(tracks: Seq<TrackView>, limit: nat)
    ensures
        ({
            let n = count_within(tracks, limit) as int;
            &&& n <= tracks.len()
            &&& total_duration(tracks.take(n)) <= limit
            &&& n < tracks.len() ==> total_duration(tracks.take(n + 1)) > limit
        }),
    decreases tracks.len(),
{
    if total_duration(tracks) <= limit || tracks.len() == 0 {
        assert(tracks.take(tracks.len() as int) =~= tracks);
    } else {
        let front = tracks.drop_last();
        count_is_last(front, limit);
        let n = count_within(front, limit) as int;
        assert(tracks.take(n) =~= front.take(n));
        if n < front.len() {
            assert(tracks.take(n + 1) =~= front.take(n + 1));
        } else {
            assert(tracks.take(n + 1) =~= tracks);
        }
    }
}

/// One more track to choose from.
proof fn allowed_step(tracks: Seq<TrackView>, only_music_tracks: bool, i: int)
    requires
        0 <= i < tracks.len(),
    ensures
        allowed(tracks.take(i + 1), only_music_tracks) == if !only_music_tracks
            || tracks[i].is_music_track {
            allowed(tracks.take(i), only_music_tracks).push(tracks[i])
        } else {
            allowed(tracks.take(i), only_music_tracks)
        },
{
    reveal(Seq::filter);
    assert(tracks.take(i + 1).drop_last() =~= tracks.take(i));
}

/// What is let through of the first tracks is the beginning of what is let through of all.
proof fn allowed_prefix(tracks: Seq<TrackView>, only_music_tracks: bool, i: int)
    requires
        0 <= i <= tracks.len(),
    ensures
        ({
            let part = allowed(tracks.take(i), only_music_tracks);
            let all = allowed(tracks, only_music_tracks);
            part.len() <= all.len() && part == all.take(part.len() as int)
        }),
    decreases tracks.len() - i,
{
    if i < tracks.len() {
        allowed_step(tracks, only_music_tracks, i);
        allowed_prefix(tracks, only_music_tracks, i + 1);
        let part = allowed(tracks.take(i), only_music_tracks);
        let more = allowed(tracks.take(i + 1), only_music_tracks);
        let all = allowed(tracks, only_music_tracks);
        assert(part =~= more.take(part.len() as int));
        assert(more.take(part.len() as int) =~= all.take(part.len() as int));
    } else {
        assert(tracks.take(i) =~= tracks);
        let all = allowed(tracks, only_music_tracks);
        assert(all.take(all.len() as int) =~= all);
    }
}

/// Whether the durations can be added up as far as that is needed.
pub fn can_filter(tracks: &Vec<Track>, settings: &Settings) -> (r: bool)
    ensures
        r == adds_up(track_views(tracks@), *settings),
{
    let ghost views = track_views(tracks@);
    let only = settings.only_music_tracks;
    let ghost music = allowed(views, only);
    let mut cur: u64 = 0;
    let mut i: usize = 0;
    assert(allowed(views.take(0), only) =~= Seq::empty()) by {
        reveal(Seq::filter);
    }
    while i < tracks.len()
        invariant
            i <= tracks@.len(),
            views == track_views(tracks@),
            only == settings.only_music_tracks,
            music == allowed(views, only),
            cur == total_duration(allowed(views.take(i as int), only)),
            cur <= settings.max_request_duration,
            forall|k: int|
                0 <= k < allowed(views.take(i as int), only).len() ==> total_duration(
                    #[trigger] music.take(k + 1),
                ) <= u64::MAX,
        decreases tracks.len() - i,
    {
        let ghost part = allowed(views.take(i as int), only);
        let ghost n = part.len() as int;
        proof {
            allowed_step(views, only, i as int);
            allowed_prefix(views, only, i as int);
            allowed_prefix(views, only, i + 1);
            assert(views[i as int] == tracks@[i as int]@);
        }
        if !only || tracks[i].is_music_track {
            let duration = tracks[i].duration;
            proof {
                assert(part.push(views[i as int]).drop_last() =~= part);
                assert(music.take(n + 1) == part.push(views[i as int]));
            }
            if duration > u64::MAX - cur {
                assert(total_duration(music.take(n)) <= settings.max_request_duration);
                return false;
            }
            cur = cur + duration;
            if cur > settings.max_request_duration {
                proof {
                    assert forall|k: int|
                        0 <= k < music.len() && total_duration(music.take(k))
                            <= settings.max_request_duration implies total_duration(
                        #[trigger] music.take(k + 1),
                    ) <= u64::MAX by {
                        if k > n {
                            total_grows(music.take(k), n + 1);
                            assert(music.take(k).take(n + 1) =~= music.take(n + 1));
                        }
                    }
                }
                return true;
            }
        }
        i = i + 1;
    }
    assert(views.take(i as int) =~= views);
    true
}

/// The tracks that are let through.
pub fn filter_tracks(tracks: Vec<Track>, settings: &Settings) -> (r: Vec<Track>)
    requires
        adds_up(track_views(tracks@), *settings),
    ensures
        track_views(r@) == filtered(track_views(tracks@), *settings),
{
    let ghost views = track_views(tracks@);
    let only = settings.only_music_tracks;
    let ghost music = allowed(views, only);
    let ghost limit = settings.max_request_duration as nat;
    let mut r: Vec<Track> = Vec::new();
    let mut cur: u64 = 0;
    let mut i: usize = 0;
    proof {
        reveal(Seq::filter);
        assert(allowed(views.take(0), only) =~= Seq::empty());
        assert(track_views(r@) =~= Seq::empty());
    }
    while i < tracks.len()
        invariant
            i <= tracks@.len(),
            views == track_views(tracks@),
            only == settings.only_music_tracks,
            limit == settings.max_request_duration,
            music == allowed(views, only),
            adds_up(views, *settings),
            track_views(r@) == allowed(views.take(i as int), only),
            cur == total_duration(track_views(r@)),
            cur <= limit,
        decreases tracks.len() - i,
    {
        let ghost part = track_views(r@);
        let ghost n = part.len() as int;
        proof {
            allowed_step(views, only, i as int);
            allowed_prefix(views, only, i as int);
            allowed_prefix(views, only, i + 1);
            assert(views[i as int] == tracks@[i as int]@);
        }
        if !only || tracks[i].is_music_track {
            proof {
                assert(part.push(views[i as int]).drop_last() =~= part);
                assert(music.take(n + 1) == part.push(views[i as int]));
                assert(total_duration(music.take(n)) <= limit);
            }
            cur = cur + tracks[i].duration;
            if cur > settings.max_request_duration {
                proof {
                    count_is(music, limit, n);
                }
                return r;
            }
            let track = tracks[i].clone();
            assert(track_views(r@.push(track)) =~= track_views(r@).push(track@));
            r.push(track);
        }
        i = i + 1;
    }
    proof {
        assert(views.take(i as int) =~= views);
        assert(music.take(music.len() as int) =~= music);
        count_is(music, limit, music.len() as int);
    }
    r
}

/// What to do with the tracks that were found.
#[derive(Debug)]
pub enum QueuePlan {
    /// No track is let through: only answer that.
    Refuse(&'static str),
    /// Put some tracks into the queue, remember who asked, and answer.
    Queue(Vec<Track>, String),
}

/// What is answered once tracks are in the queue, given how many were not let through.
pub open spec fn queued_reply(dropped: nat) -> Seq<char> {
    if dropped == 0 {
        CONFIRM_TEXT@
    } else {
        decimal_text(dropped) + " треков было отфильтровано"@
    }
}

/// What to do with the tracks that were found.
pub fn queue_plan(tracks: Vec<Track>, settings: &Settings) -> (r: QueuePlan)
    requires
        adds_up(track_views(tracks@), *settings),
    ensures
        ({
            let kept = filtered(track_views(tracks@), *settings);
            match r {
                QueuePlan::Refuse(reply) => kept.len() == 0 && reply@ == ALL_FILTERED_TEXT@,
                QueuePlan::Queue(list, reply) => kept.len() > 0 && track_views(list@) == kept
                    && reply@ == queued_reply((tracks@.len() - kept.len()) as nat),
            }
        }),
{
    let before = tracks.len();
    proof {
        filter_takes_what_fits(track_views(tracks@), *settings);
        allowed_is_less(track_views(tracks@), settings.only_music_tracks);
    }
    let kept = filter_tracks(tracks, settings);
    assert(kept@.len() == track_views(kept@).len());
    if kept.len() == 0 {
        return QueuePlan::Refuse(ALL_FILTERED_TEXT);
    }
    let dropped: usize = before - kept.len();
    let reply = if dropped == 0 {
        CONFIRM_TEXT.to_owned()
    } else {
        decimal(dropped as u64).concat(" треков было отфильтровано")
    };
    QueuePlan::Queue(kept, reply)
}

/// Not more tracks are let through than there are.
proof fn allowed_is_less(tracks: Seq<TrackView>, only_music_tracks: bool)
    ensures
        allowed(tracks, only_music_tracks).len() <= tracks.len(),
{
    tracks.lemma_filter_len(|t: TrackView| !only_music_tracks || t.is_music_track);
}

/// The sign for how far a track has come.
pub open spec fn state_sign(state: QueuedTrackState) -> Seq<char> {
    match state {
        QueuedTrackState::NotReady => "🔴"@,
        QueuedTrackState::Downloaded => "🟡"@,
        QueuedTrackState::SentToPlayer => "🟢"@,
    }
}

/// The number of a line in a listing. What the player has gets a sign instead.
pub open spec fn line_number(number: nat, state: QueuedTrackState) -> Seq<char> {
    match state {
        QueuedTrackState::SentToPlayer => "🎷"@,
        _ => right_aligned(decimal_text(number), ' ', 2),
    }
}

/// A line of a listing of the queue.
pub open spec fn show_line(number: nat, item: ListedTrack) -> Seq<char> {
    "\\("@ + line_number(number, item.state) + "\\) "@ + state_sign(item.state) + " "@
        + track_text(item.track) + "\n"@
}

/// The lines of a listing of the queue. Counting starts at zero if the player has the first track,
/// and at one otherwise.
pub open spec fn show_lines(items: Seq<ListedTrack>) -> Seq<Seq<char>> {
    let start: int = if items.len() > 0 && items[0].state == QueuedTrackState::SentToPlayer {
        0
    } else {
        1
    };
    Seq::new(items.len(), |i: int| show_line((start + i) as nat, items[i]))
}

/// A listing of the queue, spread over messages.
pub fn show(view: &Data) -> (r: Vec<String>)
    requires
        view.wf(),
    ensures
        texts(r@) == pages(seq![], show_lines(view@.listing())),
{
    let items = view.iter();
    let ghost all = view@.listing();
    let first = view.first_track_state();
    assert(items@.len() == all.len());
    let q: u64 = match first {
        Some(QueuedTrackState::SentToPlayer) => 0,
        _ => 1,
    };
    let mut lines: Vec<String> = Vec::new();
    let mut i: usize = 0;
    assert(texts(lines@) =~= show_lines(all).take(0));
    while i < items.len()
        invariant
            i <= items@.len(),
            all == listed(items@),
            q <= 1,
            q == 0 <==> all.len() > 0 && all[0].state == QueuedTrackState::SentToPlayer,
            texts(lines@) == show_lines(all).take(i as int),
        decreases items.len() - i,
    {
        let item = &items[i];
        assert(all[i as int] == item@);
        let index = match item.state {
            QueuedTrackState::SentToPlayer => "🎷".to_owned(),
            _ => pad_left(decimal(q + i as u64).as_str(), ' ', 2),
        };
        let status = match item.state {
            QueuedTrackState::NotReady => "🔴",
            QueuedTrackState::Downloaded => "🟡",
            QueuedTrackState::SentToPlayer => "🟢",
        };
        let line = "\\(".to_owned().concat(index.as_str()).concat("\\) ").concat(status).concat(
            " ",
        ).concat(TrackFmt(item.track).fmt().as_str()).concat("\n");
        proof {
            texts_of_push(lines@, line);
            assert(line@ == show_lines(all)[i as int]);
            assert(show_lines(all).take(i + 1) =~= show_lines(all).take(i as int).push(line@));
        }
        lines.push(line);
        i = i + 1;
    }
    assert(show_lines(all).take(i as int) =~= show_lines(all));
    let heading = String::new();
    assert(heading@ =~= Seq::<char>::empty());
    paginate(heading, &lines)
}

/// Every message has one endpoint. Where the bot does not run, that is the one for starting or for
/// help if the message asks for it, and the one for unknown messages otherwise. Where it runs, every
/// command but the one that starts it has its own, and everything else is unknown.
pub proof fn every_message_has_its_endpoint(dialogue: DialogueData, command: Option<Command>)
    ensures
        dialogue == DialogueData::Start ==> endpoint_of(dialogue, command) == match command {
            Some(Command::Start) => EndpointView::Start,
            Some(Command::Help) => EndpointView::Help,
            _ => EndpointView::Unknown,
        },
        dialogue == DialogueData::Run ==> endpoint_of(dialogue, command) == match command {
            None => EndpointView::Unknown,
            Some(Command::Start) => EndpointView::Unknown,
            Some(Command::Stop) => EndpointView::Stop,
            Some(Command::Help) => EndpointView::Help,
            Some(Command::Play) => EndpointView::Ask(PlayerRequest::Play),
            Some(Command::Pause) => EndpointView::Ask(PlayerRequest::Pause),
            Some(Command::PlayToggle) => EndpointView::Ask(PlayerRequest::PlayToggle),
            Some(Command::Clear) => EndpointView::Ask(PlayerRequest::Stop),
            Some(Command::Skip) => EndpointView::Ask(PlayerRequest::Skip),
            Some(Command::Mute) => EndpointView::Ask(PlayerRequest::Mute),
            Some(Command::Unmute) => EndpointView::Ask(PlayerRequest::Unmute),
            Some(Command::MuteToggle) => EndpointView::Ask(PlayerRequest::MuteToggle),
            Some(Command::Volume { cmd }) => EndpointView::Ask(volume_request(cmd)),
            Some(Command::Queue { urls }) => EndpointView::Queue(urls.items()),
            Some(Command::Status) => EndpointView::Status,
            Some(Command::Show) => EndpointView::Show,
        },
{
}

/// The bot can be started where it does not run and stopped where it does, and doing the one undoes
/// the other. No other message changes where it runs.
pub proof fn start_and_stop_alternate(dialogue: DialogueData, command: Option<Command>)
    ensures
        ({
            let endpoint = endpoint_of(dialogue, command);
            let next = dialogue_of(dialogue, endpoint);
            &&& next != dialogue <==> (dialogue == DialogueData::Start
                && command == Some(Command::Start)) || (dialogue == DialogueData::Run
                && command == Some(Command::Stop))
            &&& endpoint is Start || endpoint is Stop <==> next != dialogue
        }),
{
}

/// Where the bot does not run, nothing can be asked of the player or the queue.
pub proof fn nothing_is_asked_where_the_bot_does_not_run(command: Option<Command>)
    ensures
        ({
            let endpoint = endpoint_of(DialogueData::Start, command);
            endpoint is Start || endpoint is Help || endpoint is Unknown
        }),
{
}

/// `Clear` stops the player and empties the queue, whatever the player has and whatever is still to
/// come. The sink is empty and paused. If there was anything in the queue or in the sink, the one
/// event that is told has the controller and the track manager forget everything; if there was
/// nothing, nothing is told and the queue is empty as it was.
pub proof fn clear_empties_the_queue(
    worker: Worker,
    sink: SinkModel,
    seen: SinkState,
    s: ControllerState,
    m: ManagerView,
)
    requires
        sink.seen_as(seen),
        seen.queue_waits == s.call(s.origin_id_counter, PlayerRequest::Stop).queue_waits,
    ensures
        endpoint_of(DialogueData::Run, Some(Command::Clear)) == EndpointView::Ask(
            PlayerRequest::Stop,
        ),
        worker.answer(seen, PlayerRequest::Stop) is Ok,
        ({
            let origin_id = s.origin_id_counter;
            let effects = worker.effects(seen, origin_id, PlayerRequest::Stop);
            let stopped = PlayerEvent::PlaybackStopped;
            &&& sink.run(effects).is_paused
            &&& sink.run(effects).length == 0
            &&& sink.length > 0 || s.data@.queue.len() > 0 ==> {
                &&& told(effects) == seq![EventEnvelope { origin_id, event: stopped }]
                &&& s.data@.accepts_player_event(stopped)
                &&& s.data@.after_player_event(stopped, true) == DataView::fresh()
                &&& DataView::fresh().queue.len() == 0
                &&& manager_request_before(stopped) == Some(ManagerRequest::Clear)
                &&& m.after(ManagerRequest::Clear) == ManagerView::idle(m.cache_size)
            }
            &&& sink.length == 0 && s.data@.queue.len() == 0 ==> told(effects) == Seq::<
                EventEnvelope,
            >::empty()
        }),
{
    playback_follows_requests(worker, sink, seen, s.origin_id_counter);
}

/// Durations add up: no tracks last no time, and one more track adds what it lasts, whatever else is
/// known of it. Two lists last as long as one after the other.
pub proof fn durations_add_up(tracks: Seq<TrackView>, track: TrackView, others: Seq<TrackView>)
    ensures
        total_duration(Seq::empty()) == 0,
        total_duration(tracks.push(track)) == total_duration(tracks) + track.duration,
        total_duration(seq![track]) == track.duration,
        total_duration(tracks + others) == total_duration(tracks) + total_duration(others),
    decreases others.len(),
{
    assert(tracks.push(track).drop_last() =~= tracks);
    let none = Seq::<TrackView>::empty();
    assert(seq![track] =~= none.push(track));
    assert(none.push(track).drop_last() =~= none);
    assert(total_duration(none) == 0);
    if others.len() == 0 {
        assert(tracks + others =~= tracks);
    } else {
        durations_add_up(tracks, track, others.drop_last());
        assert((tracks + others).drop_last() =~= tracks + others.drop_last());
    }
}

/// A track that lasts longer than the limit is never let through, wherever it stands and whatever
/// else is known of it. A track that is let through lasts no longer than the limit alone or together
/// with all that come before it.
pub proof fn long_tracks_are_not_let_through(tracks: Seq<TrackView>, settings: Settings, i: int)
    ensures
        ({
            let kept = filtered(tracks, settings);
            &&& 0 <= i < kept.len() ==> kept[i].duration <= settings.max_request_duration
            &&& 0 <= i < kept.len() ==> total_duration(kept.take(i)) + kept[i].duration
                <= settings.max_request_duration
            &&& tracks.len() == 1 && tracks[0].duration > settings.max_request_duration
                ==> kept.len() == 0
        }),
{
    let kept = filtered(tracks, settings);
    filter_takes_what_fits(tracks, settings);
    allowed_is_less(tracks, settings.only_music_tracks);
    if 0 <= i < kept.len() {
        total_grows(kept, i + 1);
        durations_add_up(kept.take(i), kept[i], Seq::empty());
        assert(kept.take(i + 1) =~= kept.take(i).push(kept[i]));
    }
    if tracks.len() == 1 && kept.len() > 0 {
        reveal(Seq::filter);
        allowed_step(tracks, settings.only_music_tracks, 0);
        assert(tracks.take(1) =~= tracks);
        assert(allowed(tracks.take(0), settings.only_music_tracks) =~= Seq::empty());
        assert(kept[0] == tracks[0]);
        total_grows(kept, 1);
        durations_add_up(kept.take(0), kept[0], Seq::empty());
        assert(kept.take(1) =~= kept.take(0).push(kept[0]));
    }
}

/// Whether a track is let through for what it is depends on nothing but that: where all is let
/// through, no track is left out, and where only music is, exactly what is known to be music stays,
/// in its order.
pub proof fn only_music_is_held_to_be_music(
    tracks: Seq<TrackView>,
    only_music_tracks: bool,
    track: TrackView,
)
    ensures
        allowed(tracks, false) == tracks,
        allowed(Seq::empty(), only_music_tracks) == Seq::<TrackView>::empty(),
        track.is_music_track ==> allowed(tracks.push(track), true) == allowed(tracks, true).push(
            track,
        ),
        !track.is_music_track ==> allowed(tracks.push(track), true) == allowed(tracks, true),
    decreases tracks.len(),
{
    reveal(Seq::filter);
    let more = tracks.push(track);
    assert(more.take(tracks.len() as int + 1) =~= more);
    assert(more.take(tracks.len() as int) =~= tracks);
    allowed_step(more, true, tracks.len() as int);
    assert(allowed(Seq::empty(), only_music_tracks) =~= Seq::<TrackView>::empty());
    if tracks.len() > 0 {
        let front = tracks.drop_last();
        only_music_is_held_to_be_music(front, only_music_tracks, track);
        let n = front.len() as int;
        assert(tracks.take(n) =~= front);
        assert(tracks.take(n + 1) =~= tracks);
        allowed_step(tracks, false, n);
        assert(front.push(tracks[n]) =~= tracks);
    } else {
        assert(allowed(tracks, false) =~= tracks);
    }
}

/// If all tracks together are within the limit, all that may be let through are. A limit that is
/// higher lets through at least what a lower one does, and in the same order.
pub proof fn higher_limits_let_more_through(tracks: Seq<TrackView>, low: Settings, high: Settings)
    requires
        low.only_music_tracks == high.only_music_tracks,
        low.max_request_duration <= high.max_request_duration,
    ensures
        total_duration(allowed(tracks, low.only_music_tracks)) <= low.max_request_duration
            ==> filtered(tracks, low) == allowed(tracks, low.only_music_tracks),
        filtered(tracks, low).len() <= filtered(tracks, high).len(),
        filtered(tracks, low) == filtered(tracks, high).take(filtered(tracks, low).len() as int),
{
    let music = allowed(tracks, low.only_music_tracks);
    let few = filtered(tracks, low);
    let many = filtered(tracks, high);
    filter_takes_what_fits(tracks, low);
    filter_takes_what_fits(tracks, high);
    assert(music.take(music.len() as int) =~= music);
    if few.len() < music.len() {
        total_grows(music, few.len() as int + 1);
    }
    if few.len() > many.len() {
        total_grows(few, many.len() as int + 1);
        assert(few.take(many.len() as int + 1) =~= music.take(many.len() as int + 1));
    }
    assert(few =~= many.take(few.len() as int));
}

/// Tracks whose durations can be added up can be chosen from, whatever the limit. They cannot be
/// only if a sum that is needed cannot be counted.
pub proof fn what_can_be_counted_can_be_filtered(tracks: Seq<TrackView>, settings: Settings)
    ensures
        total_duration(allowed(tracks, settings.only_music_tracks)) <= u64::MAX ==> adds_up(
            tracks,
            settings,
        ),
        ({
            let music = allowed(tracks, settings.only_music_tracks);
            let next = filtered(tracks, settings).len() as int + 1;
            adds_up(tracks, settings) <==> next > music.len() || total_duration(music.take(next))
                <= u64::MAX
        }),
{
    let music = allowed(tracks, settings.only_music_tracks);
    let limit = settings.max_request_duration;
    let n = filtered(tracks, settings).len() as int;
    filter_takes_what_fits(tracks, settings);
    assert forall|k: int|
        0 <= k < music.len() && total_duration(music.take(k)) <= limit && (n + 1 > music.len()
            || total_duration(music.take(n + 1)) <= u64::MAX) implies total_duration(
        #[trigger] music.take(k + 1),
    ) <= u64::MAX by {
        if k > n {
            total_grows(music.take(k), n + 1);
            assert(music.take(k).take(n + 1) =~= music.take(n + 1));
        } else if k < n {
            total_grows(music.take(n), k + 1);
            assert(music.take(n).take(k + 1) =~= music.take(k + 1));
        }
    }
    if n < music.len() {
        total_grows(music, n + 1);
        assert(total_duration(music.take(n)) <= limit);
    }
}

/// The answer says how many tracks were left out, if any were.
pub proof fn replies_count_what_is_left_out(dropped: nat)
    ensures
        queued_reply(0) == "OK!"@,
        dropped > 0 ==> queued_reply(dropped) == decimal_text(dropped)
            + " треков было отфильтровано"@,
{
}

/// A listing has a line for each track, in the order of the queue, and each line is about its own
/// track: how far it has come, and what it is. Lines are numbered by their places, from zero if the
/// player has the first track and from one if it has not; what the player has bears a sign and no
/// number.
pub proof fn every_track_has_its_line(items: Seq<ListedTrack>, i: int)
    requires
        0 <= i < items.len(),
    ensures
        show_lines(items).len() == items.len(),
        items[i].state == QueuedTrackState::SentToPlayer ==> show_lines(items)[i] == "\\("@
            + "🎷"@ + "\\) "@ + "🟢"@ + " "@ + track_text(items[i].track) + "\n"@,
        items[i].state != QueuedTrackState::SentToPlayer ==> show_lines(items)[i] == "\\("@
            + right_aligned(
            decimal_text(
                if items[0].state == QueuedTrackState::SentToPlayer {
                    i as nat
                } else {
                    (i + 1) as nat
                },
            ),
            ' ',
            2,
        ) + "\\) "@ + (if items[i].state == QueuedTrackState::Downloaded {
            "🟡"@
        } else {
            "🔴"@
        }) + " "@ + track_text(items[i].track) + "\n"@,
{
}

/// Replacing a track in the queue by another that has come as far changes its line and no other.
pub proof fn lines_are_about_their_own_track(
    items: Seq<ListedTrack>,
    i: int,
    j: int,
    other: ListedTrack,
)
    requires
        0 <= i < items.len(),
        0 <= j < items.len(),
        other.state == items[i].state,
    ensures
        i != j ==> show_lines(items.update(i, other))[j] == show_lines(items)[j],
        show_lines(items.update(i, other)).len() == show_lines(items).len(),
{
}

/// Where the bot was started it runs, where it was stopped it does not, and nothing else changes
/// where it runs.
pub proof fn only_starting_and_stopping_change_where_it_runs(
    dialogue: DialogueData,
    endpoint: EndpointView,
)
    ensures
        endpoint is Start ==> dialogue_of(dialogue, endpoint) == DialogueData::Run,
        endpoint is Stop ==> dialogue_of(dialogue, endpoint) == DialogueData::Start,
        !(endpoint is Start) && !(endpoint is Stop) ==> dialogue_of(dialogue, endpoint)
            == dialogue,
{
}

/// A volume command becomes the request of the same name, with the same level.
pub proof fn volume_commands_keep_their_level(cmd: VolumeCommand)
    ensures
        endpoint_of(DialogueData::Run, Some(Command::Volume { cmd })) == EndpointView::Ask(
            match cmd {
                VolumeCommand::Increase => PlayerRequest::IncreaseVolume,
                VolumeCommand::Decrease => PlayerRequest::DecreaseVolume,
                VolumeCommand::SetTo(level) => PlayerRequest::SetVolume { level },
            },
        ),
{
}

/// What is seen of an endpoint is the endpoint with all that it holds.
pub proof fn endpoints_show_what_they_hold(endpoint: Endpoint)
    ensures
        match endpoint {
            Endpoint::Start => endpoint@ is Start,
            Endpoint::Stop => endpoint@ is Stop,
            Endpoint::Help => endpoint@ is Help,
            Endpoint::Ask(request) => endpoint@ == EndpointView::Ask(request),
            Endpoint::Queue(urls) => endpoint@ == EndpointView::Queue(urls@),
            Endpoint::Status => endpoint@ is Status,
            Endpoint::Show => endpoint@ is Show,
            Endpoint::Unknown => endpoint@ is Unknown,
        },
{
}

/// A search that fails is answered with what went wrong.
pub proof fn failed_searches_are_explained(e: Seq<char>)
    ensures
        search_error_text(e) == "❗ Ошибка поиска: "@ + e,
        UNKNOWN_COMMAND_TEXT@ == "Неизвестная команда, наберите /help для вывода справки"@,
        ALL_FILTERED_TEXT@ == "Все треки были отфильтрованы"@,
        SEARCH_TEXT@ == "Ищу треки..."@,
{
}

} // verus!
