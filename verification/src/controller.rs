//! The controller: it keeps the queue, and goes between those who send requests, the player and the
//! track manager.

use crate::player::{
    Error as PlayerError, Event as PlayerEvent, OriginId, QueueId, Request as PlayerRequest,
    Response as PlayerResponse, Result as PlayerResult, Status as PlayerStatus,
};
use crate::track_manager::{
    Event as ManagerEvent, EventView as ManagerEventView, ManagerView, Request as ManagerRequest,
};
use crate::util::channel::{ChannelError, ChannelResult};
use crate::util::link::Url;
use crate::util::sorted::{
    entries, entries_of, entries_of_nothing, entries_with_change, entries_with_last,
    entries_without, find, first, put, size, sorted_keys, take,
};
use crate::util::text::same;
use crate::util::text_map::TextMap;
use crate::youtube::{
    known_address, Error as YoutubeError, ErrorView as YoutubeErrorView,
    Request as YoutubeRequest, Result as YoutubeResult, Track, TrackId, TrackView, Youtube,
};
use std::collections::BTreeMap;
use vstd::prelude::*;

verus! {

/// The first identifier in a fresh queue.
pub const QUEUE_ID_START: usize = 1;

/// The result of what the controller is asked.
pub type Result<T> = core::result::Result<T, Error>;

/// How the controller behaves.
#[derive(Debug, Clone, Copy, PartialEq, Eq, Structural)]
pub struct Settings {
    /// Whether tracks that are put into an empty queue start to play.
    pub auto_play: bool,
    /// How many tracks are downloaded beforehand.
    pub track_cache_size: usize,
}

/// Why the controller cannot do what it is asked.
#[derive(Debug)]
pub enum Error {
    Player(PlayerError),
    Youtube(YoutubeError),
    Channel(ChannelError),
}

/// An error, with its texts as sequences of characters.
pub enum ErrorView {
    Player(PlayerError),
    Youtube(YoutubeErrorView),
    Channel(ChannelError),
}

impl View for Error {
    type V = ErrorView;

    open spec fn view(&self) -> ErrorView {
        match self {
            Error::Player(e) => ErrorView::Player(*e),
            Error::Youtube(e) => ErrorView::Youtube(e@),
            Error::Channel(e) => ErrorView::Channel(*e),
        }
    }
}

impl ErrorView {
    /// What the error says.
    pub open spec fn text(self) -> Seq<char> {
        match self {
            ErrorView::Player(e) => e.text(),
            ErrorView::Youtube(e) => e.text(),
            ErrorView::Channel(e) => e.text(),
        }
    }
}

/// The error that an error in finding tracks amounts to.
pub open spec fn resolve_error(e: YoutubeErrorView) -> ErrorView {
    match e {
        YoutubeErrorView::Channel(e) => ErrorView::Channel(e),
        e => ErrorView::Youtube(e),
    }
}

impl Error {
    /// The error that an error in finding tracks amounts to.
    pub fn from_resolve(e: YoutubeError) -> (r: Error)
        ensures
            r@ == resolve_error(e@),
    {
        match e {
            YoutubeError::Channel(e) => Error::Channel(e),
            e => Error::Youtube(e),
        }
    }

    /// The error as a sentence.
    pub fn message(&self) -> (r: String)
        ensures
            r@ == self@.text(),
    {
        match self {
            Error::Player(e) => e.message(),
            Error::Youtube(e) => e.message(),
            Error::Channel(e) => e.message(),
        }
    }
}

/// How the player and the queue stand.
#[derive(Debug)]
pub struct Status {
    pub is_paused: bool,
    pub is_muted: bool,
    pub volume_level: u8,
    /// How many tracks come after the one that is played.
    pub length: usize,
    pub now_playing: Option<Track>,
}

/// How the player and the queue stand, with texts as sequences of characters.
pub struct StatusView {
    pub is_paused: bool,
    pub is_muted: bool,
    pub volume_level: u8,
    pub length: usize,
    pub now_playing: Option<TrackView>,
}

/// A track that may be missing, with its texts as sequences of characters.
pub open spec fn optional_track(track: Option<Track>) -> Option<TrackView> {
    match track {
        Some(track) => Some(track@),
        None => None,
    }
}

impl View for Status {
    type V = StatusView;

    open spec fn view(&self) -> StatusView {
        StatusView {
            is_paused: self.is_paused,
            is_muted: self.is_muted,
            volume_level: self.volume_level,
            length: self.length,
            now_playing: optional_track(self.now_playing),
        }
    }
}

/// A track and its place in the queue.
#[derive(Debug)]
pub struct QueuedTrack {
    pub queue_id: QueueId,
    pub track: Track,
}

/// A track and its place in the queue, with texts as sequences of characters.
pub struct QueuedTrackView {
    pub queue_id: QueueId,
    pub track: TrackView,
}

impl View for QueuedTrack {
    type V = QueuedTrackView;

    open spec fn view(&self) -> QueuedTrackView {
        QueuedTrackView { queue_id: self.queue_id, track: self.track@ }
    }
}

/// What is told to everybody who listens.
#[derive(Debug)]
pub enum Event {
    PlaybackStarted,
    PlaybackPaused,
    PlaybackStopped,
    QueueFinished,
    WaitingForDownload,
    Muted,
    Unmuted,
    TracksQueued { tracks: Vec<QueuedTrack> },
    Volume { level: u8 },
    NowPlaying { queue_id: QueueId, track: Track },
    DownloadError { track: Track, err: YoutubeError },
}

/// What is told to everybody who listens, with texts as sequences of characters.
pub enum EventView {
    PlaybackStarted,
    PlaybackPaused,
    PlaybackStopped,
    QueueFinished,
    WaitingForDownload,
    Muted,
    Unmuted,
    TracksQueued { tracks: Seq<QueuedTrackView> },
    Volume { level: u8 },
    NowPlaying { queue_id: QueueId, track: TrackView },
    DownloadError { track: TrackView, err: YoutubeErrorView },
}

/// The queued tracks of a list.
pub open spec fn queued_tracks(tracks: Seq<QueuedTrack>) -> Seq<QueuedTrackView> {
    tracks.map_values(|t: QueuedTrack| t@)
}

/// The tracks of a list.
pub open spec fn track_views(tracks: Seq<Track>) -> Seq<TrackView> {
    tracks.map_values(|t: Track| t@)
}

impl View for Event {
    type V = EventView;

    open spec fn view(&self) -> EventView {
        match self {
            Event::PlaybackStarted => EventView::PlaybackStarted,
            Event::PlaybackPaused => EventView::PlaybackPaused,
            Event::PlaybackStopped => EventView::PlaybackStopped,
            Event::QueueFinished => EventView::QueueFinished,
            Event::WaitingForDownload => EventView::WaitingForDownload,
            Event::Muted => EventView::Muted,
            Event::Unmuted => EventView::Unmuted,
            Event::TracksQueued { tracks } => EventView::TracksQueued {
                tracks: queued_tracks(tracks@),
            },
            Event::Volume { level } => EventView::Volume { level: *level },
            Event::NowPlaying { queue_id, track } => EventView::NowPlaying {
                queue_id: *queue_id,
                track: track@,
            },
            Event::DownloadError { track, err } => EventView::DownloadError {
                track: track@,
                err: err@,
            },
        }
    }
}

/// An event together with the request that led to it.
#[derive(Debug)]
pub struct EventEnvelope {
    pub origin_id: OriginId,
    pub event: Event,
}

/// An event together with the request that led to it, with texts as sequences of characters.
pub struct EventEnvelopeView {
    pub origin_id: OriginId,
    pub event: EventView,
}

impl View for EventEnvelope {
    type V = EventEnvelopeView;

    open spec fn view(&self) -> EventEnvelopeView {
        EventEnvelopeView { origin_id: self.origin_id, event: self.event@ }
    }
}

/// How far a queued track has come.
#[derive(Debug, Clone, Copy, PartialEq, Eq, Structural)]
pub enum QueuedTrackState {
    NotReady,
    Downloaded,
    SentToPlayer,
}

/// A track that is somewhere in the queue.
#[derive(Debug)]
pub struct TrackData {
    pub meta: Track,
    /// Whether the track is on disk.
    pub downloaded: bool,
}

/// A track that is somewhere in the queue, with texts as sequences of characters.
pub struct TrackDataView {
    pub meta: TrackView,
    pub downloaded: bool,
}

impl View for TrackData {
    type V = TrackDataView;

    open spec fn view(&self) -> TrackDataView {
        TrackDataView { meta: self.meta@, downloaded: self.downloaded }
    }
}

/// A place in the queue.
#[derive(Debug)]
pub struct QueueData {
    pub track_id: TrackId,
    pub sent_to_player: bool,
    /// The request that put the track into the queue.
    pub origin_id: OriginId,
}

/// A place in the queue, with texts as sequences of characters.
pub struct QueueDataView {
    pub track_id: Seq<char>,
    pub sent_to_player: bool,
    pub origin_id: OriginId,
}

impl View for QueueData {
    type V = QueueDataView;

    open spec fn view(&self) -> QueueDataView {
        QueueDataView {
            track_id: self.track_id@,
            sent_to_player: self.sent_to_player,
            origin_id: self.origin_id,
        }
    }
}

/// One line of a listing of the queue.
#[derive(Debug)]
pub struct DataItemView<'a> {
    pub queue_id: QueueId,
    pub state: QueuedTrackState,
    pub track: &'a Track,
}

/// One line of a listing of the queue, with texts as sequences of characters.
pub struct ListedTrack {
    pub queue_id: QueueId,
    pub state: QueuedTrackState,
    pub track: TrackView,
}

impl<'a> View for DataItemView<'a> {
    type V = ListedTrack;

    open spec fn view(&self) -> ListedTrack {
        ListedTrack { queue_id: self.queue_id, state: self.state, track: self.track@ }
    }
}

/// The lines of a listing.
pub open spec fn listed(items: Seq<DataItemView>) -> Seq<ListedTrack> {
    items.map_values(|i: DataItemView| i@)
}

/// The queue. Its places are in the order of their identifiers, which is that in which they were
/// taken.
#[derive(Debug)]
pub struct Data {
    pub queue: BTreeMap<QueueId, QueueData>,
    pub tracks: TextMap<TrackData>,
    /// The next identifier, or zero when there is none left.
    queue_id_counter: usize,
}

/// The places of a queue.
pub open spec fn places(queue: Seq<(QueueId, QueueData)>) -> Seq<(QueueId, QueueDataView)> {
    queue.map_values(|p: (QueueId, QueueData)| (p.0, p.1@))
}

/// The state of the queue.
pub struct DataView {
    /// The places, each with its identifier, in their order.
    pub queue: Seq<(QueueId, QueueDataView)>,
    /// All tracks that have a place, and those that had one and are still known.
    pub tracks: Map<Seq<char>, TrackDataView>,
    /// The next identifier, or zero when there is none left.
    pub next_id: nat,
}

impl View for Data {
    type V = DataView;

    closed spec fn view(&self) -> DataView {
        DataView {
            queue: places(entries(self.queue@)),
            tracks: self.tracks@,
            next_id: self.queue_id_counter as nat,
        }
    }
}

/// The first place whose track has not been handed to the player.
pub open spec fn first_unsent(queue: Seq<(QueueId, QueueDataView)>) -> Option<
    (QueueId, QueueDataView),
>
    decreases queue.len(),
{
    if queue.len() == 0 {
        None
    } else if !queue[0].1.sent_to_player {
        Some(queue[0])
    } else {
        first_unsent(queue.skip(1))
    }
}

/// One step in handling an event. Where a step fails, those after it are not taken.
#[derive(Debug)]
pub enum Action {
    /// Tell everybody who listens of an event.
    Broadcast(EventEnvelope),
    /// Ask the player to play a track after what it has.
    Queue { origin_id: OriginId, id: QueueId, path: String },
    /// Give up a claim to a track.
    Unclaim { track_id: TrackId },
}

/// A step, with its texts as sequences of characters.
pub enum ActionView {
    Broadcast(EventEnvelopeView),
    Queue { origin_id: OriginId, id: QueueId, path: Seq<char> },
    Unclaim { track_id: Seq<char> },
}

impl View for Action {
    type V = ActionView;

    open spec fn view(&self) -> ActionView {
        match self {
            Action::Broadcast(envelope) => ActionView::Broadcast(envelope@),
            Action::Queue { origin_id, id, path } => ActionView::Queue {
                origin_id: *origin_id,
                id: *id,
                path: path@,
            },
            Action::Unclaim { track_id } => ActionView::Unclaim { track_id: track_id@ },
        }
    }
}

/// The steps of a list.
pub open spec fn steps(actions: Seq<Action>) -> Seq<ActionView> {
    actions.map_values(|a: Action| a@)
}

/// The step that tells of an event.
pub open spec fn tell(origin_id: OriginId, event: EventView) -> ActionView {
    ActionView::Broadcast(EventEnvelopeView { origin_id, event })
}

/// The places with another identifier.
pub open spec fn other_places(id: QueueId) -> spec_fn((QueueId, QueueDataView)) -> bool {
    |p: (QueueId, QueueDataView)| p.0 != id
}

/// How far a track has come that the player has or has not, and that is on disk or is not.
pub open spec fn place_state(sent_to_player: bool, downloaded: bool) -> QueuedTrackState {
    if sent_to_player {
        QueuedTrackState::SentToPlayer
    } else if downloaded {
        QueuedTrackState::Downloaded
    } else {
        QueuedTrackState::NotReady
    }
}

impl DataView {
    /// The places are in the order of their identifiers, all of which have been handed out, and
    /// every place has a track that is known.
    pub open spec fn wf(self) -> bool {
        &&& self.next_id <= usize::MAX
        &&& forall|i: int, j: int|
            0 <= i < j < self.queue.len() ==> (#[trigger] self.queue[i]).0 < (
            #[trigger] self.queue[j]).0
        &&& forall|i: int|
            0 <= i < self.queue.len() ==> QUEUE_ID_START <= (#[trigger] self.queue[i]).0 && (
            self.next_id == 0 || self.queue[i].0 < self.next_id)
        &&& forall|i: int|
            0 <= i < self.queue.len() ==> self.tracks.contains_key(
                (#[trigger] self.queue[i]).1.track_id,
            )
    }

    /// A queue that holds nothing.
    pub open spec fn fresh() -> DataView {
        DataView { queue: seq![], tracks: Map::empty(), next_id: QUEUE_ID_START as nat }
    }

    /// Whether so many identifiers are left.
    pub open spec fn room_for(self, count: nat) -> bool {
        count == 0 || (self.next_id > 0 && self.next_id + count - 1 <= usize::MAX)
    }

    /// A track put at the end of the queue.
    pub open spec fn queue_one(self, origin_id: OriginId, track: TrackView) -> DataView {
        DataView {
            queue: self.queue.push(
                (
                    self.next_id as usize,
                    QueueDataView { track_id: track.id, sent_to_player: false, origin_id },
                ),
            ),
            tracks: if self.tracks.contains_key(track.id) {
                self.tracks
            } else {
                self.tracks.insert(track.id, TrackDataView { meta: track, downloaded: false })
            },
            next_id: if self.next_id == usize::MAX {
                0
            } else {
                self.next_id + 1
            },
        }
    }

    /// Tracks put at the end of the queue, one after the other.
    pub open spec fn queue_all(self, origin_id: OriginId, tracks: Seq<TrackView>) -> DataView
        decreases tracks.len(),
    {
        if tracks.len() == 0 {
            self
        } else {
            self.queue_all(origin_id, tracks.drop_last()).queue_one(origin_id, tracks.last())
        }
    }

    /// The places that some tracks get.
    pub open spec fn places_for(self, tracks: Seq<TrackView>) -> Seq<QueuedTrackView> {
        Seq::new(
            tracks.len(),
            |i: int| QueuedTrackView { queue_id: (self.next_id + i) as usize, track: tracks[i] },
        )
    }

    /// Whether there is a place with an identifier.
    pub open spec fn has_place(self, id: QueueId) -> bool {
        exists|i: int| 0 <= i < self.queue.len() && (#[trigger] self.queue[i]).0 == id
    }

    /// The place with an identifier.
    pub open spec fn place(self, id: QueueId) -> QueueDataView {
        self.queue[choose|i: int| 0 <= i < self.queue.len() && (#[trigger] self.queue[i]).0 == id].1
    }

    /// The queue without a track and its places.
    pub open spec fn without_track(self, id: Seq<char>) -> DataView {
        DataView {
            queue: self.queue.filter(|p: (QueueId, QueueDataView)| p.1.track_id != id),
            tracks: self.tracks.remove(id),
            ..self
        }
    }

    /// The queue with a track that is on disk, or is not.
    pub open spec fn with_downloaded(self, id: Seq<char>, downloaded: bool) -> DataView {
        DataView {
            tracks: self.tracks.insert(id, TrackDataView { downloaded, ..self.tracks[id] }),
            ..self
        }
    }

    /// The queue with a place whose track has been handed to the player.
    pub open spec fn with_sent(self, id: QueueId) -> DataView {
        DataView {
            queue: self.queue.map_values(
                |p: (QueueId, QueueDataView)|
                    if p.0 == id {
                        (p.0, QueueDataView { sent_to_player: true, ..p.1 })
                    } else {
                        p
                    },
            ),
            ..self
        }
    }

    /// The queue without a place.
    pub open spec fn without_place(self, id: QueueId) -> DataView {
        DataView {
            queue: self.queue.filter(other_places(id)),
            ..self
        }
    }

    /// How far the track of a place has come.
    pub open spec fn state_of(self, place: QueueDataView) -> QueuedTrackState {
        place_state(place.sent_to_player, self.tracks[place.track_id].downloaded)
    }

    /// How far the first track has come.
    pub open spec fn first_track_state(self) -> Option<QueuedTrackState> {
        if self.queue.len() == 0 {
            None
        } else {
            Some(self.state_of(self.queue[0].1))
        }
    }

    /// The track that is played: the first one, once it has been handed to the player.
    pub open spec fn now_playing(self) -> Option<TrackView> {
        if self.queue.len() > 0 && self.queue[0].1.sent_to_player {
            Some(self.tracks[self.queue[0].1.track_id].meta)
        } else {
            None
        }
    }

    /// What to ask of the player: the first track that it does not have, if that is on disk.
    pub open spec fn queue_steps(self) -> Seq<ActionView> {
        match first_unsent(self.queue) {
            Some((id, place)) => if self.tracks[place.track_id].downloaded {
                seq![
                    ActionView::Queue {
                        origin_id: place.origin_id,
                        id,
                        path: self.tracks[place.track_id].meta.path,
                    },
                ]
            } else {
                seq![]
            },
            None => seq![],
        }
    }

    /// Whether an event of the player makes sense: it speaks of a place that is there.
    pub open spec fn accepts_player_event(self, e: PlayerEvent) -> bool {
        match e {
            PlayerEvent::TrackAdded(id) => self.has_place(id),
            PlayerEvent::TrackStarted(id) => self.has_place(id),
            _ => true,
        }
    }

    /// The queue after an event of the player. It stays as it is where the track manager should
    /// have been told to forget everything and could not be.
    pub open spec fn after_player_event(self, e: PlayerEvent, cleared: bool) -> DataView {
        match e {
            PlayerEvent::PlaybackStopped => if cleared {
                DataView::fresh()
            } else {
                self
            },
            PlayerEvent::TrackAdded(id) => self.with_sent(id),
            PlayerEvent::TrackFinished(id) => self.without_place(id),
            _ => self,
        }
    }

    /// What happens when a track is over: the next one is asked for, or it is told why not.
    pub open spec fn next_steps(self, origin_id: OriginId) -> Seq<ActionView> {
        match self.first_track_state() {
            Some(QueuedTrackState::NotReady) => seq![
                tell(origin_id, EventView::WaitingForDownload),
            ],
            Some(QueuedTrackState::Downloaded) => self.queue_steps(),
            Some(QueuedTrackState::SentToPlayer) => seq![],
            None => seq![tell(origin_id, EventView::QueueFinished)],
        }
    }

    /// What an event of the player has carried out.
    pub open spec fn player_event_steps(self, origin_id: OriginId, e: PlayerEvent) -> Seq<
        ActionView,
    > {
        match e {
            PlayerEvent::Muted => seq![tell(origin_id, EventView::Muted)],
            PlayerEvent::Unmuted => seq![tell(origin_id, EventView::Unmuted)],
            PlayerEvent::Volume(level) => seq![tell(origin_id, EventView::Volume { level })],
            PlayerEvent::PlaybackStarted => seq![tell(origin_id, EventView::PlaybackStarted)],
            PlayerEvent::PlaybackPaused => seq![tell(origin_id, EventView::PlaybackPaused)],
            PlayerEvent::PlaybackStopped => seq![tell(origin_id, EventView::PlaybackStopped)],
            PlayerEvent::TrackAdded(_) => seq![],
            PlayerEvent::TrackStarted(queue_id) => seq![
                tell(
                    origin_id,
                    EventView::NowPlaying {
                        queue_id,
                        track: self.tracks[self.place(queue_id).track_id].meta,
                    },
                ),
            ],
            PlayerEvent::TrackFinished(id) => if self.has_place(id) {
                seq![ActionView::Unclaim { track_id: self.place(id).track_id }] + self.without_place(
                    id,
                ).next_steps(origin_id)
            } else {
                self.without_place(id).next_steps(origin_id)
            },
        }
    }

    /// Whether an event of the track manager makes sense: it speaks of a track that is known.
    pub open spec fn accepts_manager_event(self, e: ManagerEventView) -> bool {
        match e {
            ManagerEventView::Acquired { id } => self.tracks.contains_key(id),
            ManagerEventView::Removed { id, e: _ } => self.tracks.contains_key(id),
        }
    }

    /// The queue after an event of the track manager.
    pub open spec fn after_manager_event(self, e: ManagerEventView) -> DataView {
        match e {
            ManagerEventView::Acquired { id } => self.with_downloaded(id, true),
            ManagerEventView::Removed { id, e: Some(_) } => self.without_track(id),
            ManagerEventView::Removed { id, e: None } => self.with_downloaded(id, false),
        }
    }

    /// What an event of the track manager has carried out.
    pub open spec fn manager_event_steps(self, e: ManagerEventView) -> Seq<ActionView> {
        match e {
            ManagerEventView::Acquired { id } => {
                let next = self.with_downloaded(id, true);
                if next.first_track_state() == Some(QueuedTrackState::Downloaded) {
                    next.queue_steps()
                } else {
                    seq![]
                }
            },
            ManagerEventView::Removed { id, e: Some((origin_id, err)) } => seq![
                tell(origin_id, EventView::DownloadError { track: self.tracks[id].meta, err }),
            ],
            ManagerEventView::Removed { id: _, e: None } => seq![],
        }
    }

    /// How the player and the queue stand, given how the player does.
    pub open spec fn status(self, status: PlayerStatus) -> StatusView {
        StatusView {
            is_paused: status.is_paused,
            is_muted: status.is_muted,
            volume_level: status.volume_level,
            length: (self.queue.len() - if status.length != 0 {
                1int
            } else {
                0int
            }) as usize,
            now_playing: self.now_playing(),
        }
    }

    /// A listing of the queue.
    pub open spec fn listing(self) -> Seq<ListedTrack> {
        self.queue.map_values(
            |p: (QueueId, QueueDataView)|
                ListedTrack {
                    queue_id: p.0,
                    state: self.state_of(p.1),
                    track: self.tracks[p.1.track_id].meta,
                },
        )
    }
}

/// A place that is found is the only one with its identifier.
proof fn place_is_unique(d: DataView, i: int)
    requires
        d.wf(),
        0 <= i < d.queue.len(),
    ensures
        d.has_place(d.queue[i].0),
        d.place(d.queue[i].0) == d.queue[i].1,
{
    let id = d.queue[i].0;
    let j = choose|j: int| 0 <= j < d.queue.len() && (#[trigger] d.queue[j]).0 == id;
    assert(0 <= j < d.queue.len() && d.queue[j].0 == id);
    assert(i == j);
}

/// Dropping places keeps the order of the others.
proof fn filter_keeps_wf(d: DataView, keep: spec_fn((QueueId, QueueDataView)) -> bool)
    requires
        d.wf(),
    ensures
        (DataView { queue: d.queue.filter(keep), ..d }).wf(),
        forall|i: int|
            0 <= i < d.queue.filter(keep).len() ==> keep(#[trigger] d.queue.filter(keep)[i])
                && d.queue.contains(d.queue.filter(keep)[i]),
    decreases d.queue.len(),
{
    reveal(Seq::filter);
    if d.queue.len() > 0 {
        let front = DataView { queue: d.queue.drop_last(), ..d };
        filter_keeps_wf(front, keep);
        let kept = front.queue.filter(keep);
        assert forall|i: int| 0 <= i < kept.len() implies d.queue.contains(#[trigger] kept[i])
            && kept[i].0 < d.queue.last().0 by {
            let j = choose|j: int| 0 <= j < front.queue.len() && front.queue[j] == kept[i];
            assert(d.queue[j] == kept[i]);
        }
        assert(d.queue.contains(d.queue.last()));
        let all = d.queue.filter(keep);
        if keep(d.queue.last()) {
            assert(all == kept.push(d.queue.last()));
        } else {
            assert(all == kept);
        }
        let rest = DataView { queue: kept, ..front };
        assert(rest.wf());
        assert forall|i: int, j: int| 0 <= i < j < all.len() implies (#[trigger] all[i]).0 < (
        #[trigger] all[j]).0 by {
            assert(all[i] == kept[i]);
            if j < kept.len() {
                assert(all[j] == kept[j]);
                assert(rest.queue[i].0 < rest.queue[j].0);
            }
        }
        assert forall|i: int| 0 <= i < all.len() implies d.queue.contains(#[trigger] all[i]) by {
            if i < kept.len() {
                assert(all[i] == kept[i]);
            }
        }
    }
}

impl Data {
    /// What can be relied on between requests.
    pub closed spec fn wf(&self) -> bool {
        self.tracks.wf() && self@.wf()
    }

    /// What is well-formed has a well-formed state.
    pub proof fn wf_of_view(&self)
        requires
            self.wf(),
        ensures
            self@.wf(),
    {
    }

    /// Whether a list holds the identifiers of all places, in their order.
    closed spec fn lists_ids(&self, ids: Seq<QueueId>) -> bool {
        &&& ids.len() == entries(self.queue@).len()
        &&& forall|i: int|
            0 <= i < ids.len() ==> (#[trigger] ids[i]) == entries(self.queue@)[i].0
    }

    /// The place with an identifier, which is at an index.
    fn place_of(&self, id: QueueId, Ghost(i): Ghost<int>) -> (r: &QueueData)
        requires
            0 <= i < entries(self.queue@).len(),
            id == entries(self.queue@)[i].0,
        ensures
            self@.queue[i] == (id, r@),
            entries(self.queue@)[i] == (id, *r),
    {
        proof {
            entries_of(&self.queue);
        }
        find(&self.queue, id).unwrap()
    }

    /// The number of places.
    pub fn len(&self) -> (r: usize)
        ensures
            r == self@.queue.len(),
    {
        size(&self.queue)
    }

    /// A listing of the queue.
    pub fn iter(&self) -> (r: Vec<DataItemView<'_>>)
        requires
            self.wf(),
        ensures
            listed(r@) == self@.listing(),
    {
        let ids = sorted_keys(&self.queue);
        let mut r: Vec<DataItemView<'_>> = Vec::new();
        let mut i: usize = 0;
        while i < ids.len()
            invariant
                self.wf(),
                i <= ids@.len(),
                self.lists_ids(ids@),
                r@.len() == i,
                listed(r@) == self@.listing().take(i as int),
            decreases ids.len() - i,
        {
            let ghost before = r@;
            let queue_id = ids[i];
            let queue_data = self.place_of(queue_id, Ghost(i as int));
            let track = self.tracks.get(queue_data.track_id.as_str()).unwrap();
            let state = self.get_track_state(queue_data, Some(track));
            r.push(DataItemView { queue_id, state, track: &track.meta });
            proof {
                assert(listed(r@) =~= listed(before).push(r@[i as int]@));
                assert(self@.listing().take(i + 1) =~= self@.listing().take(i as int).push(
                    self@.listing()[i as int],
                ));
            }
            i = i + 1;
        }
        assert(self@.listing().take(i as int) =~= self@.listing());
        r
    }

    /// How far the track of a place has come. The track is looked up unless it is given, and is not
    /// looked at where the player has it.
    pub fn get_track_state(&self, queue_data: &QueueData, track_data: Option<&TrackData>) -> (r:
        QueuedTrackState)
        requires
            self.wf(),
            queue_data@.sent_to_player || track_data is Some || self@.tracks.contains_key(
                queue_data@.track_id,
            ),
        ensures
            r == place_state(
                queue_data@.sent_to_player,
                match track_data {
                    Some(track) => track@.downloaded,
                    None => self@.tracks[queue_data@.track_id].downloaded,
                },
            ),
    {
        if queue_data.sent_to_player {
            return QueuedTrackState::SentToPlayer;
        }
        let downloaded = match track_data {
            Some(track) => track.downloaded,
            None => self.tracks.get(queue_data.track_id.as_str()).unwrap().downloaded,
        };
        if downloaded {
            QueuedTrackState::Downloaded
        } else {
            QueuedTrackState::NotReady
        }
    }

    /// How far the first track has come.
    pub fn first_track_state(&self) -> (r: Option<QueuedTrackState>)
        requires
            self.wf(),
        ensures
            r == self@.first_track_state(),
    {
        match first(&self.queue) {
            Some((id, place)) => {
                assert(self@.queue[0] == (id, place@));
                Some(self.get_track_state(place, None))
            },
            None => None,
        }
    }

    /// The track that is played.
    fn get_now_playing_track(&self) -> (r: Option<&Track>)
        requires
            self.wf(),
        ensures
            match r {
                Some(track) => self@.now_playing() == Some(track@),
                None => self@.now_playing() is None,
            },
    {
        match first(&self.queue) {
            Some((id, place)) => {
                assert(self@.queue[0] == (id, place@));
                if !place.sent_to_player {
                    return None;
                }
                let track = self.tracks.get(place.track_id.as_str()).unwrap();
                Some(&track.meta)
            },
            None => None,
        }
    }

    /// What can be told of an identifier.
    proof fn place_at(&self, id: QueueId) -> (i: int)
        requires
            self.wf(),
        ensures
            self@.has_place(id) <==> self.queue@.contains_key(id),
            self.queue@.contains_key(id) ==> {
                &&& 0 <= i < self@.queue.len()
                &&& entries(self.queue@)[i] == (id, self.queue@[id])
                &&& self@.queue[i] == (id, self.queue@[id]@)
                &&& self@.place(id) == self.queue@[id]@
            },
    {
        entries_of(&self.queue);
        let raw = entries(self.queue@);
        if self@.has_place(id) {
            let j = choose|j: int|
                0 <= j < self@.queue.len() && (#[trigger] self@.queue[j]).0 == id;
            assert(raw[j].0 == id);
        }
        if self.queue@.contains_key(id) {
            let i = choose|i: int| 0 <= i < raw.len() && (#[trigger] raw[i]).0 == id;
            assert(self@.queue[i] == (raw[i].0, raw[i].1@));
            place_is_unique(self@, i);
            i
        } else {
            0
        }
    }

    /// Whether there is a place with an identifier.
    pub fn has_place(&self, id: QueueId) -> (r: bool)
        requires
            self.wf(),
        ensures
            r == self@.has_place(id),
    {
        proof {
            self.place_at(id);
        }
        find(&self.queue, id).is_some()
    }

    /// Whether a track is known.
    pub fn knows_track(&self, id: &str) -> (r: bool)
        requires
            self.wf(),
        ensures
            r == self@.tracks.contains_key(id@),
    {
        self.tracks.contains_key(id)
    }

    /// Whether so many identifiers are left.
    pub fn room_for(&self, count: usize) -> (r: bool)
        ensures
            r == self@.room_for(count as nat),
    {
        count == 0 || (self.queue_id_counter > 0 && count - 1 <= usize::MAX
            - self.queue_id_counter)
    }

    /// The track of a place.
    fn get_queued_track(&self, id: QueueId) -> (r: &TrackData)
        requires
            self.wf(),
            self@.has_place(id),
        ensures
            r@ == self@.tracks[self@.place(id).track_id],
    {
        proof {
            self.place_at(id);
        }
        let place = find(&self.queue, id).unwrap();
        self.tracks.get(place.track_id.as_str()).unwrap()
    }

    /// Drops a track and all its places.
    fn remove_track(&mut self, id: &str) -> (r: Track)
        requires
            old(self).wf(),
            old(self)@.tracks.contains_key(id@),
        ensures
            final(self).wf(),
            final(self)@ == old(self)@.without_track(id@),
            r@ == old(self)@.tracks[id@].meta,
    {
        let ghost before = self@;
        let ghost keep = |p: (QueueId, QueueDataView)| p.1.track_id != id@;
        let ids = sorted_keys(&self.queue);
        let mut i: usize = 0;
        assert(before.queue.take(0).filter(keep) =~= Seq::empty()) by {
            reveal(Seq::filter);
        }
        assert(before.queue.skip(0) =~= before.queue);
        assert(self@.queue =~= before.queue.take(0).filter(keep) + before.queue.skip(0));
        while i < ids.len()
            invariant
                i <= ids@.len(),
                ids@.len() == before.queue.len(),
                forall|j: int| 0 <= j < ids@.len() ==> (#[trigger] ids@[j]) == before.queue[j].0,
                self@.queue == before.queue.take(i as int).filter(keep) + before.queue.skip(
                    i as int,
                ),
                keep == |p: (QueueId, QueueDataView)| p.1.track_id != id@,
                self.tracks@ == before.tracks,
                self.tracks.wf(),
                self.queue_id_counter == before.next_id,
            decreases ids.len() - i,
        {
            let ghost all = self@.queue;
            let ghost raw = entries(self.queue@);
            let ghost front = before.queue.take(i as int).filter(keep);
            let ghost at = front.len() as int;
            let queue_id = ids[i];
            proof {
                assert(all.len() == front.len() + before.queue.skip(i as int).len());
                assert(all.len() == places(raw).len());
                assert(all[at] == before.queue[i as int]);
                assert(all[at] == (raw[at].0, raw[at].1@));
                assert(before.queue.take(i + 1).drop_last() =~= before.queue.take(i as int));
                assert(before.queue.take(i + 1).last() == before.queue[i as int]);
            }
            let place = self.place_of(queue_id, Ghost(at));
            if same(place.track_id.as_str(), id) {
                proof {
                    entries_of(&self.queue);
                    entries_without(self.queue@, at);
                }
                take(&mut self.queue, queue_id);
                proof {
                    reveal(Seq::filter);
                    assert(self@.queue =~= all.remove(at));
                    assert(all.remove(at) =~= front + before.queue.skip(i + 1));
                }
            } else {
                proof {
                    reveal(Seq::filter);
                    assert(before.queue.take(i + 1).filter(keep) == front.push(
                        before.queue[i as int],
                    ));
                    assert(all =~= front.push(before.queue[i as int]) + before.queue.skip(i + 1));
                }
            }
            i = i + 1;
        }
        proof {
            assert(before.queue.take(i as int) =~= before.queue);
            assert(self@.queue =~= before.queue.filter(keep));
            filter_keeps_wf(before, keep);
        }
        let track = self.tracks.remove(id).unwrap();
        proof {
            assert forall|k: int| 0 <= k < self@.queue.len() implies self@.tracks.contains_key(
                (#[trigger] self@.queue[k]).1.track_id,
            ) by {
                assert(keep(before.queue.filter(keep)[k]));
                let rest = DataView { queue: before.queue.filter(keep), ..before };
                assert(rest.tracks.contains_key(rest.queue[k].1.track_id));
            }
            let rest = DataView { queue: before.queue.filter(keep), ..before };
            assert(rest.wf());
            assert(self@.queue == rest.queue);
            assert forall|a: int, b: int| 0 <= a < b < self@.queue.len() implies (
            #[trigger] self@.queue[a]).0 < (#[trigger] self@.queue[b]).0 by {
                assert(rest.queue[a].0 < rest.queue[b].0);
            }
            assert forall|a: int| 0 <= a < self@.queue.len() implies QUEUE_ID_START <= (
            #[trigger] self@.queue[a]).0 && (self@.next_id == 0 || self@.queue[a].0
                < self@.next_id) by {
                assert(QUEUE_ID_START <= rest.queue[a].0);
            }
        }
        track.meta
    }

    /// Notes that a track is on disk, or is not.
    fn set_downloaded(&mut self, id: &str, value: bool)
        requires
            old(self).wf(),
            old(self)@.tracks.contains_key(id@),
        ensures
            final(self).wf(),
            final(self)@ == old(self)@.with_downloaded(id@, value),
    {
        let ghost before = self@;
        let track = self.tracks.remove(id).unwrap();
        self.tracks.insert(id.to_owned(), TrackData { meta: track.meta, downloaded: value });
        proof {
            assert(self@.tracks =~= before.with_downloaded(id@, value).tracks);
        }
    }

    /// Notes that a track is on disk.
    fn ready_track(&mut self, id: &str)
        requires
            old(self).wf(),
            old(self)@.tracks.contains_key(id@),
        ensures
            final(self).wf(),
            final(self)@ == old(self)@.with_downloaded(id@, true),
    {
        self.set_downloaded(id, true);
    }

    /// Notes that a track is no longer on disk.
    fn unready_track(&mut self, id: &str)
        requires
            old(self).wf(),
            old(self)@.tracks.contains_key(id@),
        ensures
            final(self).wf(),
            final(self)@ == old(self)@.with_downloaded(id@, false),
    {
        self.set_downloaded(id, false);
    }

    /// Notes that the player has the track of a place.
    fn set_queued(&mut self, id: QueueId)
        requires
            old(self).wf(),
            old(self)@.has_place(id),
        ensures
            final(self).wf(),
            final(self)@ == old(self)@.with_sent(id),
    {
        let ghost before = self@;
        let ghost map = self.queue@;
        let ghost at = self.place_at(id);
        proof {
            entries_of(&self.queue);
        }
        let place = take(&mut self.queue, id).unwrap();
        let place = QueueData { sent_to_player: true, ..place };
        proof {
            entries_with_change(map, at, place);
            assert(map.remove(id).insert(id, place) =~= map.insert(id, place));
        }
        put(&mut self.queue, id, place);
        assert(self@.queue =~= before.with_sent(id).queue);
    }

    /// The next identifier.
    fn inc_queue_id(&mut self) -> (r: QueueId)
        requires
            old(self).queue_id_counter > 0,
        ensures
            r == old(self).queue_id_counter,
            final(self).queue_id_counter == if old(self).queue_id_counter == usize::MAX {
                0
            } else {
                old(self).queue_id_counter + 1
            },
            final(self).queue == old(self).queue,
            final(self).tracks == old(self).tracks,
    {
        let new_id = self.queue_id_counter;
        self.queue_id_counter = new_id.wrapping_add(1);
        new_id
    }

    /// Puts a track at the end of the queue.
    fn queue_one(&mut self, origin_id: OriginId, track: &Track) -> (r: QueuedTrack)
        requires
            old(self).wf(),
            old(self)@.next_id > 0,
        ensures
            final(self).wf(),
            final(self)@ == old(self)@.queue_one(origin_id, track@),
            r@ == (QueuedTrackView { queue_id: old(self)@.next_id as usize, track: track@ }),
    {
        let ghost before = self@;
        let queue_id = self.inc_queue_id();
        let place = QueueData { track_id: track.id.clone(), sent_to_player: false, origin_id };
        proof {
            let raw = entries(self.queue@);
            assert forall|i: int| 0 <= i < raw.len() implies (#[trigger] raw[i]).0 < queue_id by {
                assert(before.queue[i].0 < before.next_id);
            }
            entries_with_last(&self.queue, queue_id, place);
        }
        put(&mut self.queue, queue_id, place);
        if !self.tracks.contains_key(track.id.as_str()) {
            self.tracks.insert(
                track.id.clone(),
                TrackData { meta: track.clone(), downloaded: false },
            );
        }
        proof {
            assert(self@.queue =~= before.queue_one(origin_id, track@).queue);
            queue_one_keeps_wf(before, origin_id, track@);
        }
        QueuedTrack { queue_id, track: track.clone() }
    }

    /// Puts tracks at the end of the queue, as many of them as `claims` the track manager let itself
    /// be told. If that is not all of them, the track manager is gone.
    pub fn queue(&mut self, origin_id: OriginId, tracks: &Vec<Track>, claimed: usize) -> (r:
        ChannelResult<Vec<QueuedTrack>>)
        requires
            old(self).wf(),
            claimed <= tracks@.len(),
            old(self)@.room_for(claimed as nat),
        ensures
            final(self).wf(),
            final(self)@ == old(self)@.queue_all(
                origin_id,
                track_views(tracks@).take(claimed as int),
            ),
            match r {
                Ok(queued) => claimed == tracks@.len() && queued_tracks(queued@)
                    == old(self)@.places_for(track_views(tracks@)),
                Err(_) => claimed < tracks@.len(),
            },
    {
        let ghost before = self@;
        let ghost views = track_views(tracks@);
        let mut result: Vec<QueuedTrack> = Vec::new();
        let mut i: usize = 0;
        assert(queued_tracks(result@) =~= before.places_for(views).take(0));
        while i < claimed
            invariant
                i <= claimed <= tracks@.len(),
                views == track_views(tracks@),
                before.wf(),
                before.room_for(claimed as nat),
                self.wf(),
                self@ == before.queue_all(origin_id, views.take(i as int)),
                result@.len() == i,
                queued_tracks(result@) == before.places_for(views).take(i as int),
            decreases claimed - i,
        {
            let ghost so_far = result@;
            proof {
                queued_tracks_go_last(before, origin_id, views.take(i as int));
                assert(views.take(i + 1).drop_last() =~= views.take(i as int));
                assert(views.take(i + 1).last() == tracks@[i as int]@);
            }
            let queued = self.queue_one(origin_id, &tracks[i]);
            result.push(queued);
            proof {
                assert(queued_tracks(result@) =~= queued_tracks(so_far).push(queued@));
                assert(before.places_for(views).take(i + 1) =~= before.places_for(views).take(
                    i as int,
                ).push(before.places_for(views)[i as int]));
            }
            i = i + 1;
        }
        if claimed < tracks.len() {
            return Err(ChannelError);
        }
        assert(before.places_for(views).take(i as int) =~= before.places_for(views));
        Ok(result)
    }

    /// What to ask of the player.
    fn queue_player(&self) -> (r: Option<Action>)
        requires
            self.wf(),
        ensures
            match r {
                Some(action) => self@.queue_steps() == seq![action@],
                None => self@.queue_steps() == Seq::<ActionView>::empty(),
            },
    {
        let ids = sorted_keys(&self.queue);
        let mut i: usize = 0;
        assert(self@.queue.skip(0) =~= self@.queue);
        while i < ids.len()
            invariant
                self.wf(),
                i <= ids@.len(),
                self.lists_ids(ids@),
                first_unsent(self@.queue) == first_unsent(self@.queue.skip(i as int)),
            decreases ids.len() - i,
        {
            let place = self.place_of(ids[i], Ghost(i as int));
            assert(self@.queue.skip(i as int)[0] == self@.queue[i as int]);
            if !place.sent_to_player {
                let track = self.tracks.get(place.track_id.as_str()).unwrap();
                if !track.downloaded {
                    return None;
                }
                return Some(
                    Action::Queue {
                        origin_id: place.origin_id,
                        id: ids[i],
                        path: track.meta.path.clone(),
                    },
                );
            }
            assert(self@.queue.skip(i as int).skip(1) =~= self@.queue.skip(i + 1));
            i = i + 1;
        }
        None
    }

    /// Drops a place, and hands out its track, which has one claim less to it.
    fn remove_queue_player(&mut self, id: QueueId) -> (r: Option<TrackId>)
        requires
            old(self).wf(),
        ensures
            final(self).wf(),
            final(self)@ == old(self)@.without_place(id),
            match r {
                Some(track_id) => old(self)@.has_place(id) && track_id@ == old(self)@.place(
                    id,
                ).track_id,
                None => !old(self)@.has_place(id),
            },
    {
        let ghost before = self@;
        let ghost keep = other_places(id);
        proof {
            filter_keeps_wf(before, keep);
        }
        let ghost map = self.queue@;
        let ghost at = self.place_at(id);
        proof {
            entries_of(&self.queue);
        }
        match take(&mut self.queue, id) {
            Some(place) => {
                proof {
                    filter_drops_one(before, at, id);
                    entries_without(map, at);
                    assert(self@.queue =~= before.queue.remove(at));
                }
                Some(place.track_id)
            },
            None => {
                proof {
                    assert forall|j: int| 0 <= j < before.queue.len() implies keep(
                        #[trigger] before.queue[j],
                    ) by {}
                    filter_keeps_all(before.queue, keep);
                    assert(map.remove(id) =~= map);
                }
                None
            },
        }
    }

    /// Forgets everything, unless the track manager could not be told to do the same.
    pub fn stop(&mut self, cleared: ChannelResult<()>) -> (r: ChannelResult<()>)
        requires
            old(self).wf(),
        ensures
            final(self).wf(),
            r is Ok <==> cleared is Ok,
            final(self)@ == if cleared is Ok {
                DataView::fresh()
            } else {
                old(self)@
            },
    {
        match cleared {
            Ok(()) => {
                self.queue.clear();
                self.tracks.clear();
                self.reset_queue_counter();
                proof {
                    entries_of_nothing::<QueueData>();
                }
                assert(self@.queue =~= Seq::empty());
                Ok(())
            },
            Err(e) => Err(e),
        }
    }

    /// Starts over with the identifiers.
    fn reset_queue_counter(&mut self)
        ensures
            final(self).queue_id_counter == QUEUE_ID_START,
            final(self).queue == old(self).queue,
            final(self).tracks == old(self).tracks,
    {
        self.queue_id_counter = QUEUE_ID_START;
    }
}

impl Default for Data {
    fn default() -> (r: Self)
        ensures
            r.wf(),
            r@ == DataView::fresh(),
    {
        let r = Data {
            queue: BTreeMap::new(),
            tracks: TextMap::new(),
            queue_id_counter: QUEUE_ID_START,
        };
        proof {
            entries_of_nothing::<QueueData>();
        }
        assert(r@.queue =~= Seq::empty());
        r
    }
}

/// The number after another, starting over at zero after the last one.
pub open spec fn wrapping_next(n: usize) -> usize {
    if n == usize::MAX {
        0
    } else {
        (n + 1) as usize
    }
}

/// The state of the controller.
#[derive(Debug)]
pub struct State {
    /// The identifier of the next request.
    pub origin_id_counter: OriginId,
    pub auto_play: bool,
    pub data: Data,
}

/// A request that is to be sent to the player.
#[derive(Debug)]
pub struct PlayerCall {
    pub origin_id: OriginId,
    pub request: PlayerRequest,
    /// Whether there is anything in the queue.
    pub queue_waits: bool,
}

/// What remains to be done once tracks have their places.
#[derive(Debug)]
pub struct Queued {
    /// Whether the player is to be told to play, before anybody is told of the tracks.
    pub play: bool,
    /// What everybody is told.
    pub envelope: EventEnvelope,
}

impl PlayerCall {
    /// What a request amounts to, given its identifier and what the player answered: the
    /// identifier, or the error.
    pub fn answered(origin_id: OriginId, r: PlayerResult<PlayerResponse>) -> (result: Result<
        OriginId,
    >)
        ensures
            match r {
                Ok(_) => result == Ok::<OriginId, Error>(origin_id),
                Err(e) => result == Err::<OriginId, Error>(Error::Player(e)),
            },
    {
        match r {
            Ok(_) => Ok(origin_id),
            Err(e) => Err(Error::Player(e)),
        }
    }
}

impl State {
    /// What can be relied on between requests.
    pub open spec fn wf(&self) -> bool {
        self.data.wf()
    }

    /// The state once an identifier has been handed out.
    pub open spec fn numbered(self) -> State {
        State { origin_id_counter: wrapping_next(self.origin_id_counter), ..self }
    }

    /// A request to the player that is made now.
    pub open spec fn call(self, origin_id: OriginId, request: PlayerRequest) -> PlayerCall {
        PlayerCall { origin_id, request, queue_waits: self.data@.queue.len() > 0 }
    }

    /// A state with an empty queue.
    pub fn new(auto_play: bool) -> (r: State)
        ensures
            r.wf(),
            r.origin_id_counter == 0,
            r.auto_play == auto_play,
            r.data@ == DataView::fresh(),
    {
        State { origin_id_counter: 0, auto_play, data: Data::default() }
    }

    /// Hands out an identifier.
    pub fn next_origin_id(&mut self) -> (r: OriginId)
        ensures
            r == old(self).origin_id_counter,
            *final(self) == old(self).numbered(),
    {
        let origin_id = self.origin_id_counter;
        self.origin_id_counter = origin_id.wrapping_add(1);
        origin_id
    }

    /// Puts tracks at the end of the queue, as many of them as `claims` the track manager let itself
    /// be told.
    pub fn queue(&mut self, origin_id: OriginId, tracks: &Vec<Track>, claimed: usize) -> (r: Result<
        Queued,
    >)
        requires
            old(self).wf(),
            claimed <= tracks@.len(),
            old(self).data@.room_for(claimed as nat),
        ensures
            final(self).wf(),
            final(self).origin_id_counter == old(self).origin_id_counter,
            final(self).auto_play == old(self).auto_play,
            final(self).data@ == old(self).data@.queue_all(
                origin_id,
                track_views(tracks@).take(claimed as int),
            ),
            match r {
                Ok(queued) => {
                    &&& claimed == tracks@.len()
                    &&& queued.play == (old(self).auto_play && old(self).data@.queue.len() == 0)
                    &&& queued.envelope.origin_id == origin_id
                    &&& queued.envelope.event@ == (EventView::TracksQueued {
                        tracks: old(self).data@.places_for(track_views(tracks@)),
                    })
                },
                Err(e) => claimed < tracks@.len() && e@ == ErrorView::Channel(ChannelError),
            },
    {
        let was_empty = self.data.len() == 0;
        match self.data.queue(origin_id, tracks, claimed) {
            Ok(tracks) => Ok(
                Queued {
                    play: self.auto_play && was_empty,
                    envelope: EventEnvelope { origin_id, event: Event::TracksQueued { tracks } },
                },
            ),
            Err(e) => Err(Error::Channel(e)),
        }
    }

    /// Whether an event of the player makes sense.
    pub fn can_handle_player_event(&self, e: PlayerEvent) -> (r: bool)
        requires
            self.wf(),
        ensures
            r == self.data@.accepts_player_event(e),
    {
        match e {
            PlayerEvent::TrackAdded(id) => self.data.has_place(id),
            PlayerEvent::TrackStarted(id) => self.data.has_place(id),
            _ => true,
        }
    }

    /// Handles an event of the player. `cleared` is what came of telling the track manager what
    /// `before_player_event` hands out. It is not looked at where that is nothing.
    pub fn handle_player_event(
        &mut self,
        origin_id: OriginId,
        e: PlayerEvent,
        cleared: ChannelResult<()>,
    ) -> (r: ChannelResult<Vec<Action>>)
        requires
            old(self).wf(),
            old(self).data@.accepts_player_event(e),
        ensures
            final(self).wf(),
            final(self).origin_id_counter == old(self).origin_id_counter,
            final(self).auto_play == old(self).auto_play,
            final(self).data@ == old(self).data@.after_player_event(e, cleared is Ok),
            match r {
                Ok(actions) => (e is PlaybackStopped ==> cleared is Ok) && steps(actions@)
                    == old(self).data@.player_event_steps(origin_id, e),
                Err(_) => e is PlaybackStopped && cleared is Err,
            },
    {
        let ghost before = self.data@;
        let mut r: Vec<Action> = Vec::new();
        match e {
            PlayerEvent::Muted => r.push(broadcast(origin_id, Event::Muted)),
            PlayerEvent::Unmuted => r.push(broadcast(origin_id, Event::Unmuted)),
            PlayerEvent::Volume(level) => r.push(broadcast(origin_id, Event::Volume { level })),
            PlayerEvent::PlaybackStarted => r.push(broadcast(origin_id, Event::PlaybackStarted)),
            PlayerEvent::PlaybackPaused => r.push(broadcast(origin_id, Event::PlaybackPaused)),
            PlayerEvent::PlaybackStopped => match self.data.stop(cleared) {
                Ok(()) => r.push(broadcast(origin_id, Event::PlaybackStopped)),
                Err(e) => {
                    return Err(e);
                },
            },
            PlayerEvent::TrackAdded(queue_id) => {
                self.data.set_queued(queue_id);
            },
            PlayerEvent::TrackStarted(queue_id) => {
                let track = self.data.get_queued_track(queue_id).meta.clone();
                r.push(broadcast(origin_id, Event::NowPlaying { queue_id, track }));
            },
            PlayerEvent::TrackFinished(queue_id) => {
                if let Some(track_id) = self.data.remove_queue_player(queue_id) {
                    r.push(Action::Unclaim { track_id });
                }
                match self.data.first_track_state() {
                    Some(QueuedTrackState::NotReady) => {
                        r.push(broadcast(origin_id, Event::WaitingForDownload));
                    },
                    Some(QueuedTrackState::Downloaded) => {
                        if let Some(action) = self.data.queue_player() {
                            r.push(action);
                        }
                    },
                    Some(QueuedTrackState::SentToPlayer) => {},
                    None => {
                        r.push(broadcast(origin_id, Event::QueueFinished));
                    },
                }
            },
        }
        assert(steps(r@) =~= before.player_event_steps(origin_id, e));
        Ok(r)
    }

    /// Whether an event of the track manager makes sense.
    pub fn can_handle_track_manager_event(&self, e: &ManagerEvent) -> (r: bool)
        requires
            self.wf(),
        ensures
            r == self.data@.accepts_manager_event(e@),
    {
        match e {
            ManagerEvent::Acquired { id } => self.data.knows_track(id.as_str()),
            ManagerEvent::Removed { id, e: _ } => self.data.knows_track(id.as_str()),
        }
    }

    /// Handles an event of the track manager.
    pub fn handle_track_manager_event(&mut self, e: ManagerEvent) -> (r: Vec<Action>)
        requires
            old(self).wf(),
            old(self).data@.accepts_manager_event(e@),
        ensures
            final(self).wf(),
            final(self).origin_id_counter == old(self).origin_id_counter,
            final(self).auto_play == old(self).auto_play,
            final(self).data@ == old(self).data@.after_manager_event(e@),
            steps(r@) == old(self).data@.manager_event_steps(e@),
    {
        let ghost before = self.data@;
        let ghost event = e@;
        let mut r: Vec<Action> = Vec::new();
        match e {
            ManagerEvent::Acquired { id } => {
                self.data.ready_track(id.as_str());
                if let Some(QueuedTrackState::Downloaded) = self.data.first_track_state() {
                    if let Some(action) = self.data.queue_player() {
                        r.push(action);
                    }
                }
            },
            ManagerEvent::Removed { id, e } => match e {
                Some((origin_id, err)) => {
                    let track = self.data.remove_track(id.as_str());
                    r.push(broadcast(origin_id, Event::DownloadError { track, err }));
                },
                None => {
                    self.data.unready_track(id.as_str());
                },
            },
        }
        assert(steps(r@) =~= before.manager_event_steps(event));
        r
    }
}

/// Whether a request is the claim of a track.
pub open spec fn is_claim_of(req: ManagerRequest, origin_id: OriginId, track: TrackView) -> bool {
    req matches ManagerRequest::Claim { origin_id: o, id } && o == origin_id && id@ == track.id
}

/// What the track manager is told when tracks are queued, one after the other until it cannot be
/// told any more: a claim for each track, in the order of the tracks, repeats not left out.
pub fn claims(origin_id: OriginId, tracks: &Vec<Track>) -> (r: Vec<ManagerRequest>)
    ensures
        r@.len() == tracks@.len(),
        forall|i: int|
            0 <= i < r@.len() ==> is_claim_of(#[trigger] r@[i], origin_id, tracks@[i]@),
{
    let mut r: Vec<ManagerRequest> = Vec::new();
    let mut i: usize = 0;
    while i < tracks.len()
        invariant
            i <= tracks@.len(),
            r@.len() == i,
            forall|j: int|
                0 <= j < r@.len() ==> is_claim_of(#[trigger] r@[j], origin_id, tracks@[j]@),
        decreases tracks.len() - i,
    {
        r.push(ManagerRequest::Claim { origin_id, id: tracks[i].id.clone() });
        i = i + 1;
    }
    r
}

/// What the track manager is told before an event of the player is handled: to forget everything if
/// the player was stopped, and nothing otherwise.
pub fn before_player_event(e: PlayerEvent) -> (r: Option<ManagerRequest>)
    ensures
        r == manager_request_before(e),
{
    match e {
        PlayerEvent::PlaybackStopped => Some(ManagerRequest::Clear),
        _ => None,
    }
}

/// What the track manager is told before an event of the player is handled.
pub open spec fn manager_request_before(e: PlayerEvent) -> Option<ManagerRequest> {
    match e {
        PlayerEvent::PlaybackStopped => Some(ManagerRequest::Clear),
        _ => None,
    }
}

/// The step that tells of an event.
fn broadcast(origin_id: OriginId, event: Event) -> (r: Action)
    ensures
        r@ == tell(origin_id, event@),
{
    Action::Broadcast(EventEnvelope { origin_id, event })
}

/// The controller.
#[derive(Debug)]
pub struct Controller {
    pub state: State,
}

/// The way to the controller, for one request.
pub struct Sender<'a> {
    pub state: &'a mut State,
}

impl Controller {
    /// A controller with an empty queue.
    pub fn new(settings: Settings) -> (r: Controller)
        ensures
            r.state.wf(),
            r.state.origin_id_counter == 0,
            r.state.auto_play == settings.auto_play,
            r.state.data@ == DataView::fresh(),
    {
        Controller { state: State::new(settings.auto_play) }
    }

    /// A way to the controller.
    pub fn subscribe(&mut self) -> (r: Sender<'_>)
        ensures
            *r.state == old(self).state,
            final(self).state == *final(r.state),
    {
        Sender { state: &mut self.state }
    }
}

impl<'a> Sender<'a> {
    /// Numbers a request to the player.
    pub fn call(self, request: PlayerRequest) -> (r: PlayerCall)
        ensures
            r == old(self.state).call(old(self.state).origin_id_counter, request),
            *final(self.state) == old(self.state).numbered(),
    {
        let queue_waits = self.state.data.len() > 0;
        let origin_id = self.state.next_origin_id();
        PlayerCall { origin_id, request, queue_waits }
    }

    /// The request that finds out what is behind some addresses. Every address must be one that
    /// tracks are taken from.
    pub fn resolve(self, urls: Vec<Url>) -> (r: Result<YoutubeRequest>)
        ensures
            *final(self.state) == *old(self.state),
            match r {
                Ok(request) => request == YoutubeRequest::Resolve(urls) && forall|i: int|
                    0 <= i < urls@.len() ==> known_address((#[trigger] urls@[i])@),
                Err(e) => exists|k: int|
                    0 <= k < urls@.len() && !known_address((#[trigger] urls@[k])@) && e@
                        == ErrorView::Youtube(YoutubeErrorView::InvalidUrl(urls@[k]@)) && forall|
                        j: int,
                    |
                        0 <= j < k ==> known_address((#[trigger] urls@[j])@),
            },
    {
        match Youtube.resolve(urls) {
            Ok(request) => Ok(request),
            Err(e) => Err(Error::from_resolve(e)),
        }
    }

    /// What was found behind some addresses.
    pub fn resolved(self, r: YoutubeResult<Vec<Track>>) -> (result: Result<Vec<Track>>)
        ensures
            *final(self.state) == *old(self.state),
            match r {
                Ok(tracks) => result == Ok::<Vec<Track>, Error>(tracks),
                Err(e) => result matches Err(f) && f@ == resolve_error(e@),
            },
    {
        match r {
            Ok(tracks) => Ok(tracks),
            Err(e) => Err(Error::from_resolve(e)),
        }
    }

    /// Puts tracks at the end of the queue, as many of them as `claims` the track manager let itself
    /// be told under an identifier that was handed out before.
    pub fn queue(self, origin_id: OriginId, tracks: &Vec<Track>, claimed: usize) -> (r: Result<
        Queued,
    >)
        requires
            self.state.wf(),
            claimed <= tracks@.len(),
            self.state.data@.room_for(claimed as nat),
        ensures
            final(self.state).wf(),
            final(self.state).origin_id_counter == old(self.state).origin_id_counter,
            final(self.state).auto_play == old(self.state).auto_play,
            final(self.state).data@ == old(self.state).data@.queue_all(
                origin_id,
                track_views(tracks@).take(claimed as int),
            ),
            match r {
                Ok(queued) => {
                    &&& claimed == tracks@.len()
                    &&& queued.play == (old(self.state).auto_play && old(
                        self.state,
                    ).data@.queue.len() == 0)
                    &&& queued.envelope.origin_id == origin_id
                    &&& queued.envelope.event@ == (EventView::TracksQueued {
                        tracks: old(self.state).data@.places_for(track_views(tracks@)),
                    })
                },
                Err(e) => claimed < tracks@.len() && e@ == ErrorView::Channel(ChannelError),
            },
    {
        self.state.queue(origin_id, tracks, claimed)
    }

    /// Starts the player.
    pub fn play(self) -> (r: PlayerCall)
        ensures
            r == old(self.state).call(
                old(self.state).origin_id_counter,
                PlayerRequest::Play,
            ),
            *final(self.state) == old(self.state).numbered(),
    {
        self.call(PlayerRequest::Play)
    }

    /// Pauses the player.
    pub fn pause(self) -> (r: PlayerCall)
        ensures
            r == old(self.state).call(
                old(self.state).origin_id_counter,
                PlayerRequest::Pause,
            ),
            *final(self.state) == old(self.state).numbered(),
    {
        self.call(PlayerRequest::Pause)
    }

    /// Starts or pauses the player, whichever is not the case.
    pub fn play_toggle(self) -> (r: PlayerCall)
        ensures
            r == old(self.state).call(
                old(self.state).origin_id_counter,
                PlayerRequest::PlayToggle,
            ),
            *final(self.state) == old(self.state).numbered(),
    {
        self.call(PlayerRequest::PlayToggle)
    }

    /// Stops the player.
    pub fn stop(self) -> (r: PlayerCall)
        ensures
            r == old(self.state).call(
                old(self.state).origin_id_counter,
                PlayerRequest::Stop,
            ),
            *final(self.state) == old(self.state).numbered(),
    {
        self.call(PlayerRequest::Stop)
    }

    /// Skips the track that is played.
    pub fn skip(self) -> (r: PlayerCall)
        ensures
            r == old(self.state).call(
                old(self.state).origin_id_counter,
                PlayerRequest::Skip,
            ),
            *final(self.state) == old(self.state).numbered(),
    {
        self.call(PlayerRequest::Skip)
    }

    /// Mutes the player.
    pub fn mute(self) -> (r: PlayerCall)
        ensures
            r == old(self.state).call(
                old(self.state).origin_id_counter,
                PlayerRequest::Mute,
            ),
            *final(self.state) == old(self.state).numbered(),
    {
        self.call(PlayerRequest::Mute)
    }

    /// Unmutes the player.
    pub fn unmute(self) -> (r: PlayerCall)
        ensures
            r == old(self.state).call(
                old(self.state).origin_id_counter,
                PlayerRequest::Unmute,
            ),
            *final(self.state) == old(self.state).numbered(),
    {
        self.call(PlayerRequest::Unmute)
    }

    /// Mutes or unmutes the player, whichever is not the case.
    pub fn mute_toggle(self) -> (r: PlayerCall)
        ensures
            r == old(self.state).call(
                old(self.state).origin_id_counter,
                PlayerRequest::MuteToggle,
            ),
            *final(self.state) == old(self.state).numbered(),
    {
        self.call(PlayerRequest::MuteToggle)
    }

    /// Sets the volume.
    pub fn set_volume(self, level: u8) -> (r: PlayerCall)
        ensures
            r == old(self.state).call(
                old(self.state).origin_id_counter,
                PlayerRequest::SetVolume { level },
            ),
            *final(self.state) == old(self.state).numbered(),
    {
        self.call(PlayerRequest::SetVolume { level })
    }

    /// Makes the player louder.
    pub fn increase_volume(self) -> (r: PlayerCall)
        ensures
            r == old(self.state).call(
                old(self.state).origin_id_counter,
                PlayerRequest::IncreaseVolume,
            ),
            *final(self.state) == old(self.state).numbered(),
    {
        self.call(PlayerRequest::IncreaseVolume)
    }

    /// Makes the player quieter.
    pub fn decrease_volume(self) -> (r: PlayerCall)
        ensures
            r == old(self.state).call(
                old(self.state).origin_id_counter,
                PlayerRequest::DecreaseVolume,
            ),
            *final(self.state) == old(self.state).numbered(),
    {
        self.call(PlayerRequest::DecreaseVolume)
    }

    /// The request that asks the player how it stands. It needs no identifier of its own.
    pub fn ask_status(self) -> (r: PlayerCall)
        ensures
            r == old(self.state).call(usize::MAX, PlayerRequest::Status),
            *final(self.state) == *old(self.state),
    {
        PlayerCall {
            origin_id: usize::MAX,
            request: PlayerRequest::Status,
            queue_waits: self.state.data.len() > 0,
        }
    }

    /// How the player and the queue stand, given how the player does. While the player has
    /// something to play, the queue holds it.
    pub fn status(self, status: PlayerStatus) -> (r: Status)
        requires
            self.state.wf(),
            status.length != 0 ==> self.state.data@.queue.len() > 0,
        ensures
            *final(self.state) == *old(self.state),
            r@ == old(self.state).data@.status(status),
    {
        let playing: usize = if status.length != 0 {
            1
        } else {
            0
        };
        let now_playing = match self.state.data.get_now_playing_track() {
            Some(track) => Some(track.clone()),
            None => None,
        };
        Status {
            is_paused: status.is_paused,
            is_muted: status.is_muted,
            volume_level: status.volume_level,
            length: self.state.data.len() - playing,
            now_playing,
        }
    }

    /// The queue, for looking at.
    pub fn view(self) -> (r: &'a Data)
        ensures
            *final(self.state) == *old(self.state),
            *r == old(self.state).data,
    {
        &self.state.data
    }
}

/// Nothing is dropped where everything is kept.
proof fn filter_keeps_all(
    queue: Seq<(QueueId, QueueDataView)>,
    keep: spec_fn((QueueId, QueueDataView)) -> bool,
)
    requires
        forall|j: int| 0 <= j < queue.len() ==> keep(#[trigger] queue[j]),
    ensures
        queue.filter(keep) == queue,
    decreases queue.len(),
{
    reveal(Seq::filter);
    if queue.len() > 0 {
        let front = queue.drop_last();
        assert forall|j: int| 0 <= j < front.len() implies keep(#[trigger] front[j]) by {
            assert(front[j] == queue[j]);
        }
        filter_keeps_all(front, keep);
        assert(keep(queue[queue.len() - 1]));
        assert(front.push(queue.last()) =~= queue);
    }
}

/// One place is dropped where one identifier is.
proof fn filter_drops_one(d: DataView, i: int, id: QueueId)
    requires
        d.wf(),
        0 <= i < d.queue.len(),
        d.queue[i].0 == id,
    ensures
        d.queue.filter(other_places(id)) == d.queue.remove(i),
{
    let keep = other_places(id);
    let front = d.queue.take(i);
    let back = d.queue.skip(i + 1);
    assert(d.queue =~= front.push(d.queue[i]) + back);
    filter_keeps_all(front, keep);
    filter_keeps_all(back, keep);
    Seq::filter_distributes_over_add(front.push(d.queue[i]), back, keep);
    assert(front.push(d.queue[i]).filter(keep) == front) by {
        reveal(Seq::filter);
        assert(front.push(d.queue[i]).drop_last() =~= front);
    }
    assert(d.queue.remove(i) =~= front + back);
}

/// Another place at the end keeps the order.
proof fn queue_one_keeps_wf(d: DataView, origin_id: OriginId, track: TrackView)
    requires
        d.wf(),
        d.next_id > 0,
    ensures
        d.queue_one(origin_id, track).wf(),
{
    let next = d.queue_one(origin_id, track);
    assert forall|i: int| 0 <= i < next.queue.len() implies QUEUE_ID_START <= (
    #[trigger] next.queue[i]).0 && (next.next_id == 0 || next.queue[i].0 < next.next_id)
        && next.tracks.contains_key(next.queue[i].1.track_id) by {
        if i < d.queue.len() {
            assert(next.queue[i] == d.queue[i]);
        }
    }
    assert forall|i: int, j: int| 0 <= i < j < next.queue.len() implies (
    #[trigger] next.queue[i]).0 < (#[trigger] next.queue[j]).0 by {
        assert(next.queue[i] == d.queue[i]);
        if j < d.queue.len() {
            assert(next.queue[j] == d.queue[j]);
        }
    }
}

/// Whether no track of a list before this one has the same identifier.
pub open spec fn first_with_id(tracks: Seq<TrackView>, i: int) -> bool {
    forall|j: int| 0 <= j < i ==> (#[trigger] tracks[j]).id != tracks[i].id
}

/// Tracks that are queued come after all that were there, in their order and under identifiers that
/// were not in use. No other place changes, and no track that is known already does. A track that
/// was not known is, as it first comes in the list, and is not on disk; no other track is.
pub proof fn queued_tracks_go_last(d: DataView, origin_id: OriginId, tracks: Seq<TrackView>)
    requires
        d.wf(),
        d.room_for(tracks.len()),
    ensures
        ({
            let after = d.queue_all(origin_id, tracks);
            &&& after.wf()
            &&& after.next_id == if tracks.len() == 0 {
                d.next_id
            } else if d.next_id + tracks.len() - 1 == usize::MAX {
                0
            } else {
                d.next_id + tracks.len()
            }
            &&& after.queue == d.queue + Seq::new(
                tracks.len(),
                |i: int|
                    (
                        (d.next_id + i) as usize,
                        QueueDataView { track_id: tracks[i].id, sent_to_player: false, origin_id },
                    ),
            )
            &&& forall|id: Seq<char>|
                d.tracks.contains_key(id) ==> #[trigger] after.tracks.contains_key(id)
                    && after.tracks[id] == d.tracks[id]
            &&& forall|i: int|
                0 <= i < tracks.len() ==> after.tracks.contains_key((#[trigger] tracks[i]).id)
            &&& forall|i: int|
                0 <= i < tracks.len() && !d.tracks.contains_key((#[trigger] tracks[i]).id)
                    && first_with_id(tracks, i) ==> after.tracks[tracks[i].id] == (TrackDataView {
                    meta: tracks[i],
                    downloaded: false,
                })
            &&& forall|id: Seq<char>| #[trigger]
                after.tracks.contains_key(id) ==> d.tracks.contains_key(id) || exists|i: int|
                    0 <= i < tracks.len() && (#[trigger] tracks[i]).id == id
        }),
    decreases tracks.len(),
{
    let after = d.queue_all(origin_id, tracks);
    let new = Seq::new(
        tracks.len(),
        |i: int|
            (
                (d.next_id + i) as usize,
                QueueDataView { track_id: tracks[i].id, sent_to_player: false, origin_id },
            ),
    );
    if tracks.len() == 0 {
        assert(after.queue =~= d.queue + new);
    } else {
        let front = tracks.drop_last();
        let middle = d.queue_all(origin_id, front);
        queued_tracks_go_last(d, origin_id, front);
        queue_one_keeps_wf(middle, origin_id, tracks.last());
        assert(after.queue =~= d.queue + new);
        assert forall|i: int| 0 <= i < tracks.len() implies after.tracks.contains_key(
            (#[trigger] tracks[i]).id,
        ) by {
            if i < front.len() {
                assert(front[i] == tracks[i]);
                assert(middle.tracks.contains_key(front[i].id));
            }
        }
        assert forall|i: int|
            0 <= i < tracks.len() && !d.tracks.contains_key((#[trigger] tracks[i]).id)
                && first_with_id(tracks, i) implies after.tracks[tracks[i].id] == (TrackDataView {
            meta: tracks[i],
            downloaded: false,
        }) by {
            if i < front.len() {
                assert(front[i] == tracks[i]);
                assert forall|j: int| 0 <= j < i implies (#[trigger] front[j]).id
                    != front[i].id by {
                    assert(front[j] == tracks[j]);
                }
                assert(first_with_id(front, i));
                assert(middle.tracks.contains_key(front[i].id));
            } else if middle.tracks.contains_key(tracks[i].id) {
                let j = choose|j: int|
                    0 <= j < front.len() && (#[trigger] front[j]).id == tracks[i].id;
                assert(tracks[j].id == tracks[i].id);
            }
        }
        assert forall|id: Seq<char>| #[trigger]
            after.tracks.contains_key(id) && !d.tracks.contains_key(id) implies exists|i: int|
            0 <= i < tracks.len() && (#[trigger] tracks[i]).id == id by {
            if middle.tracks.contains_key(id) {
                let j = choose|j: int| 0 <= j < front.len() && (#[trigger] front[j]).id == id;
                assert(tracks[j].id == id);
            } else {
                assert(tracks[tracks.len() - 1].id == id);
            }
        }
    }
}

/// The first track is what the player is asked for, if the player does not have it and it is on
/// disk.
proof fn head_is_asked_for(d: DataView)
    requires
        d.first_track_state() == Some(QueuedTrackState::Downloaded),
    ensures
        d.queue_steps() == seq![
            ActionView::Queue {
                origin_id: d.queue[0].1.origin_id,
                id: d.queue[0].0,
                path: d.tracks[d.queue[0].1.track_id].meta.path,
            },
        ],
{
    assert(first_unsent(d.queue) == Some(d.queue[0]));
}

/// Whether a step asks the player for the first track of a queue.
pub open spec fn asks_for_head(d: DataView, step: ActionView) -> bool {
    &&& d.first_track_state() == Some(QueuedTrackState::Downloaded)
    &&& step == ActionView::Queue {
        origin_id: d.queue[0].1.origin_id,
        id: d.queue[0].0,
        path: d.tracks[d.queue[0].1.track_id].meta.path,
    }
}

/// Tracks are played in the order of the queue: no event of the player leads to a request for any
/// track but the first, and for that only if it is on disk and the player does not have it.
pub proof fn player_events_ask_for_the_head_only(d: DataView, origin_id: OriginId, e: PlayerEvent)
    ensures
        forall|i: int|
            0 <= i < d.player_event_steps(origin_id, e).len() && (#[trigger] d.player_event_steps(
                origin_id,
                e,
            )[i]) is Queue ==> asks_for_head(
                d.after_player_event(e, true),
                d.player_event_steps(origin_id, e)[i],
            ),
{
    if let PlayerEvent::TrackFinished(id) = e {
        let next = d.without_place(id);
        if next.first_track_state() == Some(QueuedTrackState::Downloaded) {
            head_is_asked_for(next);
        }
    }
}

/// Tracks are played in the order of the queue: no event of the track manager leads to a request
/// for any track but the first, and for that only if it is on disk and the player does not have it.
pub proof fn manager_events_ask_for_the_head_only(d: DataView, e: ManagerEventView)
    ensures
        forall|i: int|
            0 <= i < d.manager_event_steps(e).len() && (#[trigger] d.manager_event_steps(
                e,
            )[i]) is Queue ==> asks_for_head(
                d.after_manager_event(e),
                d.manager_event_steps(e)[i],
            ),
{
    if let ManagerEventView::Acquired { id } = e {
        let next = d.with_downloaded(id, true);
        if next.first_track_state() == Some(QueuedTrackState::Downloaded) {
            head_is_asked_for(next);
        }
    }
}

/// Playing goes on: once a track is over or has arrived, the player is asked for the first track if
/// that is on disk and the player does not have it. After a track, it is told if there is none or
/// if it has to be waited for.
pub proof fn playing_goes_on(d: DataView, origin_id: OriginId, id: QueueId, track_id: Seq<char>)
    ensures
        ({
            let e = PlayerEvent::TrackFinished(id);
            let next = d.after_player_event(e, true);
            let steps = d.player_event_steps(origin_id, e);
            &&& next.first_track_state() == Some(QueuedTrackState::Downloaded) ==> steps.len() > 0
                && asks_for_head(next, steps.last())
            &&& next.first_track_state() == Some(QueuedTrackState::NotReady) ==> steps.len() > 0
                && steps.last() == tell(origin_id, EventView::WaitingForDownload)
            &&& next.queue.len() == 0 ==> steps.len() > 0 && steps.last() == tell(
                origin_id,
                EventView::QueueFinished,
            )
        }),
        ({
            let e = ManagerEventView::Acquired { id: track_id };
            let next = d.after_manager_event(e);
            let steps = d.manager_event_steps(e);
            next.first_track_state() == Some(QueuedTrackState::Downloaded) ==> steps.len() == 1
                && asks_for_head(next, steps[0])
        }),
{
    let next = d.without_place(id);
    if next.first_track_state() == Some(QueuedTrackState::Downloaded) {
        head_is_asked_for(next);
    }
    let arrived = d.with_downloaded(track_id, true);
    if arrived.first_track_state() == Some(QueuedTrackState::Downloaded) {
        head_is_asked_for(arrived);
    }
}

/// Stopping forgets all places and all tracks, and the identifiers start over: what is queued next
/// gets the first ones. Where the track manager cannot be told to do the same, everything stays.
pub proof fn stop_starts_over(d: DataView, origin_id: OriginId, tracks: Seq<TrackView>)
    requires
        tracks.len() <= usize::MAX,
    ensures
        d.after_player_event(PlayerEvent::PlaybackStopped, true) == DataView::fresh(),
        d.after_player_event(PlayerEvent::PlaybackStopped, false) == d,
        DataView::fresh().wf(),
        DataView::fresh().room_for(tracks.len()),
        DataView::fresh().places_for(tracks) == Seq::new(
            tracks.len(),
            |i: int|
                QueuedTrackView { queue_id: (QUEUE_ID_START + i) as usize, track: tracks[i] },
        ),
        DataView::fresh().queue_all(origin_id, tracks).queue == Seq::new(
            tracks.len(),
            |i: int|
                (
                    (QUEUE_ID_START + i) as usize,
                    QueueDataView { track_id: tracks[i].id, sent_to_player: false, origin_id },
                ),
        ),
{
    let fresh = DataView::fresh();
    queued_tracks_go_last(fresh, origin_id, tracks);
    assert(fresh.places_for(tracks) =~= Seq::new(
        tracks.len(),
        |i: int| QueuedTrackView { queue_id: (QUEUE_ID_START + i) as usize, track: tracks[i] },
    ));
    assert(fresh.queue_all(origin_id, tracks).queue =~= Seq::new(
        tracks.len(),
        |i: int|
            (
                (QUEUE_ID_START + i) as usize,
                QueueDataView { track_id: tracks[i].id, sent_to_player: false, origin_id },
            ),
    ));
}

/// The number of places that a track has.
pub open spec fn places_of(queue: Seq<(QueueId, QueueDataView)>, id: Seq<char>) -> nat
    decreases queue.len(),
{
    if queue.len() == 0 {
        0
    } else {
        places_of(queue.drop_last(), id) + if queue.last().1.track_id == id {
            1nat
        } else {
            0nat
        }
    }
}

/// The number of claims that the track manager knows of.
pub open spec fn claims_of(m: ManagerView, id: Seq<char>) -> nat {
    if m.tracks.contains_key(id) {
        m.tracks[id].claims
    } else {
        0
    }
}

/// Every track has as many claims as it has places in the queue.
pub open spec fn in_step(d: DataView, m: ManagerView) -> bool {
    forall|id: Seq<char>| claims_of(m, id) == #[trigger] places_of(d.queue, id)
}

/// The places of two queues, one after the other.
proof fn places_of_sum(
    a: Seq<(QueueId, QueueDataView)>,
    b: Seq<(QueueId, QueueDataView)>,
    id: Seq<char>,
)
    ensures
        places_of(a + b, id) == places_of(a, id) + places_of(b, id),
    decreases b.len(),
{
    if b.len() == 0 {
        assert(a + b =~= a);
    } else {
        assert((a + b).drop_last() =~= a + b.drop_last());
        places_of_sum(a, b.drop_last(), id);
    }
}

/// One place less.
proof fn places_without_one(queue: Seq<(QueueId, QueueDataView)>, i: int, id: Seq<char>)
    requires
        0 <= i < queue.len(),
    ensures
        places_of(queue, id) == places_of(queue.remove(i), id) + if queue[i].1.track_id == id {
            1nat
        } else {
            0nat
        },
{
    let front = queue.take(i);
    let back = queue.skip(i + 1);
    assert(queue =~= front.push(queue[i]) + back);
    assert(queue.remove(i) =~= front + back);
    assert(front.push(queue[i]).drop_last() =~= front);
    places_of_sum(front.push(queue[i]), back, id);
    places_of_sum(front, back, id);
}

/// The places of the other tracks.
proof fn places_without_track(d: DataView, gone: Seq<char>, id: Seq<char>)
    ensures
        places_of(d.without_track(gone).queue, id) == if id == gone {
            0
        } else {
            places_of(d.queue, id)
        },
    decreases d.queue.len(),
{
    reveal(Seq::filter);
    if d.queue.len() > 0 {
        let front = DataView { queue: d.queue.drop_last(), ..d };
        places_without_track(front, gone, id);
        let kept = front.without_track(gone).queue;
        if d.queue.last().1.track_id != gone {
            assert(d.without_track(gone).queue == kept.push(d.queue.last()));
            assert(kept.push(d.queue.last()).drop_last() =~= kept);
        } else {
            assert(d.without_track(gone).queue == kept);
        }
    }
}

/// Handing a track to the player gives nobody a place and takes none.
proof fn places_with_sent(d: DataView, sent: QueueId, id: Seq<char>)
    ensures
        places_of(d.with_sent(sent).queue, id) == places_of(d.queue, id),
    decreases d.queue.len(),
{
    if d.queue.len() > 0 {
        let front = DataView { queue: d.queue.drop_last(), ..d };
        places_with_sent(front, sent, id);
        assert(d.with_sent(sent).queue.drop_last() =~= front.with_sent(sent).queue);
    }
}

/// A fresh controller and a fresh track manager are in step.
pub proof fn in_step_at_first(cache_size: nat)
    ensures
        in_step(DataView::fresh(), ManagerView::idle(cache_size)),
{
}

/// The track manager after it has been told of some tracks.
pub open spec fn claim_all(m: ManagerView, origin_id: OriginId, tracks: Seq<TrackView>) -> ManagerView
    decreases tracks.len(),
{
    if tracks.len() == 0 {
        m
    } else {
        claim_all(m, origin_id, tracks.drop_last()).claim(origin_id, tracks.last().id)
    }
}

/// The track manager after some requests.
pub open spec fn after_requests(m: ManagerView, requests: Seq<ManagerRequest>) -> ManagerView
    decreases requests.len(),
{
    if requests.len() == 0 {
        m
    } else {
        after_requests(m, requests.drop_last()).after(requests.last())
    }
}

/// The claims that are sent for some tracks are all that the track manager has to be told, and if
/// only some of them reach it, it is told of as many tracks.
pub proof fn claims_tell_of_all_tracks(
    m: ManagerView,
    origin_id: OriginId,
    tracks: Seq<TrackView>,
    requests: Seq<ManagerRequest>,
    reached: int,
)
    requires
        requests.len() == tracks.len(),
        forall|i: int|
            0 <= i < requests.len() ==> is_claim_of(#[trigger] requests[i], origin_id, tracks[i]),
        0 <= reached <= tracks.len(),
    ensures
        after_requests(m, requests.take(reached)) == claim_all(m, origin_id, tracks.take(reached)),
    decreases reached,
{
    if reached > 0 {
        claims_tell_of_all_tracks(m, origin_id, tracks, requests, reached - 1);
        assert(requests.take(reached).drop_last() =~= requests.take(reached - 1));
        assert(tracks.take(reached).drop_last() =~= tracks.take(reached - 1));
        assert(is_claim_of(requests[reached - 1], origin_id, tracks[reached - 1]));
    }
}

/// A player that is stopped has both the queue and the track manager forget everything, the track
/// manager by one request, and everybody is told of it once.
pub proof fn stop_clears_both(d: DataView, m: ManagerView, origin_id: OriginId)
    ensures
        ({
            let e = PlayerEvent::PlaybackStopped;
            &&& manager_request_before(e) == Some(ManagerRequest::Clear)
            &&& m.after(ManagerRequest::Clear) == ManagerView::idle(m.cache_size)
            &&& d.after_player_event(e, true) == DataView::fresh()
            &&& d.player_event_steps(origin_id, e) == seq![
                tell(origin_id, EventView::PlaybackStopped),
            ]
        }),
        forall|e: PlayerEvent|
            e !is PlaybackStopped ==> #[trigger] manager_request_before(e) is None,
{
}

/// Queueing tracks and claiming them keeps the two in step.
pub proof fn in_step_after_queue(
    d: DataView,
    m: ManagerView,
    origin_id: OriginId,
    tracks: Seq<TrackView>,
)
    requires
        in_step(d, m),
    ensures
        in_step(d.queue_all(origin_id, tracks), claim_all(m, origin_id, tracks)),
    decreases tracks.len(),
{
    if tracks.len() > 0 {
        let front = tracks.drop_last();
        let last = tracks.last();
        in_step_after_queue(d, m, origin_id, front);
        let middle = d.queue_all(origin_id, front);
        let after = d.queue_all(origin_id, tracks);
        assert(after.queue.drop_last() =~= middle.queue);
        assert forall|id: Seq<char>| claims_of(
            claim_all(m, origin_id, tracks),
            id,
        ) == #[trigger] places_of(after.queue, id) by {
            assert(claims_of(claim_all(m, origin_id, front), id) == places_of(middle.queue, id));
        }
    }
}

/// The end of a track and giving up its claim keep the two in step.
pub proof fn in_step_after_finished_track(
    d: DataView,
    m: ManagerView,
    origin_id: OriginId,
    id: QueueId,
)
    requires
        d.wf(),
        in_step(d, m),
    ensures
        ({
            let e = PlayerEvent::TrackFinished(id);
            let next = d.after_player_event(e, true);
            &&& d.has_place(id) ==> in_step(next, m.unclaim(d.place(id).track_id))
                && d.player_event_steps(origin_id, e)[0] == (ActionView::Unclaim {
                track_id: d.place(id).track_id,
            })
            &&& !d.has_place(id) ==> next == d
        }),
{
    if d.has_place(id) {
        let i = choose|i: int| 0 <= i < d.queue.len() && (#[trigger] d.queue[i]).0 == id;
        let track_id = d.place(id).track_id;
        filter_drops_one(d, i, id);
        assert forall|x: Seq<char>| claims_of(m.unclaim(track_id), x) == #[trigger] places_of(
            d.without_place(id).queue,
            x,
        ) by {
            places_without_one(d.queue, i, x);
            assert(claims_of(m, x) == places_of(d.queue, x));
        }
    } else {
        assert forall|j: int| 0 <= j < d.queue.len() implies other_places(id)(
            #[trigger] d.queue[j],
        ) by {}
        filter_keeps_all(d.queue, other_places(id));
    }
}

/// A failed download, of which the track manager tells the controller, keeps the two in step. So do
/// all events that take nothing away, and so does stopping, when both forget everything.
pub proof fn in_step_after_other_events(
    d: DataView,
    m: ManagerView,
    id: Seq<char>,
    error: Option<(OriginId, YoutubeErrorView)>,
    sent: QueueId,
    path: Seq<char>,
)
    requires
        in_step(d, m),
        error is Some,
    ensures
        in_step(
            d.after_manager_event(ManagerEventView::Removed { id, e: error }),
            m.rotate(id),
        ),
        in_step(d.after_manager_event(ManagerEventView::Removed { id, e: None }), m),
        in_step(d.after_manager_event(ManagerEventView::Acquired { id }), m),
        m.tracks.contains_key(id) ==> in_step(d, m.finish(id, path)),
        in_step(d.after_player_event(PlayerEvent::TrackAdded(sent), true), m),
        in_step(
            d.after_player_event(PlayerEvent::PlaybackStopped, true),
            ManagerView::idle(m.cache_size),
        ),
{
    assert forall|x: Seq<char>| claims_of(m.rotate(id), x) == #[trigger] places_of(
        d.without_track(id).queue,
        x,
    ) by {
        places_without_track(d, id, x);
        assert(claims_of(m, x) == places_of(d.queue, x));
    }
    assert forall|x: Seq<char>| claims_of(m, x) == #[trigger] places_of(
        d.with_sent(sent).queue,
        x,
    ) by {
        places_with_sent(d, sent, x);
        assert(claims_of(m, x) == places_of(d.queue, x));
    }
    if m.tracks.contains_key(id) {
        assert forall|x: Seq<char>| claims_of(m.finish(id, path), x) == #[trigger] places_of(
            d.queue,
            x,
        ) by {
            assert(claims_of(m, x) == places_of(d.queue, x));
        }
    }
}

/// Once the queue is over, no track is left on disk.
pub proof fn nothing_is_left_on_disk(d: DataView, m: ManagerView)
    requires
        m.wf(),
        in_step(d, m),
        d.queue.len() == 0,
    ensures
        m.on_disk() == Set::<Seq<char>>::empty(),
{
    assert forall|id: Seq<char>| !m.on_disk().contains(id) by {
        assert(claims_of(m, id) == places_of(d.queue, id));
        if m.tracks.contains_key(id) {
            assert(m.tracks[id].claims == 0);
        }
    }
    assert(m.on_disk() =~= Set::empty());
}

/// The status counts the tracks that come after the one that is played: all places but one while the
/// player has something, and all of them while it has nothing. So another track in the queue makes
/// it larger by one. What the player says of itself is passed on.
pub proof fn status_counts_what_comes_after(
    d: DataView,
    p: PlayerStatus,
    origin_id: OriginId,
    track: TrackView,
)
    requires
        d.queue.len() < usize::MAX,
        p.length != 0 ==> d.queue.len() > 0,
    ensures
        p.length != 0 ==> d.status(p).length + 1 == d.queue.len(),
        p.length == 0 ==> d.status(p).length == d.queue.len(),
        d.queue_one(origin_id, track).status(p).length == d.status(p).length + 1,
        d.status(p).is_paused == p.is_paused,
        d.status(p).is_muted == p.is_muted,
        d.status(p).volume_level == p.volume_level,
        d.status(p).now_playing is Some <==> d.queue.len() > 0 && d.queue[0].1.sent_to_player,
        d.queue.len() > 0 && d.queue[0].1.sent_to_player ==> d.status(p).now_playing == Some(
            d.tracks[d.queue[0].1.track_id].meta,
        ),
{
}

/// A listing has a line for every place, in the order of the places: its identifier, its track, and
/// whether the player has the track, or else whether it is on disk.
pub proof fn listings_show_every_place(d: DataView, i: int)
    requires
        0 <= i < d.queue.len(),
    ensures
        d.listing().len() == d.queue.len(),
        d.listing()[i].queue_id == d.queue[i].0,
        d.listing()[i].track == d.tracks[d.queue[i].1.track_id].meta,
        d.listing()[i].state == QueuedTrackState::SentToPlayer <==> d.queue[i].1.sent_to_player,
        d.listing()[i].state == QueuedTrackState::Downloaded <==> !d.queue[i].1.sent_to_player
            && d.tracks[d.queue[i].1.track_id].downloaded,
        d.listing()[i].state == QueuedTrackState::NotReady <==> !d.queue[i].1.sent_to_player
            && !d.tracks[d.queue[i].1.track_id].downloaded,
        d.first_track_state() == Some(d.listing()[0].state),
{
}

/// A queue that is empty has no first track, is played from by nobody and asks for nothing.
pub proof fn empty_queues_have_nothing(d: DataView)
    requires
        d.queue.len() == 0,
    ensures
        d.first_track_state() is None,
        d.now_playing() is None,
        d.queue_steps().len() == 0,
        d.listing().len() == 0,
        forall|id: QueueId| !#[trigger] d.has_place(id),
{
}

/// The places that are handed out for tracks carry the next identifiers, one after the other, and
/// the tracks as they were given.
pub proof fn places_carry_the_next_identifiers(d: DataView, tracks: Seq<TrackView>, i: int)
    requires
        d.room_for(tracks.len()),
        0 <= i < tracks.len(),
    ensures
        d.places_for(tracks).len() == tracks.len(),
        d.places_for(tracks)[i].queue_id == d.next_id + i,
        d.places_for(tracks)[i].track == tracks[i],
{
}

/// When the player has the track of a place, that place says so, and nothing else changes.
pub proof fn added_tracks_are_marked(d: DataView, id: QueueId, cleared: bool)
    ensures
        ({
            let next = d.after_player_event(PlayerEvent::TrackAdded(id), cleared);
            &&& next.tracks == d.tracks && next.next_id == d.next_id
            &&& next.queue.len() == d.queue.len()
            &&& forall|i: int|
                0 <= i < d.queue.len() ==> {
                    &&& (#[trigger] next.queue[i]).0 == d.queue[i].0
                    &&& next.queue[i].1.track_id == d.queue[i].1.track_id
                    &&& next.queue[i].1.origin_id == d.queue[i].1.origin_id
                    &&& next.queue[i].1.sent_to_player == (d.queue[i].1.sent_to_player
                        || d.queue[i].0 == id)
                }
        }),
{
}

/// When a track is over, its place is gone, and no other place and no track is.
pub proof fn finished_tracks_leave_their_place(d: DataView, id: QueueId, cleared: bool)
    requires
        d.wf(),
    ensures
        ({
            let next = d.after_player_event(PlayerEvent::TrackFinished(id), cleared);
            &&& next.wf() && next.tracks == d.tracks && next.next_id == d.next_id
            &&& forall|p: (QueueId, QueueDataView)|
                next.queue.contains(p) <==> #[trigger] d.queue.contains(p) && p.0 != id
        }),
{
    let keep = other_places(id);
    filter_keeps_wf(d, keep);
    assert forall|p: (QueueId, QueueDataView)|
        d.queue.filter(keep).contains(p) <==> #[trigger] d.queue.contains(p) && p.0 != id by {
        members_of_filter(d.queue, keep, p);
    }
}

/// What is kept is what was there and should be.
proof fn members_of_filter(
    queue: Seq<(QueueId, QueueDataView)>,
    keep: spec_fn((QueueId, QueueDataView)) -> bool,
    p: (QueueId, QueueDataView),
)
    ensures
        queue.filter(keep).contains(p) <==> queue.contains(p) && keep(p),
{
    if queue.filter(keep).contains(p) {
        let i = choose|i: int| 0 <= i < queue.filter(keep).len() && queue.filter(keep)[i] == p;
        queue.lemma_filter_pred(keep, i);
        queue.lemma_filter_contains_rev(keep, p);
    }
    if queue.contains(p) && keep(p) {
        let i = choose|i: int| 0 <= i < queue.len() && queue[i] == p;
        queue.lemma_filter_contains(keep, i);
    }
}

/// No other event of the player changes the queue, but that it was stopped.
pub proof fn other_player_events_keep_the_queue(d: DataView, e: PlayerEvent, cleared: bool)
    requires
        e !is TrackAdded,
        e !is TrackFinished,
        e !is PlaybackStopped,
    ensures
        d.after_player_event(e, cleared) == d,
{
}

/// What the player tells of itself is passed on to everybody as it is, once, for the same request.
/// A track that starts is named, with its place. A track that was added is not told of.
pub proof fn player_events_are_passed_on(
    d: DataView,
    origin_id: OriginId,
    level: u8,
    id: QueueId,
)
    requires
        d.wf(),
    ensures
        ({
            let told = |e: PlayerEvent, event: EventView|
                {
                    let steps = d.player_event_steps(origin_id, e);
                    steps.len() == 1 && steps[0] == ActionView::Broadcast(
                        EventEnvelopeView { origin_id, event },
                    )
                };
            &&& told(PlayerEvent::Muted, EventView::Muted)
            &&& told(PlayerEvent::Unmuted, EventView::Unmuted)
            &&& told(PlayerEvent::Volume(level), EventView::Volume { level })
            &&& told(PlayerEvent::PlaybackStarted, EventView::PlaybackStarted)
            &&& told(PlayerEvent::PlaybackPaused, EventView::PlaybackPaused)
            &&& told(PlayerEvent::PlaybackStopped, EventView::PlaybackStopped)
            &&& forall|i: int|
                0 <= i < d.queue.len() ==> told(
                    PlayerEvent::TrackStarted((#[trigger] d.queue[i]).0),
                    EventView::NowPlaying {
                        queue_id: d.queue[i].0,
                        track: d.tracks[d.queue[i].1.track_id].meta,
                    },
                )
        }),
        d.player_event_steps(origin_id, PlayerEvent::TrackAdded(id)).len() == 0,
{
    assert forall|i: int| 0 <= i < d.queue.len() implies d.place((#[trigger] d.queue[i]).0)
        == d.queue[i].1 by {
        place_is_unique(d, i);
    }
}

/// When a track is over that had a place, exactly one claim is given up, to the track of that place,
/// and that comes first. What comes after it is at most one step, and there is one unless the player
/// has the next track already.
pub proof fn finished_tracks_are_unclaimed(d: DataView, origin_id: OriginId, i: int)
    requires
        d.wf(),
        0 <= i < d.queue.len(),
    ensures
        ({
            let e = PlayerEvent::TrackFinished(d.queue[i].0);
            let steps = d.player_event_steps(origin_id, e);
            let next = d.after_player_event(e, true);
            &&& steps.len() > 0
            &&& steps[0] == (ActionView::Unclaim { track_id: d.queue[i].1.track_id })
            &&& forall|j: int| 0 < j < steps.len() ==> (#[trigger] steps[j]) !is Unclaim
            &&& steps.len() == if next.first_track_state() == Some(
                QueuedTrackState::SentToPlayer,
            ) {
                1nat
            } else {
                2nat
            }
        }),
{
    place_is_unique(d, i);
    let next = d.without_place(d.queue[i].0);
    if next.first_track_state() == Some(QueuedTrackState::Downloaded) {
        head_is_asked_for(next);
    }
}

/// A track that arrives or goes is marked so, and nothing else changes.
pub proof fn arrivals_are_marked(d: DataView, id: Seq<char>)
    requires
        d.tracks.contains_key(id),
    ensures
        ({
            let here = d.after_manager_event(ManagerEventView::Acquired { id });
            let gone = d.after_manager_event(ManagerEventView::Removed { id, e: None });
            &&& here.queue == d.queue && here.next_id == d.next_id
            &&& gone.queue == d.queue && gone.next_id == d.next_id
            &&& here.tracks.dom() == d.tracks.dom() && gone.tracks.dom() == d.tracks.dom()
            &&& here.tracks[id].downloaded && !gone.tracks[id].downloaded
            &&& here.tracks[id].meta == d.tracks[id].meta && gone.tracks[id].meta
                == d.tracks[id].meta
            &&& forall|x: Seq<char>|
                x != id && d.tracks.contains_key(x) ==> #[trigger] here.tracks[x] == d.tracks[x]
            &&& forall|x: Seq<char>|
                x != id && d.tracks.contains_key(x) ==> #[trigger] gone.tracks[x] == d.tracks[x]
            &&& d.manager_event_steps(ManagerEventView::Removed { id, e: None }).len() == 0
        }),
{
    let here = d.after_manager_event(ManagerEventView::Acquired { id });
    let gone = d.after_manager_event(ManagerEventView::Removed { id, e: None });
    assert(here.tracks.dom() =~= d.tracks.dom());
    assert(gone.tracks.dom() =~= d.tracks.dom());
}

/// A track that cannot be had leaves with all its places, no other track and no other place does, and
/// everybody is told once, which track it was, why, and for which request.
pub proof fn lost_tracks_are_told_of(
    d: DataView,
    id: Seq<char>,
    origin_id: OriginId,
    err: YoutubeErrorView,
)
    requires
        d.wf(),
    ensures
        ({
            let e = ManagerEventView::Removed { id, e: Some((origin_id, err)) };
            let next = d.after_manager_event(e);
            let steps = d.manager_event_steps(e);
            &&& next.next_id == d.next_id
            &&& !next.tracks.contains_key(id)
            &&& forall|x: Seq<char>|
                x != id ==> (#[trigger] next.tracks.contains_key(x) <==> d.tracks.contains_key(x))
            &&& forall|x: Seq<char>|
                x != id && d.tracks.contains_key(x) ==> #[trigger] next.tracks[x] == d.tracks[x]
            &&& forall|p: (QueueId, QueueDataView)|
                next.queue.contains(p) <==> #[trigger] d.queue.contains(p) && p.1.track_id != id
            &&& forall|i: int, j: int|
                0 <= i < j < next.queue.len() ==> (#[trigger] next.queue[i]).0 < (
                #[trigger] next.queue[j]).0
            &&& steps.len() == 1
            &&& steps[0] == ActionView::Broadcast(
                EventEnvelopeView {
                    origin_id,
                    event: EventView::DownloadError { track: d.tracks[id].meta, err },
                },
            )
        }),
{
    let keep = |p: (QueueId, QueueDataView)| p.1.track_id != id;
    filter_keeps_wf(d, keep);
    let rest = DataView { queue: d.queue.filter(keep), ..d };
    assert(rest.wf());
    assert(d.without_track(id).queue == rest.queue);
    assert forall|p: (QueueId, QueueDataView)|
        rest.queue.contains(p) <==> #[trigger] d.queue.contains(p) && p.1.track_id != id by {
        members_of_filter(d.queue, keep, p);
    }
}

/// The track that the player is asked for is the first that it does not have, and it is asked only if
/// that track is on disk.
pub proof fn the_first_missing_track_is_asked_for(d: DataView)
    ensures
        match first_unsent(d.queue) {
            Some(p) => exists|i: int|
                0 <= i < d.queue.len() && #[trigger] d.queue[i] == p && !p.1.sent_to_player
                    && forall|j: int|
                    0 <= j < i ==> (#[trigger] d.queue[j]).1.sent_to_player,
            None => forall|j: int|
                0 <= j < d.queue.len() ==> (#[trigger] d.queue[j]).1.sent_to_player,
        },
        d.queue_steps().len() <= 1,
        d.queue_steps().len() == 1 <==> (first_unsent(d.queue) matches Some(p)
            && d.tracks[p.1.track_id].downloaded),
        d.queue_steps().len() == 1 ==> (first_unsent(d.queue) matches Some(p)
            && d.queue_steps()[0] == (ActionView::Queue {
            origin_id: p.1.origin_id,
            id: p.0,
            path: d.tracks[p.1.track_id].meta.path,
        })),
    decreases d.queue.len(),
{
    if d.queue.len() > 0 && d.queue[0].1.sent_to_player {
        let rest = DataView { queue: d.queue.skip(1), ..d };
        the_first_missing_track_is_asked_for(rest);
        match first_unsent(rest.queue) {
            Some(p) => {
                let i = choose|i: int|
                    0 <= i < rest.queue.len() && #[trigger] rest.queue[i] == p
                        && !p.1.sent_to_player && forall|j: int|
                        0 <= j < i ==> (#[trigger] rest.queue[j]).1.sent_to_player;
                assert(d.queue[i + 1] == p);
                assert forall|j: int| 0 <= j < i + 1 implies (
                #[trigger] d.queue[j]).1.sent_to_player by {
                    if j > 0 {
                        assert(rest.queue[j - 1] == d.queue[j]);
                    }
                }
            },
            None => {
                assert forall|j: int| 0 <= j < d.queue.len() implies (
                #[trigger] d.queue[j]).1.sent_to_player by {
                    if j > 0 {
                        assert(rest.queue[j - 1] == d.queue[j]);
                    }
                }
            },
        }
    } else if d.queue.len() > 0 {
        assert(d.queue[0] == d.queue[0]);
    }
}

/// A place is the one with its identifier, and a place is there exactly if it is in the queue.
pub proof fn places_are_found(d: DataView, i: int, id: QueueId)
    requires
        d.wf(),
        0 <= i < d.queue.len(),
    ensures
        d.has_place(d.queue[i].0),
        d.place(d.queue[i].0) == d.queue[i].1,
        (forall|j: int| 0 <= j < d.queue.len() ==> (#[trigger] d.queue[j]).0 != id)
            ==> !d.has_place(id),
{
    place_is_unique(d, i);
}

/// Requests are numbered one after the other, starting over at zero only after the last number there
/// is, and numbering one changes nothing else. A request says whether anything is in the queue.
pub proof fn requests_are_numbered_one_by_one(s: State, request: PlayerRequest)
    ensures
        s.origin_id_counter < usize::MAX ==> s.numbered().origin_id_counter
            == s.origin_id_counter + 1,
        s.origin_id_counter == usize::MAX ==> s.numbered().origin_id_counter == 0,
        s.numbered().data == s.data,
        s.numbered().auto_play == s.auto_play,
        s.call(s.origin_id_counter, request).origin_id == s.origin_id_counter,
        s.call(s.origin_id_counter, request).request == request,
        s.call(s.origin_id_counter, request).queue_waits <==> s.data@.queue.len() > 0,
{
}

/// An error says what the error says that it is made from. An error in finding tracks stays what it
/// is, but that a lost channel is one of the controller's own.
pub proof fn errors_keep_what_they_say(e: YoutubeErrorView, p: PlayerError)
    ensures
        resolve_error(e).text() == e.text(),
        resolve_error(e) is Channel <==> e is Channel,
        e !is Channel ==> resolve_error(e) == ErrorView::Youtube(e),
        ErrorView::Player(p).text() == p.text(),
        ErrorView::Channel(ChannelError).text() == ChannelError.text(),
{
}

/// A fresh queue is empty, knows no track, and starts with the first identifier.
pub proof fn fresh_queues_are_empty()
    ensures
        DataView::fresh().queue.len() == 0,
        DataView::fresh().next_id == 1,
        forall|x: Seq<char>| !#[trigger] DataView::fresh().tracks.contains_key(x),
{
}

/// Identifiers are left for some tracks exactly if the last one they get is a number there is.
pub proof fn room_is_what_is_left(d: DataView, count: nat)
    requires
        d.wf(),
    ensures
        d.next_id > 0 && count > 0 ==> (d.room_for(count) <==> d.next_id + count - 1 <= usize::MAX),
        d.next_id == 0 && count > 0 ==> !d.room_for(count),
        d.room_for(0),
{
}

/// An event makes sense exactly if it speaks of a place, or of a track, that is there.
pub proof fn events_speak_of_what_is_there(d: DataView, id: QueueId, track_id: Seq<char>)
    ensures
        d.accepts_player_event(PlayerEvent::TrackAdded(id)) <==> d.has_place(id),
        d.accepts_player_event(PlayerEvent::TrackStarted(id)) <==> d.has_place(id),
        d.accepts_player_event(PlayerEvent::TrackFinished(id)),
        forall|e: Option<(OriginId, YoutubeErrorView)>|
            #[trigger] d.accepts_manager_event(ManagerEventView::Removed { id: track_id, e })
                <==> d.tracks.contains_key(track_id),
        d.accepts_manager_event(ManagerEventView::Acquired { id: track_id })
            <==> d.tracks.contains_key(track_id),
{
}

/// What is seen of lists is what they hold, one by one.
pub proof fn lists_show_what_is_there(
    tracks: Seq<Track>,
    queued: Seq<QueuedTrack>,
    items: Seq<DataItemView>,
    actions: Seq<Action>,
    queue: Seq<(QueueId, QueueData)>,
    i: int,
)
    ensures
        track_views(tracks).len() == tracks.len(),
        queued_tracks(queued).len() == queued.len(),
        listed(items).len() == items.len(),
        steps(actions).len() == actions.len(),
        places(queue).len() == queue.len(),
        0 <= i < tracks.len() ==> track_views(tracks)[i] == tracks[i]@,
        0 <= i < queued.len() ==> queued_tracks(queued)[i].queue_id == queued[i].queue_id
            && queued_tracks(queued)[i].track == queued[i].track@,
        0 <= i < items.len() ==> listed(items)[i].queue_id == items[i].queue_id
            && listed(items)[i].state == items[i].state && listed(items)[i].track
            == items[i].track@,
        0 <= i < actions.len() ==> match actions[i] {
            Action::Broadcast(e) => steps(actions)[i] == ActionView::Broadcast(
                EventEnvelopeView { origin_id: e.origin_id, event: e.event@ },
            ),
            Action::Queue { origin_id, id, path } => steps(actions)[i] == (ActionView::Queue {
                origin_id,
                id,
                path: path@,
            }),
            Action::Unclaim { track_id } => steps(actions)[i] == (ActionView::Unclaim {
                track_id: track_id@,
            }),
        },
        0 <= i < queue.len() ==> places(queue)[i].0 == queue[i].0 && places(queue)[i].1.track_id
            == queue[i].1.track_id@ && places(queue)[i].1.sent_to_player
            == queue[i].1.sent_to_player && places(queue)[i].1.origin_id == queue[i].1.origin_id,
{
}

/// What is seen of an event, a status and a track of the queue is all that they hold.
pub proof fn views_show_what_is_there(e: Event, status: Status, track: TrackData)
    ensures
        match e {
            Event::PlaybackStarted => e@ is PlaybackStarted,
            Event::PlaybackPaused => e@ is PlaybackPaused,
            Event::PlaybackStopped => e@ is PlaybackStopped,
            Event::QueueFinished => e@ is QueueFinished,
            Event::WaitingForDownload => e@ is WaitingForDownload,
            Event::Muted => e@ is Muted,
            Event::Unmuted => e@ is Unmuted,
            Event::TracksQueued { tracks } => e@ == (EventView::TracksQueued {
                tracks: queued_tracks(tracks@),
            }),
            Event::Volume { level } => e@ == (EventView::Volume { level }),
            Event::NowPlaying { queue_id, track } => e@ == (EventView::NowPlaying {
                queue_id,
                track: track@,
            }),
            Event::DownloadError { track, err } => e@ == (EventView::DownloadError {
                track: track@,
                err: err@,
            }),
        },
        status@.is_paused == status.is_paused,
        status@.is_muted == status.is_muted,
        status@.volume_level == status.volume_level,
        status@.length == status.length,
        status@.now_playing is Some <==> status.now_playing is Some,
        status.now_playing matches Some(t) ==> status@.now_playing == Some(t@),
        track@.downloaded == track.downloaded,
        track@.meta == track.meta@,
{
}

} // verus!
