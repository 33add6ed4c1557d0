//! The player: what each request does to the sound sink and what is told about it.

use crate::util::channel::ChannelError;
use vstd::prelude::*;

verus! {

/// The lowest volume level.
pub const MIN_VOLUME: u8 = 1;

/// The highest volume level.
pub const MAX_VOLUME: u8 = 20;

/// The number of sources that the sink holds for one track: one that tells of its start, the track
/// itself, and one that tells of its end.
pub const SOURCES_PER_TRACK: usize = 3;

/// Identifies a request, so that what follows from it can be traced back.
pub type OriginId = usize;

/// Identifies a place in the queue.
pub type QueueId = usize;

/// What a request is answered.
pub type Response = Option<Status>;

/// The result of a request.
pub type Result<T> = core::result::Result<T, Error>;

/// Why a request failed.
#[derive(Debug, Clone, Copy, PartialEq, Eq, Structural)]
pub enum Error {
    QueueEmpty,
    InvalidTrack,
    InvalidVolumeLevel,
    Channel(ChannelError),
}

impl Error {
    /// What the error says.
    pub open spec fn text(self) -> Seq<char> {
        match self {
            Error::QueueEmpty => "player queue is empty"@,
            Error::InvalidTrack => "unable to open track"@,
            Error::InvalidVolumeLevel => "invalid volume level, expected value from 0 to 10"@,
            Error::Channel(e) => e.text(),
        }
    }

    /// The error as a sentence.
    pub fn message(&self) -> (r: String)
        ensures
            r@ == self.text(),
    {
        match self {
            Error::QueueEmpty => "player queue is empty".to_owned(),
            Error::InvalidTrack => "unable to open track".to_owned(),
            Error::InvalidVolumeLevel => {
                "invalid volume level, expected value from 0 to 10".to_owned()
            },
            Error::Channel(e) => e.message(),
        }
    }
}

/// How the player stands.
#[derive(Debug, Clone, Copy, PartialEq, Eq, Structural)]
pub struct Status {
    pub is_paused: bool,
    pub is_muted: bool,
    /// The number of tracks that the sink holds.
    pub length: usize,
    pub volume_level: u8,
}

/// What the player tells about itself.
#[derive(Debug, Clone, Copy, PartialEq, Eq, Structural)]
pub enum Event {
    PlaybackStarted,
    PlaybackPaused,
    PlaybackStopped,
    Muted,
    Unmuted,
    Volume(u8),
    TrackAdded(QueueId),
    TrackStarted(QueueId),
    TrackFinished(QueueId),
}

/// An event together with the request that led to it.
#[derive(Debug, Clone, Copy, PartialEq, Eq, Structural)]
pub struct EventEnvelope {
    pub origin_id: OriginId,
    pub event: Event,
}

/// What the player can be asked to do.
#[derive(Debug)]
pub enum Request {
    Play,
    Pause,
    PlayToggle,
    Stop,
    Skip,
    Mute,
    Unmute,
    MuteToggle,
    IncreaseVolume,
    DecreaseVolume,
    SetVolume { level: u8 },
    Queue { id: QueueId, path: String },
    Status,
}

/// How loud the sink plays.
#[derive(Debug, Clone, Copy, PartialEq, Eq, Structural)]
pub enum Gain {
    Silent,
    Level(u8),
}

/// One step in carrying out a request.
#[derive(Debug, Clone, Copy, PartialEq, Eq, Structural)]
pub enum Effect {
    /// Tell of an event.
    Send(EventEnvelope),
    /// Let the sink play.
    Play,
    /// Pause the sink.
    Pause,
    /// Throw out everything that the sink holds, which pauses it.
    Clear,
    /// Drop the source that the sink is playing.
    SkipOne,
    /// Make the sink louder or quieter.
    SetGain(Gain),
    /// Append a source that tells of an event when it is reached.
    AppendCallback(EventEnvelope),
    /// Append the track that was opened for the request.
    AppendTrack,
}

/// What there is to know of the sink when a request comes in.
#[derive(Debug, Clone, Copy, PartialEq, Eq, Structural)]
pub struct SinkState {
    pub is_paused: bool,
    /// The number of sources that the sink holds.
    pub length: usize,
    /// Whether the track of a `Queue` request could be opened. Other requests open none.
    pub track_opened: bool,
    /// Whether a queue is kept for the player that was not empty when the request was made. Only
    /// `Stop` looks at it.
    pub queue_waits: bool,
}

/// The outcome of a request: what to carry out, in this order, and the answer.
#[derive(Debug)]
pub struct Outcome {
    pub effects: Vec<Effect>,
    pub response: Result<Response>,
}

/// What the player remembers between requests.
#[derive(Debug, Clone, Copy, PartialEq, Eq, Structural)]
pub struct Worker {
    pub volume_level: u8,
    pub is_muted: bool,
}

/// A level moved by a step. The step past an end of the scale is not taken; any other step is taken
/// modulo 256.
pub open spec fn changed_level(level: u8, modifier: int) -> u8 {
    if (level == MIN_VOLUME && modifier < 0) || (level == MAX_VOLUME && modifier > 0) {
        level
    } else {
        ((level + modifier) % 256) as u8
    }
}

/// The number of tracks among the sources of a sink. The last track counts until its own source has
/// been played.
pub open spec fn tracks_in_sink(sources: nat) -> nat {
    sources / 3 + if sources % 3 > 1 {
        1nat
    } else {
        0nat
    }
}

/// Whether a level is on the scale.
pub open spec fn level_on_scale(level: u8) -> bool {
    MIN_VOLUME <= level <= MAX_VOLUME
}

/// What appends a track, with the sources that tell of its start and its end around it.
pub open spec fn queue_effects(origin_id: OriginId, id: QueueId) -> Seq<Effect> {
    seq![
        Effect::Send(EventEnvelope { origin_id, event: Event::TrackAdded(id) }),
        Effect::AppendCallback(EventEnvelope { origin_id, event: Event::TrackStarted(id) }),
        Effect::AppendTrack,
        Effect::AppendCallback(EventEnvelope { origin_id, event: Event::TrackFinished(id) }),
    ]
}

/// What skips the track that the sink is at. Where its start has not been told of, the source that
/// would do that is dropped together with the track.
pub open spec fn skip_effects(sources: nat) -> Seq<Effect> {
    if sources == 0 {
        seq![]
    } else if sources % 3 == 0 {
        seq![Effect::SkipOne, Effect::SkipOne]
    } else {
        seq![Effect::SkipOne]
    }
}

impl Worker {
    /// The level is on the scale.
    pub open spec fn wf(&self) -> bool {
        level_on_scale(self.volume_level)
    }

    /// How loud the sink should play.
    pub open spec fn gain(self) -> Gain {
        if self.is_muted {
            Gain::Silent
        } else {
            Gain::Level(self.volume_level)
        }
    }

    /// The volume level after a request.
    pub open spec fn level_after(self, request: Request) -> u8 {
        match request {
            Request::SetVolume { level } => if level_on_scale(level) {
                level
            } else {
                self.volume_level
            },
            Request::IncreaseVolume => changed_level(self.volume_level, 1),
            Request::DecreaseVolume => changed_level(self.volume_level, -1),
            _ => self.volume_level,
        }
    }

    /// Whether the player is muted after a request.
    pub open spec fn muted_after(self, request: Request) -> bool {
        match request {
            Request::Mute => true,
            Request::Unmute => false,
            Request::MuteToggle => !self.is_muted,
            _ => self.is_muted,
        }
    }

    /// What the player remembers after a request.
    pub open spec fn after(self, request: Request) -> Worker {
        Worker { volume_level: self.level_after(request), is_muted: self.muted_after(request) }
    }

    /// The answer to a request.
    pub open spec fn answer(self, sink: SinkState, request: Request) -> Result<Response> {
        match request {
            Request::Skip => if sink.length == 0 {
                Err(Error::QueueEmpty)
            } else {
                Ok(None)
            },
            Request::SetVolume { level } => if level_on_scale(level) {
                Ok(None)
            } else {
                Err(Error::InvalidVolumeLevel)
            },
            Request::Queue { .. } => if sink.track_opened {
                Ok(None)
            } else {
                Err(Error::InvalidTrack)
            },
            Request::Status => Ok(
                Some(
                    Status {
                        is_paused: sink.is_paused,
                        is_muted: self.is_muted,
                        length: tracks_in_sink(sink.length as nat) as usize,
                        volume_level: self.volume_level,
                    },
                ),
            ),
            _ => Ok(None),
        }
    }

    /// What tells of a new level, and makes it heard unless the player is muted.
    pub open spec fn level_effects(self, origin_id: OriginId) -> Seq<Effect> {
        let told = seq![
            Effect::Send(EventEnvelope { origin_id, event: Event::Volume(self.volume_level) }),
        ];
        if self.is_muted {
            told
        } else {
            told.push(Effect::SetGain(Gain::Level(self.volume_level)))
        }
    }

    /// What mutes the player or ends that, and tells of it.
    pub open spec fn mute_effects(self, origin_id: OriginId) -> Seq<Effect> {
        let event = if self.is_muted {
            Event::Muted
        } else {
            Event::Unmuted
        };
        seq![Effect::Send(EventEnvelope { origin_id, event }), Effect::SetGain(self.gain())]
    }

    /// What a request has carried out.
    pub open spec fn effects(
        self,
        sink: SinkState,
        origin_id: OriginId,
        request: Request,
    ) -> Seq<Effect> {
        let next = self.after(request);
        let send = |event: Event| Effect::Send(EventEnvelope { origin_id, event });
        match request {
            Request::Play => if sink.is_paused {
                seq![send(Event::PlaybackStarted), Effect::Play]
            } else {
                seq![Effect::Play]
            },
            Request::Pause => if sink.is_paused {
                seq![Effect::Pause]
            } else {
                seq![send(Event::PlaybackPaused), Effect::Pause]
            },
            Request::PlayToggle => if sink.is_paused {
                seq![send(Event::PlaybackStarted), Effect::Play]
            } else {
                seq![send(Event::PlaybackPaused), Effect::Pause]
            },
            Request::Stop => if sink.length == 0 && !sink.queue_waits {
                seq![Effect::Clear, Effect::Pause]
            } else {
                seq![send(Event::PlaybackStopped), Effect::Clear, Effect::Pause]
            },
            Request::Skip => skip_effects(sink.length as nat),
            Request::Mute | Request::Unmute | Request::MuteToggle => if next.is_muted
                == self.is_muted {
                seq![]
            } else {
                next.mute_effects(origin_id)
            },
            Request::IncreaseVolume | Request::DecreaseVolume => next.level_effects(origin_id),
            Request::SetVolume { level } => if level_on_scale(level) {
                next.level_effects(origin_id)
            } else {
                seq![]
            },
            Request::Queue { id, path: _ } => if sink.track_opened {
                queue_effects(origin_id, id)
            } else {
                seq![]
            },
            Request::Status => seq![],
        }
    }

    /// A player at full volume that is not muted.
    pub fn new() -> (r: Worker)
        ensures
            r.wf(),
            r == (Worker { volume_level: MAX_VOLUME, is_muted: false }),
    {
        Worker { volume_level: MAX_VOLUME, is_muted: false }
    }

    /// Handles a request.
    pub fn request_handler(
        &mut self,
        sink: SinkState,
        origin_id: OriginId,
        payload: &Request,
    ) -> (r: Outcome)
        requires
            old(self).wf(),
        ensures
            final(self).wf(),
            *final(self) == old(self).after(*payload),
            r.effects@ == old(self).effects(sink, origin_id, *payload),
            r.response == old(self).answer(sink, *payload),
    {
        match payload {
            Request::Play => Outcome {
                effects: self.play_handler(sink, origin_id),
                response: Ok(None),
            },
            Request::Pause => Outcome {
                effects: self.pause_handler(sink, origin_id),
                response: Ok(None),
            },
            Request::PlayToggle => Outcome {
                effects: self.play_toggle_handler(sink, origin_id),
                response: Ok(None),
            },
            Request::Stop => Outcome {
                effects: self.stop_handler(sink, origin_id),
                response: Ok(None),
            },
            Request::Skip => self.skip_handler(sink),
            Request::Mute => Outcome {
                effects: self.mute_handler(origin_id),
                response: Ok(None),
            },
            Request::Unmute => Outcome {
                effects: self.unmute_handler(origin_id),
                response: Ok(None),
            },
            Request::MuteToggle => Outcome {
                effects: self.mute_toggle_handler(origin_id),
                response: Ok(None),
            },
            Request::SetVolume { level } => self.set_volume_handler(origin_id, *level),
            Request::IncreaseVolume => Outcome {
                effects: self.change_volume_handler(origin_id, 1),
                response: Ok(None),
            },
            Request::DecreaseVolume => Outcome {
                effects: self.change_volume_handler(origin_id, -1),
                response: Ok(None),
            },
            Request::Queue { id, path: _ } => self.queue_handler(sink, origin_id, *id),
            Request::Status => Outcome {
                effects: Vec::new(),
                response: Ok(Some(self.status_handler(sink))),
            },
        }
    }

    /// How the player stands.
    pub fn status_handler(&self, sink: SinkState) -> (r: Status)
        ensures
            r.is_paused == sink.is_paused,
            r.is_muted == self.is_muted,
            r.length == tracks_in_sink(sink.length as nat),
            r.volume_level == self.volume_level,
    {
        let rest: usize = if sink.length % SOURCES_PER_TRACK > 1 {
            1
        } else {
            0
        };
        Status {
            is_paused: sink.is_paused,
            is_muted: self.is_muted,
            length: sink.length / SOURCES_PER_TRACK + rest,
            volume_level: self.volume_level,
        }
    }

    /// Appends a track that could be opened.
    fn queue_handler(&self, sink: SinkState, origin_id: OriginId, id: QueueId) -> (r: Outcome)
        ensures
            sink.track_opened ==> r.effects@ == queue_effects(origin_id, id) && r.response == Ok::<
                Response,
                Error,
            >(None),
            !sink.track_opened ==> r.effects@ == Seq::<Effect>::empty() && r.response == Err::<
                Response,
                Error,
            >(Error::InvalidTrack),
    {
        if !sink.track_opened {
            return Outcome { effects: Vec::new(), response: Err(Error::InvalidTrack) };
        }
        let effects = vec![
            Effect::Send(EventEnvelope { origin_id, event: Event::TrackAdded(id) }),
            Effect::AppendCallback(EventEnvelope { origin_id, event: Event::TrackStarted(id) }),
            Effect::AppendTrack,
            Effect::AppendCallback(EventEnvelope { origin_id, event: Event::TrackFinished(id) }),
        ];
        Outcome { effects, response: Ok(None) }
    }

    /// Tells of the level and makes it heard.
    fn announce_level(&self, origin_id: OriginId) -> (r: Vec<Effect>)
        ensures
            r@ == self.level_effects(origin_id),
    {
        let mut effects = vec![
            Effect::Send(EventEnvelope { origin_id, event: Event::Volume(self.volume_level) }),
        ];
        if !self.is_muted {
            effects.push(Effect::SetGain(Gain::Level(self.volume_level)));
        }
        effects
    }

    /// Moves the level by one step.
    fn change_volume_handler(&mut self, origin_id: OriginId, modifier: i8) -> (r: Vec<Effect>)
        requires
            old(self).wf(),
            modifier == 1 || modifier == -1,
        ensures
            final(self).wf(),
            final(self).volume_level == changed_level(old(self).volume_level, modifier as int),
            final(self).is_muted == old(self).is_muted,
            r@ == final(self).level_effects(origin_id),
    {
        self.volume_level = change_level(self.volume_level, modifier);
        self.announce_level(origin_id)
    }

    /// Moves to a level that is on the scale.
    fn set_volume_handler(&mut self, origin_id: OriginId, level: u8) -> (r: Outcome)
        requires
            old(self).wf(),
        ensures
            final(self).wf(),
            *final(self) == old(self).after(Request::SetVolume { level }),
            level_on_scale(level) ==> r.effects@ == final(self).level_effects(origin_id)
                && r.response == Ok::<Response, Error>(None),
            !level_on_scale(level) ==> r.effects@ == Seq::<Effect>::empty() && r.response
                == Err::<Response, Error>(Error::InvalidVolumeLevel),
    {
        if level < MIN_VOLUME || MAX_VOLUME < level {
            return Outcome { effects: Vec::new(), response: Err(Error::InvalidVolumeLevel) };
        }
        self.volume_level = level;
        Outcome { effects: self.announce_level(origin_id), response: Ok(None) }
    }

    /// Mutes or unmutes, whichever is not the case.
    pub fn mute_toggle_handler(&mut self, origin_id: OriginId) -> (r: Vec<Effect>)
        ensures
            *final(self) == old(self).after(Request::MuteToggle),
            r@ == final(self).mute_effects(origin_id),
    {
        if self.is_muted {
            self.unmute_handler(origin_id)
        } else {
            self.mute_handler(origin_id)
        }
    }

    /// Ends the mute, if there is one.
    fn unmute_handler(&mut self, origin_id: OriginId) -> (r: Vec<Effect>)
        ensures
            *final(self) == old(self).after(Request::Unmute),
            r@ == if old(self).is_muted {
                final(self).mute_effects(origin_id)
            } else {
                seq![]
            },
    {
        if !self.is_muted {
            return Vec::new();
        }
        self.is_muted = false;
        vec![
            Effect::Send(EventEnvelope { origin_id, event: Event::Unmuted }),
            Effect::SetGain(Gain::Level(self.volume_level)),
        ]
    }

    /// Mutes, unless that is so already.
    fn mute_handler(&mut self, origin_id: OriginId) -> (r: Vec<Effect>)
        ensures
            *final(self) == old(self).after(Request::Mute),
            r@ == if old(self).is_muted {
                seq![]
            } else {
                final(self).mute_effects(origin_id)
            },
    {
        if self.is_muted {
            return Vec::new();
        }
        self.is_muted = true;
        vec![
            Effect::Send(EventEnvelope { origin_id, event: Event::Muted }),
            Effect::SetGain(Gain::Silent),
        ]
    }

    /// Skips the track that the sink is at.
    pub fn skip_handler(&self, sink: SinkState) -> (r: Outcome)
        ensures
            r.effects@ == skip_effects(sink.length as nat),
            r.response == if sink.length == 0 {
                Err::<Response, Error>(Error::QueueEmpty)
            } else {
                Ok::<Response, Error>(None)
            },
    {
        if sink.length == 0 {
            return Outcome { effects: Vec::new(), response: Err(Error::QueueEmpty) };
        }
        let effects = if sink.length % SOURCES_PER_TRACK == 0 {
            vec![Effect::SkipOne, Effect::SkipOne]
        } else {
            vec![Effect::SkipOne]
        };
        Outcome { effects, response: Ok(None) }
    }

    /// Throws everything out. It is told of if there was something, in the sink or in the queue that
    /// is kept for it: whoever keeps that is to throw it out too.
    pub fn stop_handler(&self, sink: SinkState, origin_id: OriginId) -> (r: Vec<Effect>)
        ensures
            r@ == self.effects(sink, origin_id, Request::Stop),
    {
        if sink.length == 0 && !sink.queue_waits {
            vec![Effect::Clear, Effect::Pause]
        } else {
            vec![
                Effect::Send(EventEnvelope { origin_id, event: Event::PlaybackStopped }),
                Effect::Clear,
                Effect::Pause,
            ]
        }
    }

    /// Plays or pauses, whichever is not the case.
    fn play_toggle_handler(&self, sink: SinkState, origin_id: OriginId) -> (r: Vec<Effect>)
        ensures
            r@ == self.effects(sink, origin_id, Request::PlayToggle),
    {
        if sink.is_paused {
            self.play_handler(sink, origin_id)
        } else {
            self.pause_handler(sink, origin_id)
        }
    }

    /// Pauses.
    fn pause_handler(&self, sink: SinkState, origin_id: OriginId) -> (r: Vec<Effect>)
        ensures
            r@ == self.effects(sink, origin_id, Request::Pause),
    {
        if sink.is_paused {
            vec![Effect::Pause]
        } else {
            vec![
                Effect::Send(EventEnvelope { origin_id, event: Event::PlaybackPaused }),
                Effect::Pause,
            ]
        }
    }

    /// Plays.
    fn play_handler(&self, sink: SinkState, origin_id: OriginId) -> (r: Vec<Effect>)
        ensures
            r@ == self.effects(sink, origin_id, Request::Play),
    {
        if sink.is_paused {
            vec![
                Effect::Send(EventEnvelope { origin_id, event: Event::PlaybackStarted }),
                Effect::Play,
            ]
        } else {
            vec![Effect::Play]
        }
    }
}

/// Moves a level by a step.
pub fn change_level(level: u8, modifier: i8) -> (r: u8)
    ensures
        r == changed_level(level, modifier as int),
{
    if (level == MIN_VOLUME && modifier < 0) || (level == MAX_VOLUME && modifier > 0) {
        return level;
    }
    level.wrapping_add_signed(modifier)
}

/// Where a level stands in a table of all levels.
pub fn level_index(level: u8) -> (r: usize)
    requires
        level_on_scale(level),
    ensures
        r == level - MIN_VOLUME,
        r < MAX_VOLUME,
{
    (level - MIN_VOLUME) as usize
}

/// What the steps of a request do to a sink.
pub struct SinkModel {
    pub is_paused: bool,
    pub gain: Gain,
    /// The number of sources.
    pub length: nat,
}

impl SinkModel {
    /// The sink after one step.
    pub open spec fn step(self, effect: Effect) -> SinkModel {
        match effect {
            Effect::Send(_) => self,
            Effect::Play => SinkModel { is_paused: false, ..self },
            Effect::Pause => SinkModel { is_paused: true, ..self },
            Effect::Clear => SinkModel { is_paused: true, length: 0, ..self },
            Effect::SkipOne => SinkModel {
                length: (if self.length > 0 {
                    self.length - 1
                } else {
                    0
                }) as nat,
                ..self
            },
            Effect::SetGain(gain) => SinkModel { gain, ..self },
            Effect::AppendCallback(_) => SinkModel { length: self.length + 1, ..self },
            Effect::AppendTrack => SinkModel { length: self.length + 1, ..self },
        }
    }

    /// The sink after some steps.
    pub open spec fn run(self, effects: Seq<Effect>) -> SinkModel
        decreases effects.len(),
    {
        if effects.len() == 0 {
            self
        } else {
            self.run(effects.drop_last()).step(effects.last())
        }
    }

    /// Whether this is the sink that a request finds.
    pub open spec fn seen_as(self, sink: SinkState) -> bool {
        self.is_paused == sink.is_paused && self.length == sink.length
    }
}

/// The events that are told by some steps.
pub open spec fn told(effects: Seq<Effect>) -> Seq<EventEnvelope>
    decreases effects.len(),
{
    if effects.len() == 0 {
        seq![]
    } else {
        let front = told(effects.drop_last());
        match effects.last() {
            Effect::Send(envelope) => front.push(envelope),
            _ => front,
        }
    }
}

/// At most four steps, taken one after the other.
proof fn run_unfolds(sink: SinkModel, effects: Seq<Effect>)
    ensures
        effects.len() == 0 ==> sink.run(effects) == sink && told(effects) == Seq::<
            EventEnvelope,
        >::empty(),
        effects.len() == 1 ==> sink.run(effects) == sink.step(effects[0]),
        effects.len() == 2 ==> sink.run(effects) == sink.step(effects[0]).step(effects[1]),
        effects.len() == 3 ==> sink.run(effects) == sink.step(effects[0]).step(effects[1]).step(
            effects[2],
        ),
        effects.len() == 4 ==> sink.run(effects) == sink.step(effects[0]).step(effects[1]).step(
            effects[2],
        ).step(effects[3]),
{
    reveal_with_fuel(SinkModel::run, 5);
    reveal_with_fuel(told, 5);
}

/// What one to three steps tell of.
proof fn told_unfolds(effects: Seq<Effect>)
    ensures
        effects.len() == 1 ==> told(effects) == match effects[0] {
            Effect::Send(e) => seq![e],
            _ => seq![],
        },
        effects.len() == 2 && effects[1] !is Send ==> told(effects) == match effects[0] {
            Effect::Send(e) => seq![e],
            _ => seq![],
        },
        effects.len() == 3 && effects[1] !is Send && effects[2] !is Send ==> told(effects)
            == match effects[0] {
            Effect::Send(e) => seq![e],
            _ => seq![],
        },
{
    reveal_with_fuel(told, 4);
    if effects.len() == 1 {
        assert(told(effects.drop_last()) =~= Seq::<EventEnvelope>::empty());
    }
    if effects.len() == 2 {
        assert(told(effects.drop_last().drop_last()) =~= Seq::<EventEnvelope>::empty());
    }
    if effects.len() == 3 {
        assert(told(effects.drop_last().drop_last().drop_last()) =~= Seq::<EventEnvelope>::empty());
    }
}

/// The sink always plays as loud as the player says: if it did before a request, it does after.
pub proof fn gain_is_kept_in_step(
    worker: Worker,
    sink: SinkModel,
    seen: SinkState,
    origin_id: OriginId,
    request: Request,
)
    requires
        worker.wf(),
        sink.gain == worker.gain(),
    ensures
        sink.run(worker.effects(seen, origin_id, request)).gain == worker.after(request).gain(),
{
    run_unfolds(sink, worker.effects(seen, origin_id, request));
}

/// A request that fails changes nothing: the player stays as it was and no step is taken.
pub proof fn failed_request_changes_nothing(
    worker: Worker,
    seen: SinkState,
    origin_id: OriginId,
    request: Request,
)
    requires
        worker.answer(seen, request) is Err,
    ensures
        worker.after(request) == worker,
        worker.effects(seen, origin_id, request) == Seq::<Effect>::empty(),
{
}

/// After `Play` the sink plays, after `Pause` and `Stop` it is paused, after `PlayToggle` it does
/// the other thing. `Play`, `Pause` and `PlayToggle` tell of it exactly when that is a change, and
/// `Stop` exactly when there was something to throw out, in the sink or in the queue.
pub proof fn playback_follows_requests(
    worker: Worker,
    sink: SinkModel,
    seen: SinkState,
    origin_id: OriginId,
)
    requires
        sink.seen_as(seen),
    ensures
        !sink.run(worker.effects(seen, origin_id, Request::Play)).is_paused,
        sink.run(worker.effects(seen, origin_id, Request::Pause)).is_paused,
        sink.run(worker.effects(seen, origin_id, Request::Stop)).is_paused,
        sink.run(worker.effects(seen, origin_id, Request::Stop)).length == 0,
        sink.run(worker.effects(seen, origin_id, Request::PlayToggle)).is_paused
            != sink.is_paused,
        told(worker.effects(seen, origin_id, Request::Play)) == if sink.is_paused {
            seq![EventEnvelope { origin_id, event: Event::PlaybackStarted }]
        } else {
            seq![]
        },
        told(worker.effects(seen, origin_id, Request::Pause)) == if sink.is_paused {
            seq![]
        } else {
            seq![EventEnvelope { origin_id, event: Event::PlaybackPaused }]
        },
        told(worker.effects(seen, origin_id, Request::PlayToggle)) == if sink.is_paused {
            seq![EventEnvelope { origin_id, event: Event::PlaybackStarted }]
        } else {
            seq![EventEnvelope { origin_id, event: Event::PlaybackPaused }]
        },
        told(worker.effects(seen, origin_id, Request::Stop)) == if sink.length == 0
            && !seen.queue_waits {
            seq![]
        } else {
            seq![EventEnvelope { origin_id, event: Event::PlaybackStopped }]
        },
{
    run_unfolds(sink, worker.effects(seen, origin_id, Request::Play));
    run_unfolds(sink, worker.effects(seen, origin_id, Request::Pause));
    run_unfolds(sink, worker.effects(seen, origin_id, Request::Stop));
    run_unfolds(sink, worker.effects(seen, origin_id, Request::PlayToggle));
    told_unfolds(worker.effects(seen, origin_id, Request::Play));
    told_unfolds(worker.effects(seen, origin_id, Request::Pause));
    told_unfolds(worker.effects(seen, origin_id, Request::PlayToggle));
    told_unfolds(worker.effects(seen, origin_id, Request::Stop));
    let stop = worker.effects(seen, origin_id, Request::Stop);
    if sink.length == 0 && !seen.queue_waits {
        assert(stop[0] == Effect::Clear && stop[1] == Effect::Pause);
    }
}

/// `Skip` leaves one track less, unless the sink has played a track to its end and is only about to
/// tell of that. It tells of nothing itself.
pub proof fn skip_drops_one_track(
    worker: Worker,
    sink: SinkModel,
    seen: SinkState,
    origin_id: OriginId,
)
    requires
        sink.seen_as(seen),
        sink.length > 0,
        sink.length % 3 != 1,
    ensures
        tracks_in_sink(sink.run(worker.effects(seen, origin_id, Request::Skip)).length) + 1
            == tracks_in_sink(sink.length),
        told(worker.effects(seen, origin_id, Request::Skip)) == Seq::<EventEnvelope>::empty(),
{
    run_unfolds(sink, worker.effects(seen, origin_id, Request::Skip));
    told_unfolds(worker.effects(seen, origin_id, Request::Skip));
}

/// No request but those for playing, pausing and stopping starts or pauses the sink.
pub proof fn other_requests_keep_playback(
    worker: Worker,
    sink: SinkModel,
    seen: SinkState,
    origin_id: OriginId,
    request: Request,
)
    requires
        request !is Play,
        request !is Pause,
        request !is PlayToggle,
        request !is Stop,
    ensures
        sink.run(worker.effects(seen, origin_id, request)).is_paused == sink.is_paused,
{
    run_unfolds(sink, worker.effects(seen, origin_id, request));
}

/// Muting and unmuting in turn leaves the player and the sink as they were, and both are told of.
pub proof fn mute_toggle_undoes_itself(
    worker: Worker,
    sink: SinkModel,
    first: (SinkState, OriginId),
    second: (SinkState, OriginId),
)
    requires
        sink.gain == worker.gain(),
    ensures
        ({
            let between = worker.after(Request::MuteToggle);
            let there = worker.effects(first.0, first.1, Request::MuteToggle);
            let back = between.effects(second.0, second.1, Request::MuteToggle);
            &&& between.after(Request::MuteToggle) == worker
            &&& sink.run(there).run(back) == sink
            &&& told(there) == seq![
                EventEnvelope {
                    origin_id: first.1,
                    event: if worker.is_muted {
                        Event::Unmuted
                    } else {
                        Event::Muted
                    },
                },
            ]
            &&& told(back) == seq![
                EventEnvelope {
                    origin_id: second.1,
                    event: if worker.is_muted {
                        Event::Muted
                    } else {
                        Event::Unmuted
                    },
                },
            ]
        }),
{
    let between = worker.after(Request::MuteToggle);
    let there = worker.effects(first.0, first.1, Request::MuteToggle);
    let back = between.effects(second.0, second.1, Request::MuteToggle);
    run_unfolds(sink, there);
    run_unfolds(sink.run(there), back);
    told_unfolds(there);
    told_unfolds(back);
}

/// A step up and a step down undo each other, except at the end of the scale that the first step
/// runs into.
pub proof fn volume_steps_undo_each_other(worker: Worker)
    requires
        worker.wf(),
    ensures
        worker.volume_level < MAX_VOLUME ==> worker.after(Request::IncreaseVolume).after(
            Request::DecreaseVolume,
        ) == worker,
        worker.volume_level > MIN_VOLUME ==> worker.after(Request::DecreaseVolume).after(
            Request::IncreaseVolume,
        ) == worker,
        worker.volume_level == MAX_VOLUME ==> worker.after(Request::IncreaseVolume) == worker,
        worker.volume_level == MIN_VOLUME ==> worker.after(Request::DecreaseVolume) == worker,
{
}

/// A sink that a track was appended to holds one more track by the player's count, wherever in the
/// sources of a track it stands.
pub proof fn appended_track_is_counted(sink: SinkModel, origin_id: OriginId, id: QueueId)
    ensures
        tracks_in_sink(sink.run(queue_effects(origin_id, id)).length) == tracks_in_sink(
            sink.length,
        ) + 1,
{
    run_unfolds(sink, queue_effects(origin_id, id));
}

/// A level moves by its step, neither more nor less: upwards for a step up, downwards for a step
/// down. Only a step past an end of the scale is not taken, and only a number that does not fit goes
/// round.
pub proof fn levels_move_by_their_step(level: u8, modifier: int)
    requires
        -128 <= modifier <= 127,
    ensures
        level == MAX_VOLUME && modifier > 0 ==> changed_level(level, modifier) == level,
        level == MIN_VOLUME && modifier < 0 ==> changed_level(level, modifier) == level,
        !(level == MAX_VOLUME && modifier > 0) && !(level == MIN_VOLUME && modifier < 0) ==> {
            let next = changed_level(level, modifier) as int;
            next == level + modifier || next == level + modifier - 256 || next == level + modifier
                + 256
        },
        !(level == MAX_VOLUME && modifier > 0) && !(level == MIN_VOLUME && modifier < 0) && 0
            <= level + modifier <= 255 ==> changed_level(level, modifier) == level + modifier,
{
}

/// `IncreaseVolume` makes the player louder by one level and `DecreaseVolume` quieter by one, until
/// the end of the scale. `SetVolume` leads to just the level that is asked for if that is on the
/// scale, and is refused otherwise. None of them mutes the player or ends that.
pub proof fn volume_goes_where_it_is_asked(worker: Worker, seen: SinkState, level: u8)
    requires
        worker.wf(),
    ensures
        worker.volume_level < 20 ==> worker.after(Request::IncreaseVolume).volume_level
            == worker.volume_level + 1,
        worker.volume_level == 20 ==> worker.after(Request::IncreaseVolume).volume_level == 20,
        worker.volume_level > 1 ==> worker.after(Request::DecreaseVolume).volume_level
            == worker.volume_level - 1,
        worker.volume_level == 1 ==> worker.after(Request::DecreaseVolume).volume_level == 1,
        1 <= level <= 20 ==> worker.after(Request::SetVolume { level }).volume_level == level
            && worker.answer(seen, Request::SetVolume { level }) == Ok::<Response, Error>(None),
        level == 0 || level > 20 ==> worker.after(Request::SetVolume { level }) == worker
            && worker.answer(seen, Request::SetVolume { level }) == Err::<Response, Error>(
            Error::InvalidVolumeLevel,
        ),
        worker.after(Request::IncreaseVolume).is_muted == worker.is_muted,
        worker.after(Request::DecreaseVolume).is_muted == worker.is_muted,
        worker.after(Request::SetVolume { level }).is_muted == worker.is_muted,
{
}

/// A request for a volume that is granted tells of the new level first, and then makes it heard
/// unless the player is muted.
pub proof fn new_levels_are_told_and_heard(
    worker: Worker,
    seen: SinkState,
    origin_id: OriginId,
    request: Request,
)
    requires
        request is SetVolume || request is IncreaseVolume || request is DecreaseVolume,
        worker.answer(seen, request) is Ok,
    ensures
        ({
            let effects = worker.effects(seen, origin_id, request);
            let level = worker.after(request).volume_level;
            &&& effects.len() == if worker.is_muted {
                1nat
            } else {
                2nat
            }
            &&& effects[0] == Effect::Send(EventEnvelope { origin_id, event: Event::Volume(level) })
            &&& !worker.is_muted ==> effects[1] == Effect::SetGain(Gain::Level(level))
        }),
{
}

/// After `Mute` the player is muted, after `Unmute` it is not, after `MuteToggle` it is what it was
/// not, and the level stays. A change is told of and heard: silence, or the level. What is no change
/// does nothing.
pub proof fn muting_is_told_and_heard(worker: Worker, seen: SinkState, origin_id: OriginId)
    ensures
        worker.after(Request::Mute) == (Worker { is_muted: true, ..worker }),
        worker.after(Request::Unmute) == (Worker { is_muted: false, ..worker }),
        worker.after(Request::MuteToggle) == (Worker { is_muted: !worker.is_muted, ..worker }),
        ({
            let muted = seq![
                Effect::Send(EventEnvelope { origin_id, event: Event::Muted }),
                Effect::SetGain(Gain::Silent),
            ];
            let unmuted = seq![
                Effect::Send(EventEnvelope { origin_id, event: Event::Unmuted }),
                Effect::SetGain(Gain::Level(worker.volume_level)),
            ];
            let mute = worker.effects(seen, origin_id, Request::Mute);
            let unmute = worker.effects(seen, origin_id, Request::Unmute);
            let toggle = worker.effects(seen, origin_id, Request::MuteToggle);
            &&& worker.is_muted ==> mute.len() == 0 && unmute == unmuted && toggle == unmuted
            &&& !worker.is_muted ==> mute == muted && unmute.len() == 0 && toggle == muted
        }),
{
}

/// No request but those about the volume and about muting changes what the player remembers.
pub proof fn other_requests_keep_the_player(worker: Worker, request: Request)
    requires
        request !is Mute,
        request !is Unmute,
        request !is MuteToggle,
        request !is IncreaseVolume,
        request !is DecreaseVolume,
        request !is SetVolume,
    ensures
        worker.after(request) == worker,
{
}

/// `Play` lets the sink play and `Pause` pauses it, whatever it did; `PlayToggle` does what is not
/// the case. The sink takes no other step.
pub proof fn playback_takes_one_step(worker: Worker, seen: SinkState, origin_id: OriginId)
    ensures
        ({
            let play = worker.effects(seen, origin_id, Request::Play);
            let pause = worker.effects(seen, origin_id, Request::Pause);
            let toggle = worker.effects(seen, origin_id, Request::PlayToggle);
            let started = Effect::Send(EventEnvelope { origin_id, event: Event::PlaybackStarted });
            let paused = Effect::Send(EventEnvelope { origin_id, event: Event::PlaybackPaused });
            &&& play.last() == Effect::Play && pause.last() == Effect::Pause
            &&& seen.is_paused ==> play.len() == 2 && play[0] == started && pause.len() == 1
                && toggle.len() == 2 && toggle[0] == started && toggle[1] == Effect::Play
            &&& !seen.is_paused ==> play.len() == 1 && pause.len() == 2 && pause[0] == paused
                && toggle.len() == 2 && toggle[0] == paused && toggle[1] == Effect::Pause
        }),
{
}

/// `Stop` throws everything out and pauses, in this order, and tells of it before if the sink or the
/// queue held anything.
pub proof fn stop_throws_everything_out(worker: Worker, seen: SinkState, origin_id: OriginId)
    ensures
        ({
            let stop = worker.effects(seen, origin_id, Request::Stop);
            let n = stop.len() as int;
            &&& n >= 2 && stop[n - 2] == Effect::Clear && stop[n - 1] == Effect::Pause
            &&& n == 2 <==> seen.length == 0 && !seen.queue_waits
            &&& n != 2 ==> n == 3 && stop[0] == Effect::Send(
                EventEnvelope { origin_id, event: Event::PlaybackStopped },
            )
        }),
{
}

/// `Skip` drops sources and does nothing else: two where a track has not started, so that the track
/// itself goes, one otherwise, and none where there is none, which is refused.
pub proof fn skip_only_drops_sources(worker: Worker, seen: SinkState, origin_id: OriginId)
    ensures
        ({
            let skip = worker.effects(seen, origin_id, Request::Skip);
            &&& forall|i: int| 0 <= i < skip.len() ==> #[trigger] skip[i] == Effect::SkipOne
            &&& seen.length == 0 ==> skip.len() == 0
            &&& seen.length > 0 && seen.length % 3 == 0 ==> skip.len() == 2
            &&& seen.length % 3 != 0 ==> skip.len() == 1
            &&& worker.answer(seen, Request::Skip) == if seen.length == 0 {
                Err::<Response, Error>(Error::QueueEmpty)
            } else {
                Ok::<Response, Error>(None)
            }
        }),
{
}

/// A track that can be opened is told of, and then appended between two sources that tell of its
/// start and of its end, all of them for the same request and the same place. A track that cannot be
/// opened is refused.
pub proof fn queued_tracks_are_told_of(
    worker: Worker,
    seen: SinkState,
    origin_id: OriginId,
    id: QueueId,
    path: String,
)
    ensures
        ({
            let request = Request::Queue { id, path };
            let effects = worker.effects(seen, origin_id, request);
            &&& !seen.track_opened ==> effects.len() == 0 && worker.answer(seen, request) == Err::<
                Response,
                Error,
            >(Error::InvalidTrack)
            &&& seen.track_opened ==> {
                &&& worker.answer(seen, request) == Ok::<Response, Error>(None)
                &&& effects.len() == 4
                &&& effects[0] == Effect::Send(
                    EventEnvelope { origin_id, event: Event::TrackAdded(id) },
                )
                &&& effects[1] == Effect::AppendCallback(
                    EventEnvelope { origin_id, event: Event::TrackStarted(id) },
                )
                &&& effects[2] == Effect::AppendTrack
                &&& effects[3] == Effect::AppendCallback(
                    EventEnvelope { origin_id, event: Event::TrackFinished(id) },
                )
            }
        }),
{
}

/// `Status` does nothing, and tells what is the case. All other requests that are granted are
/// answered with nothing.
pub proof fn status_tells_what_is_the_case(
    worker: Worker,
    seen: SinkState,
    origin_id: OriginId,
    request: Request,
)
    ensures
        worker.effects(seen, origin_id, Request::Status).len() == 0,
        worker.answer(seen, Request::Status) matches Ok(Some(status)) && status.is_paused
            == seen.is_paused && status.is_muted == worker.is_muted && status.volume_level
            == worker.volume_level && 3 * status.length <= seen.length + 1 && seen.length
            <= 3 * status.length + 1,
        request !is Status ==> match worker.answer(seen, request) {
            Ok(response) => response is None,
            Err(_) => request is Skip || request is SetVolume || request is Queue,
        },
{
}

/// A track counts for three sources, and still for two; one source that is left is only the end of
/// a track.
pub proof fn three_sources_are_a_track(tracks: nat)
    ensures
        tracks_in_sink(3 * tracks) == tracks,
        tracks_in_sink(3 * tracks + 1) == tracks,
        tracks_in_sink(3 * tracks + 2) == tracks + 1,
{
}

/// What is told is told before anything is done, once, and for the request that led to it.
pub proof fn events_come_first(
    worker: Worker,
    seen: SinkState,
    origin_id: OriginId,
    request: Request,
)
    ensures
        forall|i: int|
            0 <= i < worker.effects(seen, origin_id, request).len() ==> match #[trigger] worker.effects(
                seen,
                origin_id,
                request,
            )[i] {
                Effect::Send(envelope) => i == 0 && envelope.origin_id == origin_id,
                Effect::AppendCallback(envelope) => envelope.origin_id == origin_id,
                _ => true,
            },
{
}

/// Every error says why a request failed.
pub proof fn errors_say_why(e: Error)
    ensures
        match e {
            Error::QueueEmpty => e.text() == "player queue is empty"@,
            Error::InvalidTrack => e.text() == "unable to open track"@,
            Error::InvalidVolumeLevel => e.text()
                == "invalid volume level, expected value from 0 to 10"@,
            Error::Channel(c) => c.text() == "channel error"@ && e.text() == c.text(),
        },
{
}

} // verus!
