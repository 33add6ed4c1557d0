use music_bot::player::{
    change_level, level_index, Effect, Error, Event, EventEnvelope, Gain, Request, SinkState,
    Status, Worker, MAX_VOLUME, MIN_VOLUME,
};
use music_bot::util::channel::ChannelError;

fn sink(is_paused: bool, length: usize) -> SinkState {
    SinkState { is_paused, length, track_opened: false, queue_waits: false }
}

fn send(event: Event) -> Effect {
    Effect::Send(EventEnvelope { origin_id: 7, event })
}

fn run(worker: &mut Worker, sink: SinkState, request: Request) -> Vec<Effect> {
    let outcome = worker.request_handler(sink, 7, &request);
    assert_eq!(outcome.response, Ok(None));
    outcome.effects
}

#[test]
fn player_starts_loud() {
    let worker = Worker::new();
    assert_eq!(worker.volume_level, 20);
    assert!(!worker.is_muted);
}

#[test]
fn play_tells_only_of_a_change() {
    let mut worker = Worker::new();
    assert_eq!(
        run(&mut worker, sink(true, 0), Request::Play),
        vec![send(Event::PlaybackStarted), Effect::Play]
    );
    assert_eq!(run(&mut worker, sink(false, 0), Request::Play), vec![Effect::Play]);
}

#[test]
fn pause_tells_only_of_a_change() {
    let mut worker = Worker::new();
    assert_eq!(
        run(&mut worker, sink(false, 3), Request::Pause),
        vec![send(Event::PlaybackPaused), Effect::Pause]
    );
    assert_eq!(run(&mut worker, sink(true, 3), Request::Pause), vec![Effect::Pause]);
}

#[test]
fn play_toggle_does_the_other_thing() {
    let mut worker = Worker::new();
    assert_eq!(
        run(&mut worker, sink(true, 3), Request::PlayToggle),
        vec![send(Event::PlaybackStarted), Effect::Play]
    );
    assert_eq!(
        run(&mut worker, sink(false, 3), Request::PlayToggle),
        vec![send(Event::PlaybackPaused), Effect::Pause]
    );
}

#[test]
fn stop_tells_if_there_was_something() {
    let mut worker = Worker::new();
    let told = vec![send(Event::PlaybackStopped), Effect::Clear, Effect::Pause];
    assert_eq!(run(&mut worker, sink(false, 3), Request::Stop), told);
    assert_eq!(run(&mut worker, sink(true, 1), Request::Stop), told);
    let waiting = SinkState { queue_waits: true, ..sink(true, 0) };
    assert_eq!(run(&mut worker, waiting, Request::Stop), told);
    assert_eq!(
        run(&mut worker, sink(false, 0), Request::Stop),
        vec![Effect::Clear, Effect::Pause]
    );
}

#[test]
fn skip_needs_something_to_skip() {
    let mut worker = Worker::new();
    assert_eq!(run(&mut worker, sink(false, 2), Request::Skip), vec![Effect::SkipOne]);
    let outcome = worker.request_handler(sink(false, 0), 7, &Request::Skip);
    assert_eq!(outcome.effects, vec![]);
    assert_eq!(outcome.response, Err(Error::QueueEmpty));
    assert_eq!(worker, Worker::new());
}

#[test]
fn skip_drops_a_track_that_has_not_started() {
    let mut worker = Worker::new();
    let drops: Vec<usize> =
        (1..8).map(|n| run(&mut worker, sink(true, n), Request::Skip).len()).collect();
    assert_eq!(drops, vec![1, 1, 2, 1, 1, 2, 1]);
    for n in [2, 3, 5, 6] {
        let effects = run(&mut worker, sink(true, n), Request::Skip);
        assert!(effects.iter().all(|e| *e == Effect::SkipOne));
        let before = worker.status_handler(sink(true, n)).length;
        let after = worker.status_handler(sink(true, n - effects.len())).length;
        assert_eq!(after + 1, before);
    }
}

#[test]
fn mute_and_unmute() {
    let mut worker = Worker::new();
    assert_eq!(
        run(&mut worker, sink(false, 0), Request::Mute),
        vec![send(Event::Muted), Effect::SetGain(Gain::Silent)]
    );
    assert_eq!(run(&mut worker, sink(false, 0), Request::Mute), vec![]);
    assert_eq!(
        run(&mut worker, sink(false, 0), Request::Unmute),
        vec![send(Event::Unmuted), Effect::SetGain(Gain::Level(20))]
    );
    assert_eq!(run(&mut worker, sink(false, 0), Request::Unmute), vec![]);
}

#[test]
fn mute_toggle_twice_is_nothing() {
    let mut worker = Worker::new();
    assert_eq!(
        worker.mute_toggle_handler(7),
        vec![send(Event::Muted), Effect::SetGain(Gain::Silent)]
    );
    assert!(worker.is_muted);
    assert_eq!(
        run(&mut worker, sink(false, 0), Request::MuteToggle),
        vec![send(Event::Unmuted), Effect::SetGain(Gain::Level(20))]
    );
    assert_eq!(worker, Worker::new());
}

#[test]
fn volume_steps() {
    let mut worker = Worker::new();
    assert_eq!(
        run(&mut worker, sink(false, 0), Request::DecreaseVolume),
        vec![send(Event::Volume(19)), Effect::SetGain(Gain::Level(19))]
    );
    assert_eq!(
        run(&mut worker, sink(false, 0), Request::IncreaseVolume),
        vec![send(Event::Volume(20)), Effect::SetGain(Gain::Level(20))]
    );
    assert_eq!(
        run(&mut worker, sink(false, 0), Request::IncreaseVolume),
        vec![send(Event::Volume(20)), Effect::SetGain(Gain::Level(20))]
    );
}

#[test]
fn volume_is_not_heard_while_muted() {
    let mut worker = Worker { volume_level: 5, is_muted: true };
    assert_eq!(
        run(&mut worker, sink(false, 0), Request::SetVolume { level: 9 }),
        vec![send(Event::Volume(9))]
    );
    assert_eq!(
        run(&mut worker, sink(false, 0), Request::Unmute),
        vec![send(Event::Unmuted), Effect::SetGain(Gain::Level(9))]
    );
}

#[test]
fn volume_must_be_on_the_scale() {
    let mut worker = Worker::new();
    for level in [0, 21, 255] {
        let outcome = worker.request_handler(sink(false, 0), 7, &Request::SetVolume { level });
        assert_eq!(outcome.effects, vec![]);
        assert_eq!(outcome.response, Err(Error::InvalidVolumeLevel));
    }
    assert_eq!(worker, Worker::new());
    assert_eq!((MIN_VOLUME, MAX_VOLUME), (1, 20));
}

#[test]
fn change_level_stays_on_the_scale() {
    assert_eq!(change_level(1, -1), 1);
    assert_eq!(change_level(1, 1), 2);
    assert_eq!(change_level(20, 1), 20);
    assert_eq!(change_level(20, -1), 19);
    assert_eq!(level_index(1), 0);
    assert_eq!(level_index(20), 19);
}

#[test]
fn queue_appends_three_sources() {
    let mut worker = Worker::new();
    let opened = SinkState { track_opened: true, ..sink(false, 0) };
    let request = Request::Queue { id: 4, path: "a.mp3".to_owned() };
    let outcome = worker.request_handler(opened, 7, &request);
    assert_eq!(outcome.response, Ok(None));
    assert_eq!(
        outcome.effects,
        vec![
            send(Event::TrackAdded(4)),
            Effect::AppendCallback(EventEnvelope { origin_id: 7, event: Event::TrackStarted(4) }),
            Effect::AppendTrack,
            Effect::AppendCallback(EventEnvelope { origin_id: 7, event: Event::TrackFinished(4) }),
        ]
    );
}

#[test]
fn queue_needs_a_track_that_opens() {
    let mut worker = Worker::new();
    let request = Request::Queue { id: 4, path: "a.mp3".to_owned() };
    let outcome = worker.request_handler(sink(false, 0), 7, &request);
    assert_eq!(outcome.effects, vec![]);
    assert_eq!(outcome.response, Err(Error::InvalidTrack));
}

#[test]
fn status_counts_tracks() {
    let worker = Worker { volume_level: 3, is_muted: true };
    let lengths: Vec<usize> =
        (0..7).map(|n| worker.status_handler(sink(true, n)).length).collect();
    assert_eq!(lengths, vec![0, 0, 1, 1, 1, 2, 2]);
    assert_eq!(
        worker.status_handler(sink(true, 3)),
        Status { is_paused: true, is_muted: true, length: 1, volume_level: 3 }
    );
}

#[test]
fn status_is_an_answer() {
    let mut worker = Worker::new();
    let outcome = worker.request_handler(sink(false, 5), 7, &Request::Status);
    assert_eq!(outcome.effects, vec![]);
    assert_eq!(
        outcome.response,
        Ok(Some(Status { is_paused: false, is_muted: false, length: 2, volume_level: 20 }))
    );
}

#[test]
fn player_errors_speak() {
    assert_eq!(Error::QueueEmpty.message(), "player queue is empty");
    assert_eq!(Error::InvalidTrack.message(), "unable to open track");
    assert_eq!(
        Error::InvalidVolumeLevel.message(),
        "invalid volume level, expected value from 0 to 10"
    );
    assert_eq!(Error::Channel(ChannelError).message(), "channel error");
}
