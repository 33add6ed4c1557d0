use music_bot::controller::{
    before_player_event, claims, Action, Controller, Data, Error, Event, EventEnvelope, PlayerCall, QueueData, QueuedTrackState, Settings,
    TrackData,
};
use music_bot::player::{
    Error as PlayerError, Event as PlayerEvent, Request as PlayerRequest, Status as PlayerStatus,
};
use music_bot::track_manager::{Event as ManagerEvent, Request as ManagerRequest};
use music_bot::util::channel::ChannelError;
use music_bot::util::link::Url;
use music_bot::youtube::{Error as YoutubeError, Request as YoutubeRequest, Track};

fn url(s: &str) -> Url {
    match Url::parse(s) {
        Ok(url) => url,
        Err(e) => panic!("{}", e.message),
    }
}

fn track(id: &str) -> Track {
    Track {
        id: id.to_owned(),
        title: format!("title of {id}"),
        artist: vec![],
        webpage_url: url("https://youtu.be/x"),
        duration: 60,
        is_music_track: true,
        path: format!("{id}.mp3"),
    }
}

fn controller(auto_play: bool) -> Controller {
    Controller::new(Settings { auto_play, track_cache_size: 4 })
}

fn queue(c: &mut Controller, ids: &[&str]) -> usize {
    let tracks: Vec<Track> = ids.iter().map(|id| track(id)).collect();
    let count = tracks.len();
    let origin_id = c.state.next_origin_id();
    assert!(c.state.data.room_for(count));
    assert!(c.subscribe().queue(origin_id, &tracks, count).is_ok());
    origin_id
}

fn envelope(e: &EventEnvelope) -> String {
    let event = match &e.event {
        Event::NowPlaying { queue_id, track } => format!("NowPlaying {queue_id} {}", track.id),
        Event::DownloadError { track, err } => format!("Error {}: {}", track.id, err.message()),
        Event::TracksQueued { tracks } => tracks
            .iter()
            .map(|t| format!("{}={}", t.queue_id, t.track.id))
            .collect::<Vec<_>>()
            .join(" "),
        other => format!("{other:?}"),
    };
    format!("{event} for {}", e.origin_id)
}

fn told(actions: &Vec<Action>) -> String {
    actions
        .iter()
        .map(|a| match a {
            Action::Broadcast(e) => envelope(e),
            Action::Queue { origin_id, id, path } => format!("queue {id} {path} for {origin_id}"),
            Action::Unclaim { track_id } => format!("unclaim {track_id}"),
        })
        .collect::<Vec<_>>()
        .join(", ")
}

fn player(c: &mut Controller, e: PlayerEvent) -> String {
    assert!(c.state.can_handle_player_event(e));
    match c.state.handle_player_event(9, e, Ok(())) {
        Ok(actions) => told(&actions),
        Err(_) => panic!("not handled"),
    }
}

fn acquired(c: &mut Controller, id: &str) -> String {
    let e = ManagerEvent::Acquired { id: id.to_owned() };
    assert!(c.state.can_handle_track_manager_event(&e));
    told(&c.state.handle_track_manager_event(e))
}

fn listing(c: &mut Controller) -> String {
    c.subscribe()
        .view()
        .iter()
        .iter()
        .map(|i| {
            let state = match i.state {
                QueuedTrackState::NotReady => 'x',
                QueuedTrackState::Downloaded => 'd',
                QueuedTrackState::SentToPlayer => 's',
            };
            format!("{}{}{}", i.queue_id, state, i.track.id)
        })
        .collect::<Vec<_>>()
        .join(" ")
}

#[test]
fn requests_are_numbered() {
    let mut c = controller(false);
    let calls = vec![
        c.subscribe().play(),
        c.subscribe().pause(),
        c.subscribe().play_toggle(),
        c.subscribe().stop(),
        c.subscribe().skip(),
        c.subscribe().mute(),
        c.subscribe().unmute(),
        c.subscribe().mute_toggle(),
        c.subscribe().set_volume(5),
        c.subscribe().increase_volume(),
        c.subscribe().decrease_volume(),
    ];
    let requests: Vec<String> = calls.iter().map(|c| format!("{:?}", c.request)).collect();
    assert_eq!(
        requests.join(" "),
        "Play Pause PlayToggle Stop Skip Mute Unmute MuteToggle SetVolume { level: 5 } \
         IncreaseVolume DecreaseVolume"
    );
    let ids: Vec<usize> = calls.iter().map(|c| c.origin_id).collect();
    assert_eq!(ids, (0..11).collect::<Vec<usize>>());
    let status = c.subscribe().ask_status();
    assert_eq!(status.origin_id, usize::MAX);
    assert!(matches!(status.request, PlayerRequest::Status));
    assert_eq!(c.state.origin_id_counter, 11);
}

#[test]
fn numbers_start_over() {
    let mut c = controller(false);
    c.state.origin_id_counter = usize::MAX;
    assert_eq!(c.subscribe().play().origin_id, usize::MAX);
    assert_eq!(c.subscribe().play().origin_id, 0);
}

#[test]
fn answers_of_the_player() {
    assert!(matches!(PlayerCall::answered(3, Ok(None)), Ok(3)));
    match PlayerCall::answered(3, Err(PlayerError::QueueEmpty)) {
        Err(e) => assert_eq!(e.message(), "player queue is empty"),
        Ok(_) => panic!("no error"),
    }
}

#[test]
fn addresses_are_checked() {
    let mut c = controller(false);
    let urls = vec![url("https://youtu.be/a")];
    assert!(matches!(c.subscribe().resolve(urls), Ok(YoutubeRequest::Resolve(u)) if u.len() == 1));
    match c.subscribe().resolve(vec![url("https://a.b/")]) {
        Err(Error::Youtube(YoutubeError::InvalidUrl(u))) => assert_eq!(u.as_str(), "https://a.b/"),
        _ => panic!("no error"),
    }
}

#[test]
fn errors_in_finding_tracks() {
    let mut c = controller(false);
    let r = c.subscribe().resolved(Err(YoutubeError::Channel(ChannelError)));
    assert!(matches!(r, Err(Error::Channel(_))));
    let r = c.subscribe().resolved(Err(YoutubeError::UnknownObject("o".to_owned())));
    match r {
        Err(e @ Error::Youtube(_)) => assert_eq!(e.message(), "Unknown youtube object: o"),
        _ => panic!("no error"),
    }
    assert!(matches!(c.subscribe().resolved(Ok(vec![track("a")])), Ok(t) if t.len() == 1));
    assert_eq!(Error::Channel(ChannelError).message(), "channel error");
}

#[test]
fn tracks_are_queued_in_order() {
    let mut c = controller(true);
    let origin_id = c.state.next_origin_id();
    let tracks = vec![track("a"), track("b")];
    let queued = match c.subscribe().queue(origin_id, &tracks, 2) {
        Ok(queued) => queued,
        Err(_) => panic!("not queued"),
    };
    assert!(queued.play);
    assert_eq!(envelope(&queued.envelope), "1=a 2=b for 0");
    let origin_id = c.state.next_origin_id();
    let queued = match c.subscribe().queue(origin_id, &vec![track("a")], 1) {
        Ok(queued) => queued,
        Err(_) => panic!("not queued"),
    };
    assert!(!queued.play);
    assert_eq!(envelope(&queued.envelope), "3=a for 1");
    assert_eq!(listing(&mut c), "1xa 2xb 3xa");
    assert_eq!(c.state.data.len(), 3);
}

#[test]
fn nothing_plays_by_itself_unless_asked_to() {
    let mut c = controller(false);
    match c.subscribe().queue(0, &vec![track("a")], 1) {
        Ok(queued) => assert!(!queued.play),
        Err(_) => panic!("not queued"),
    }
}

#[test]
fn every_track_is_claimed_once_for_each_place() {
    let tracks = vec![track("a"), track("b"), track("a")];
    let told: Vec<String> = claims(7, &tracks)
        .iter()
        .map(|r| match r {
            ManagerRequest::Claim { origin_id, id } => format!("{id} for {origin_id}"),
            other => format!("{other:?}"),
        })
        .collect();
    assert_eq!(told, vec!["a for 7", "b for 7", "a for 7"]);
    let mut data = Data::default();
    match data.queue(7, &tracks, told.len()) {
        Ok(queued) => {
            let ids: Vec<usize> = queued.iter().map(|q| q.queue_id).collect();
            assert_eq!(ids, vec![1, 2, 3]);
        }
        Err(_) => panic!("not queued"),
    }
    assert_eq!(data.queue.len(), 3);
    assert!(data.knows_track("a") && data.knows_track("b"));
    assert!(claims(7, &vec![]).is_empty());
}

#[test]
fn the_track_manager_is_cleared_when_the_player_stops() {
    assert!(matches!(
        before_player_event(PlayerEvent::PlaybackStopped),
        Some(ManagerRequest::Clear)
    ));
    let others = [
        PlayerEvent::PlaybackStarted,
        PlayerEvent::PlaybackPaused,
        PlayerEvent::Muted,
        PlayerEvent::Unmuted,
        PlayerEvent::Volume(1),
        PlayerEvent::TrackAdded(1),
        PlayerEvent::TrackStarted(1),
        PlayerEvent::TrackFinished(1),
    ];
    assert!(others.iter().all(|e| before_player_event(*e).is_none()));
}

#[test]
fn requests_say_whether_the_queue_waits() {
    let mut c = controller(false);
    assert!(!c.subscribe().stop().queue_waits);
    queue(&mut c, &["a"]);
    assert!(c.subscribe().stop().queue_waits);
}

#[test]
fn a_lost_track_manager_is_an_error() {
    let mut c = controller(true);
    let tracks = vec![track("a"), track("b"), track("c")];
    let r = c.subscribe().queue(0, &tracks, 1);
    assert!(matches!(r, Err(Error::Channel(_))));
    assert_eq!(listing(&mut c), "1xa");
}

#[test]
fn events_of_the_player_are_passed_on() {
    let mut c = controller(false);
    assert_eq!(player(&mut c, PlayerEvent::Muted), "Muted for 9");
    assert_eq!(player(&mut c, PlayerEvent::Unmuted), "Unmuted for 9");
    assert_eq!(player(&mut c, PlayerEvent::Volume(4)), "Volume { level: 4 } for 9");
    assert_eq!(player(&mut c, PlayerEvent::PlaybackStarted), "PlaybackStarted for 9");
    assert_eq!(player(&mut c, PlayerEvent::PlaybackPaused), "PlaybackPaused for 9");
    assert_eq!(player(&mut c, PlayerEvent::PlaybackStopped), "PlaybackStopped for 9");
}

#[test]
fn the_first_track_is_played_when_it_arrives() {
    let mut c = controller(false);
    let origin_id = queue(&mut c, &["a", "b"]);
    assert_eq!(acquired(&mut c, "b"), "");
    assert_eq!(acquired(&mut c, "a"), format!("queue 1 a.mp3 for {origin_id}"));
    assert_eq!(listing(&mut c), "1da 2db");
    assert_eq!(player(&mut c, PlayerEvent::TrackAdded(1)), "");
    assert_eq!(listing(&mut c), "1sa 2db");
    assert_eq!(player(&mut c, PlayerEvent::TrackStarted(1)), "NowPlaying 1 a for 9");
}

#[test]
fn a_finished_track_is_followed() {
    let mut c = controller(false);
    let origin_id = queue(&mut c, &["a", "b", "c"]);
    acquired(&mut c, "a");
    player(&mut c, PlayerEvent::TrackAdded(1));
    acquired(&mut c, "b");
    assert_eq!(
        player(&mut c, PlayerEvent::TrackFinished(1)),
        format!("unclaim a, queue 2 b.mp3 for {origin_id}")
    );
    player(&mut c, PlayerEvent::TrackAdded(2));
    assert_eq!(
        player(&mut c, PlayerEvent::TrackFinished(2)),
        "unclaim b, WaitingForDownload for 9"
    );
    assert_eq!(acquired(&mut c, "c"), format!("queue 3 c.mp3 for {origin_id}"));
    player(&mut c, PlayerEvent::TrackAdded(3));
    assert_eq!(player(&mut c, PlayerEvent::TrackFinished(3)), "unclaim c, QueueFinished for 9");
    assert_eq!(listing(&mut c), "");
    assert_eq!(player(&mut c, PlayerEvent::TrackFinished(3)), "QueueFinished for 9");
}

#[test]
fn what_the_player_has_is_not_asked_for_again() {
    let mut c = controller(false);
    queue(&mut c, &["a", "b"]);
    acquired(&mut c, "a");
    acquired(&mut c, "b");
    player(&mut c, PlayerEvent::TrackAdded(1));
    player(&mut c, PlayerEvent::TrackAdded(2));
    assert_eq!(player(&mut c, PlayerEvent::TrackFinished(1)), "unclaim a");
    assert_eq!(acquired(&mut c, "b"), "");
}

#[test]
fn a_track_that_cannot_be_had_leaves() {
    let mut c = controller(false);
    queue(&mut c, &["a", "b", "a"]);
    let e = YoutubeError::UnknownObject("o".to_owned());
    let e = ManagerEvent::Removed { id: "a".to_owned(), e: Some((3, e)) };
    assert_eq!(
        told(&c.state.handle_track_manager_event(e)),
        "Error a: Unknown youtube object: o for 3"
    );
    assert_eq!(listing(&mut c), "2xb");
    assert!(!c.state.data.knows_track("a"));
    let e = ManagerEvent::Acquired { id: "a".to_owned() };
    assert!(!c.state.can_handle_track_manager_event(&e));
}

#[test]
fn a_track_can_become_unready() {
    let mut c = controller(false);
    queue(&mut c, &["a", "b"]);
    acquired(&mut c, "b");
    assert_eq!(listing(&mut c), "1xa 2db");
    let e = ManagerEvent::Removed { id: "b".to_owned(), e: None };
    assert_eq!(told(&c.state.handle_track_manager_event(e)), "");
    assert_eq!(listing(&mut c), "1xa 2xb");
}

#[test]
fn a_known_track_keeps_what_is_known() {
    let mut c = controller(false);
    queue(&mut c, &["x", "a"]);
    acquired(&mut c, "a");
    queue(&mut c, &["a"]);
    assert_eq!(listing(&mut c), "1xx 2da 3da");
}

#[test]
fn stopping_starts_over() {
    let mut c = controller(false);
    queue(&mut c, &["a", "b"]);
    assert_eq!(player(&mut c, PlayerEvent::PlaybackStopped), "PlaybackStopped for 9");
    assert_eq!(listing(&mut c), "");
    assert!(!c.state.data.knows_track("a"));
    queue(&mut c, &["c"]);
    assert_eq!(listing(&mut c), "1xc");
}

#[test]
fn stopping_needs_the_track_manager() {
    let mut c = controller(false);
    queue(&mut c, &["a"]);
    let r = c.state.handle_player_event(9, PlayerEvent::PlaybackStopped, Err(ChannelError));
    assert!(r.is_err());
    assert_eq!(listing(&mut c), "1xa");
    let r = c.state.handle_player_event(9, PlayerEvent::Muted, Err(ChannelError));
    assert!(r.is_ok());
}

#[test]
fn events_of_unknown_places_are_not_handled() {
    let mut c = controller(false);
    queue(&mut c, &["a"]);
    assert!(c.state.can_handle_player_event(PlayerEvent::TrackAdded(1)));
    assert!(!c.state.can_handle_player_event(PlayerEvent::TrackAdded(2)));
    assert!(!c.state.can_handle_player_event(PlayerEvent::TrackStarted(2)));
    assert!(c.state.can_handle_player_event(PlayerEvent::TrackFinished(2)));
}

#[test]
fn status_of_the_queue() {
    let mut c = controller(false);
    queue(&mut c, &["a", "b"]);
    let idle = PlayerStatus { is_paused: true, is_muted: false, length: 0, volume_level: 20 };
    let status = c.subscribe().status(idle);
    assert_eq!((status.length, status.now_playing.is_some()), (2, false));
    assert!(status.is_paused);
    acquired(&mut c, "a");
    player(&mut c, PlayerEvent::TrackAdded(1));
    let busy = PlayerStatus { is_paused: false, is_muted: true, length: 1, volume_level: 3 };
    let status = c.subscribe().status(busy);
    assert_eq!(status.length, 1);
    assert!(matches!(status.now_playing, Some(t) if t.id == "a"));
    assert_eq!((status.is_paused, status.is_muted, status.volume_level), (false, true, 3));
}

#[test]
fn state_of_the_first_track() {
    let mut c = controller(false);
    assert_eq!(c.state.data.first_track_state(), None);
    queue(&mut c, &["a"]);
    assert_eq!(c.state.data.first_track_state(), Some(QueuedTrackState::NotReady));
    acquired(&mut c, "a");
    assert_eq!(c.state.data.first_track_state(), Some(QueuedTrackState::Downloaded));
    player(&mut c, PlayerEvent::TrackAdded(1));
    assert_eq!(c.state.data.first_track_state(), Some(QueuedTrackState::SentToPlayer));
}

#[test]
fn state_of_a_place() {
    let mut c = controller(false);
    queue(&mut c, &["a"]);
    let data = &c.state.data;
    let place = |id: &str, sent_to_player: bool| QueueData {
        track_id: id.to_owned(),
        sent_to_player,
        origin_id: 0,
    };
    let given = TrackData { meta: track("x"), downloaded: true };
    assert_eq!(data.get_track_state(&place("a", false), None), QueuedTrackState::NotReady);
    assert_eq!(
        data.get_track_state(&place("a", false), Some(&given)),
        QueuedTrackState::Downloaded
    );
    assert_eq!(
        data.get_track_state(&place("y", false), Some(&given)),
        QueuedTrackState::Downloaded
    );
    assert_eq!(data.get_track_state(&place("y", true), None), QueuedTrackState::SentToPlayer);
    assert_eq!(
        data.get_track_state(&place("a", true), Some(&given)),
        QueuedTrackState::SentToPlayer
    );
}

#[test]
fn the_first_of_two_tracks_is_kept() {
    let mut data = Data::default();
    let mut other = track("a");
    other.title = "another".to_owned();
    assert!(data.queue(0, &vec![track("a"), other], 2).is_ok());
    assert!(data.iter().iter().all(|i| i.track.title == "title of a"));
    assert!(data.stop(Err(ChannelError)).is_err());
    assert_eq!(data.len(), 2);
    assert!(data.stop(Ok(())).is_ok());
    assert_eq!(data.len(), 0);
    match data.queue(0, &vec![track("b"), track("c")], 2) {
        Ok(queued) => assert_eq!((queued[0].queue_id, queued[1].queue_id), (1, 2)),
        Err(_) => panic!("not queued"),
    }
}

#[test]
fn claims_and_places_stay_in_step() {
    let mut c = controller(false);
    let mut m = music_bot::track_manager::TrackManager::new(4);
    let origin_id = queue(&mut c, &["a", "a"]);
    m.claim(origin_id, "a".to_owned());
    m.claim(origin_id, "a".to_owned());
    m.download_finished("a".to_owned(), "a.mp3".to_owned());
    acquired(&mut c, "a");
    for id in [1, 2] {
        player(&mut c, PlayerEvent::TrackAdded(id));
        assert!(player(&mut c, PlayerEvent::TrackFinished(id)).starts_with("unclaim a"));
        m.unclaim("a".to_owned());
        acquired(&mut c, "a");
        assert_eq!(m.knows("a"), id == 1);
    }
}
