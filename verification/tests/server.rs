use music_bot::controller::{Controller, Error as ControllerError, Event, QueuedTrack, Settings, Status};
use music_bot::player::{Error as PlayerError, Event as PlayerEvent, Request as PlayerRequest};
use music_bot::server::{
    invalid_url_message, unknown_command, Command, Connection, Error, Reply, SessionEvent, Step,
    TrackFmt, WriteMessage, WriterWorker, FAREWELL, GREETING,
};
use music_bot::track_manager::Event as ManagerEvent;
use music_bot::util::channel::ChannelError;
use music_bot::util::link::Url;
use music_bot::youtube::{Error as YoutubeError, Track};

fn song(id: &str, artist: &[&str]) -> Track {
    let webpage_url = match Url::parse("https://youtu.be/x") {
        Ok(url) => url,
        Err(e) => panic!("{}", e.message),
    };
    Track {
        id: id.to_owned(),
        title: format!("T{id}"),
        artist: artist.iter().map(|a| (*a).to_owned()).collect(),
        webpage_url,
        duration: 60,
        is_music_track: true,
        path: format!("{id}.mp3"),
    }
}

fn asked(line: &str) -> String {
    match Connection::handle_request(line) {
        Ok(Step::Ask(request)) => format!("{request:?}"),
        Ok(step) => format!("step {step:?}"),
        Err(e) => panic!("{}", e.message()),
    }
}

fn failed(line: &str) -> String {
    match Connection::handle_request(line) {
        Ok(_) => panic!("no error"),
        Err(e) => e.message(),
    }
}

#[test]
fn lines_ask_the_player() {
    assert_eq!(asked("play\n"), "Play");
    assert_eq!(asked("pause"), "Pause");
    assert_eq!(asked("play-toggle"), "PlayToggle");
    assert_eq!(asked("p"), "PlayToggle");
    assert_eq!(asked("stop"), "Stop");
    assert_eq!(asked("skip"), "Skip");
    assert_eq!(asked("s"), "Skip");
    assert_eq!(asked("mute"), "Mute");
    assert_eq!(asked("unmute"), "Unmute");
    assert_eq!(asked("mute-toggle"), "MuteToggle");
    assert_eq!(asked("  m  ignored"), "MuteToggle");
}

#[test]
fn lines_that_ask_for_something_else() {
    assert_eq!(asked(""), "step Nothing");
    assert_eq!(asked("  \n"), "step Nothing");
    assert_eq!(asked("exit"), "step Exit");
    assert_eq!(asked("info"), "step Info");
    assert_eq!(asked("i"), "step Info");
    assert_eq!(asked("queue"), "step ListQueue");
    assert_eq!(asked("q"), "step ListQueue");
}

#[test]
fn lines_about_the_volume() {
    assert_eq!(asked("volume +"), "IncreaseVolume");
    assert_eq!(asked("v -"), "DecreaseVolume");
    assert_eq!(asked("v 7 8"), "SetVolume { level: 7 }");
    assert_eq!(asked("v 20"), "SetVolume { level: 20 }");
    assert_eq!(failed("v"), "invalid request: One argument expected +/-/num");
    let wrong = "invalid request: invalid volume level; volume must be between 0 and 10";
    assert_eq!(failed("v 21"), wrong);
    assert_eq!(failed("v 256"), wrong);
    assert_eq!(failed("v x"), wrong);
}

#[test]
fn every_level_can_be_typed() {
    for level in 0..=20u8 {
        assert_eq!(asked(&format!("v {level}")), format!("SetVolume {{ level: {level} }}"));
    }
}

#[test]
fn lines_that_queue_tracks() {
    match Connection::handle_request("q https://youtu.be/a 'https://youtube.com/b'") {
        Ok(Step::Queue(urls)) => {
            let urls: Vec<&str> = urls.iter().map(|u| u.as_str()).collect();
            assert_eq!(urls, vec!["https://youtu.be/a", "https://youtube.com/b"]);
        }
        _ => panic!("not queued"),
    }
    assert_eq!(failed("q https://youtu.be/a b \"c\\\"d\""), "invalid url: \"b\"");
    assert_eq!(failed("q 'c\"d'"), "invalid url: \"c\\\"d\"");
}

#[test]
fn lines_that_cannot_be_read() {
    assert_eq!(
        failed("queue 'a"),
        "invalid request: Unable to parse request: missing closing quote"
    );
    assert_eq!(failed("dance now"), "invalid request: Unknown command \"dance\"");
    assert_eq!(failed("'a\tb'"), "invalid request: Unknown command \"a\\tb\"");
    assert_eq!(failed("''"), "invalid request: Unknown command \"\"");
}

#[test]
fn words_are_handled_without_a_line() {
    let words = vec!["v".to_owned(), "3".to_owned()];
    assert!(matches!(
        Connection::handle_words(words),
        Ok(Step::Ask(PlayerRequest::SetVolume { level: 3 }))
    ));
    assert!(matches!(Connection::handle_words(vec![]), Ok(Step::Nothing)));
    assert!(matches!(Connection::get_command("volume"), Ok(Command::Volume)));
    assert!(Connection::get_command("Volume").is_err());
    assert_eq!(unknown_command("<x>").message(), "invalid request: Unknown command <x>");
    assert_eq!(invalid_url_message("<x>"), "invalid url: <x>");
}

#[test]
fn errors_are_answered() {
    let reply = Connection::handle_error(Error::Player(PlayerError::QueueEmpty));
    assert_eq!(reply.lines, vec!["[x] Player error", "... player queue is empty"]);
    assert!(!reply.stop);
    let reply =
        Connection::handle_error(Error::Youtube(YoutubeError::UnknownObject("o".to_owned())));
    assert_eq!(
        reply.lines,
        vec!["[x] Youtube download error", "... Unknown youtube object: o"]
    );
    assert!(!reply.stop);
    let reply = Connection::handle_error(Error::InvalidRequest("r".to_owned()));
    assert_eq!(reply.lines, vec!["[x] invalid request: r"]);
    assert!(!reply.stop);
    let reply = Connection::handle_error(Error::InvalidYoutubeUrl("u".to_owned()));
    assert_eq!(reply.lines, vec!["[x] invalid url: \"u\""]);
    let reply = Connection::handle_error(Error::Channel(ChannelError));
    assert!(reply.lines.is_empty());
    assert!(reply.stop);
    assert_eq!(Error::Channel(ChannelError).message(), "channel error");
}

#[test]
fn what_came_of_a_line() {
    let reply = Connection::handle_wrapper(Ok(false));
    assert!(reply.lines.is_empty() && !reply.stop);
    let reply = Connection::handle_wrapper(Ok(true));
    assert!(reply.lines.is_empty() && reply.stop);
    let reply = Connection::handle_wrapper(Err(Error::Player(PlayerError::InvalidTrack)));
    assert_eq!(reply.lines, vec!["[x] Player error", "... unable to open track"]);
}

#[test]
fn errors_of_the_controller_are_taken_over() {
    let e = Error::from_controller(ControllerError::Player(PlayerError::QueueEmpty));
    assert!(matches!(e, Error::Player(PlayerError::QueueEmpty)));
    let e = Error::from_controller(ControllerError::Channel(ChannelError));
    assert!(matches!(e, Error::Channel(_)));
    let e = YoutubeError::UnknownObject("o".to_owned());
    assert!(matches!(Error::from_controller(ControllerError::Youtube(e)), Error::Youtube(_)));
}

#[test]
fn the_queue_is_listed() {
    let mut c = Controller::new(Settings { auto_play: false, track_cache_size: 1 });
    assert_eq!(Connection::list_queue_request(&c.state.data), vec!["... Queue is empty"]);
    let mut tracks = vec![song("a", &["A", "B"]), song("b", &[])];
    for i in 2..11 {
        tracks.push(song(&format!("{i}"), &[]));
    }
    assert!(c.subscribe().queue(0, &tracks, tracks.len()).is_ok());
    c.state.handle_track_manager_event(ManagerEvent::Acquired { id: "a".to_owned() });
    c.state.handle_track_manager_event(ManagerEvent::Acquired { id: "b".to_owned() });
    assert!(c.state.handle_player_event(0, PlayerEvent::TrackAdded(1), Ok(())).is_ok());
    let lines = Connection::list_queue_request(&c.state.data);
    assert_eq!(lines.len(), 11);
    assert_eq!(lines[0], "... (* ) [s] A - Ta");
    assert_eq!(lines[1], "... (1 ) [d] Tb");
    assert_eq!(lines[2], "... (2 ) [x] T2");
    assert_eq!(lines[10], "... (10) [x] T10");
    assert_eq!(lines[0], format!("... ({:02}) [{:1}] {}", "*", 's', "A - Ta"));
}

#[test]
fn how_the_player_stands() {
    let mut status = Status {
        is_paused: true,
        is_muted: true,
        volume_level: 5,
        length: 12,
        now_playing: None,
    };
    assert_eq!(Connection::info_request(&status), "... [⏸] muted   5 : 12 in queue");
    status.is_paused = false;
    status.is_muted = false;
    status.volume_level = 20;
    status.length = 0;
    assert_eq!(Connection::info_request(&status), "... [▶️] volume 20 : 0 in queue");
}

#[test]
fn tracks_are_written_with_the_first_artist() {
    assert_eq!(TrackFmt(&song("a", &["A", "B"])).fmt(), "A - Ta");
    assert_eq!(TrackFmt(&song("a", &[])).fmt(), "Ta");
}

#[test]
fn notifications() {
    let text = |e: Event| Connection::handle_notification(&e);
    assert_eq!(text(Event::Muted), "[*] Muted");
    assert_eq!(text(Event::Unmuted), "[*] Unmuted");
    assert_eq!(text(Event::Volume { level: 7 }), "[*] Volume level is 7");
    assert_eq!(text(Event::PlaybackStarted), "[*] Started");
    assert_eq!(text(Event::PlaybackPaused), "[*] Paused");
    assert_eq!(text(Event::PlaybackStopped), "[*] Stopped");
    assert_eq!(text(Event::QueueFinished), "[*] Queue completed");
    assert_eq!(text(Event::WaitingForDownload), "[*] Waiting for track download");
    assert_eq!(
        text(Event::NowPlaying { queue_id: 1, track: song("a", &["A"]) }),
        "[*] Now playing: A - Ta"
    );
    assert_eq!(
        text(Event::DownloadError {
            track: song("a", &[]),
            err: YoutubeError::UnknownObject("o".to_owned()),
        }),
        "[*] Error downloading track Ta: Unknown youtube object: o"
    );
    assert_eq!(
        text(Event::TracksQueued {
            tracks: vec![QueuedTrack { queue_id: 1, track: song("a", &[]) }],
        }),
        "[*] 1 tracks queued"
    );
}

fn written(w: &mut WriterWorker, x: WriteMessage) -> String {
    w.handle(&x).chunks.into_iter().map(|c| c.text).collect()
}

#[test]
fn lines_do_not_go_on_after_a_prompt() {
    let mut w = WriterWorker::new();
    let lines = || WriteMessage::Lines(vec!["a".to_owned(), "b".to_owned()]);
    assert_eq!(written(&mut w, lines()), "a\nb\n");
    assert_eq!(written(&mut w, WriteMessage::SetPrompt), "> ");
    assert_eq!(written(&mut w, lines()), "\na\nb\n");
    assert_eq!(written(&mut w, lines()), "a\nb\n");
    assert_eq!(written(&mut w, WriteMessage::SetPrompt), "> ");
    assert_eq!(written(&mut w, WriteMessage::ClearPrompt), "");
    assert_eq!(written(&mut w, lines()), "a\nb\n");
    assert!(!w.prompt);
}

#[test]
fn the_writer_stops_when_told_to() {
    let mut w = WriterWorker::new();
    assert!(w.handle(&WriteMessage::Exit).stop);
    assert!(!w.handle(&WriteMessage::SetPrompt).stop);
    let output = w.handle(&WriteMessage::Lines(vec!["a".to_owned()]));
    let flushed: Vec<bool> = output.chunks.iter().map(|c| c.flush).collect();
    assert_eq!(flushed, vec![false, true]);
    assert_eq!((GREETING, FAREWELL), ("Hello!", "Bye!"));
}

fn session(e: SessionEvent) -> String {
    format!("{:?}", Connection::serve_requests(e))
}

#[test]
fn a_session_goes_on_until_it_ends() {
    let next = "Write(SetPrompt), Read";
    let end = "Write(Lines([\"Bye!\"])), Write(Exit), End";
    assert_eq!(session(SessionEvent::Opened), format!("[Write(Lines([\"Hello!\"])), {next}]"));
    assert_eq!(
        session(SessionEvent::Line("play\n".to_owned())),
        "[Write(ClearPrompt), Handle(\"play\\n\")]"
    );
    let answered = |lines: Vec<String>, stop| SessionEvent::Answered(Reply { lines, stop });
    assert_eq!(session(answered(vec![], false)), format!("[{next}]"));
    assert_eq!(session(answered(vec![], true)), format!("[{end}]"));
    assert_eq!(
        session(answered(vec!["a".to_owned(), "b".to_owned()], false)),
        format!("[Write(Lines([\"a\", \"b\"])), {next}]")
    );
    assert_eq!(
        session(answered(vec!["a".to_owned()], true)),
        format!("[Write(Lines([\"a\"])), {end}]")
    );
    for e in [SessionEvent::EndOfInput, SessionEvent::Cancelled, SessionEvent::Failed] {
        assert_eq!(session(e), format!("[{end}]"));
    }
}
