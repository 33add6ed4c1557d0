use music_bot::bot;
use music_bot::cli::{
    Cli, DEFAULT_BOT_REQUEST_MAX_DURATION_S, DEFAULT_DOWNLOAD_DIR, DEFAULT_TRACK_CACHE_SIZE,
    DEFAULT_YOUTUBE_DOWNLOAD_TIMEOUT_S, DEFAULT_YOUTUBE_WORKERS,
};
use music_bot::controller::{
    Controller, Error as ControllerError, Event, QueuedTrack, Settings as ControllerSettings,
    Status,
};
use music_bot::player::{
    Effect, Error as PlayerError, Event as PlayerEvent, Request as PlayerRequest, SinkState, Worker,
};
use music_bot::telegram::defs::{REQUEST_STORAGE_CAPACITY, TRACKS_IN_MESSAGE};
use music_bot::telegram::dispatch::{
    can_filter, dialogue_after, error, filter_tracks, queue_plan, schema, search_error, show,
    Command, Endpoint, QueuePlan,
};
use music_bot::telegram::display::{paginate, DurationFmt, StatusFmt, TrackFmt};
use music_bot::telegram::state::{
    format_event, DialogueData, Handler, ReplyTo, RequestEntry, Settings, State,
};
use music_bot::track_manager::Event as ManagerEvent;
use music_bot::util::channel::ChannelError;
use music_bot::util::link::Url;
use music_bot::util::parse::{ArgumentList, VolumeCommand};
use music_bot::youtube::{Error as YoutubeError, Track};

fn link(s: &str) -> Url {
    match Url::parse(s) {
        Ok(url) => url,
        Err(e) => panic!("{}", e.message),
    }
}

fn tune(id: &str, duration: u64, is_music_track: bool) -> Track {
    Track {
        id: id.to_owned(),
        title: id.to_owned(),
        artist: vec![],
        webpage_url: link("https://youtu.be/x"),
        duration,
        is_music_track,
        path: format!("{id}.mp3"),
    }
}

fn ids(tracks: &Vec<Track>) -> String {
    tracks.iter().map(|t| t.id.clone()).collect::<Vec<_>>().join(" ")
}

fn status() -> Status {
    Status { is_paused: true, is_muted: true, volume_level: 7, length: 3, now_playing: None }
}

#[test]
fn durations_are_written() {
    assert_eq!(DurationFmt(0).fmt(), "0:00");
    assert_eq!(DurationFmt(59).fmt(), "0:59");
    assert_eq!(DurationFmt(60).fmt(), "1:00");
    assert_eq!(DurationFmt(3605).fmt(), "60:05");
}

#[test]
fn tracks_are_links() {
    let mut track = tune("a", 65, true);
    track.title = "Song (live) v1.0_*[x]!".to_owned();
    track.artist = vec!["A-B".to_owned(), "C".to_owned()];
    track.webpage_url = link("https://youtu.be/a_(b)?c=`d");
    assert_eq!(
        TrackFmt(&track).fmt(),
        "[A\\-B \\- Song \\(live\\) v1\\.0\\_\\*\\[x\\]\\!](https://youtu.be/a_(b\\)?c=\\`d) 1:05"
    );
    track.artist = vec![];
    track.title = "a\\b ~`>#+-=|{}".to_owned();
    assert_eq!(
        TrackFmt(&track).fmt(),
        "[a\\b \\~\\`\\>\\#\\+\\-\\=\\|\\{\\}](https://youtu.be/a_(b\\)?c=\\`d) 1:05"
    );
}

#[test]
fn no_markup_is_left_in_a_title() {
    let mut track = tune("a", 1, true);
    let markup = "_*[]()~`>#+-=|{}.!";
    track.title = format!("x{markup}y{markup}");
    let text = TrackFmt(&track).fmt();
    let title = &text[1..text.find("](").unwrap()];
    let chars: Vec<char> = title.chars().collect();
    for (i, c) in chars.iter().enumerate() {
        assert!(!markup.contains(*c) || chars[i - 1] == '\\');
    }
    assert_eq!(title.replace('\\', ""), track.title);
}

#[test]
fn the_state_of_the_player_is_written() {
    let mut status = status();
    assert_eq!(StatusFmt(&status).fmt(), "⏸️ : 🔇  7 : 3 треков в очереди");
    status.is_paused = false;
    status.is_muted = false;
    status.volume_level = 20;
    status.now_playing = Some(tune("a", 1, true));
    assert_eq!(
        StatusFmt(&status).fmt(),
        "▶️ : 🔊 20 : 3 треков в очереди\n🎷 [a](https://youtu.be/x) 0:01"
    );
    assert_eq!(bot::StatusFmt(&status).fmt(), "▶️ : 🔊 20 : 3 треков в очереди");
}

#[test]
fn lines_are_spread_over_messages() {
    let lines = |n: usize| (0..n).map(|i| format!("{i}\n")).collect::<Vec<String>>();
    assert!(paginate(String::new(), &lines(0)).is_empty());
    assert_eq!(paginate("h".to_owned(), &lines(0)), vec!["h".to_owned()]);
    for n in [1, 19, 20, 21, 40, 41] {
        let pages = paginate("h\n".to_owned(), &lines(n));
        assert_eq!(pages.len(), (n + 19) / 20);
        assert_eq!(pages.concat(), format!("h\n{}", lines(n).concat()));
        assert!(pages[0].starts_with("h\n0\n"));
        assert!(pages.iter().skip(1).all(|p| p.lines().count() <= TRACKS_IN_MESSAGE));
    }
    assert_eq!(paginate(String::new(), &lines(40)).len(), 2);
}

fn one(e: Event) -> String {
    let (messages, reply_to) = format_event(&e, Some((1, 2)));
    assert_eq!(messages.len(), 1);
    assert_eq!(reply_to, None);
    messages[0].clone()
}

#[test]
fn events_are_written() {
    assert_eq!(one(Event::PlaybackStarted), "▶️ Плеер запущен");
    assert_eq!(one(Event::PlaybackPaused), "⏸️ Плеер на паузе");
    assert_eq!(one(Event::PlaybackStopped), "⏹️ Плеер остановлен");
    assert_eq!(one(Event::QueueFinished), "⏏️ Треки закончились");
    assert_eq!(one(Event::WaitingForDownload), "🗿 Ждем загрузки трека");
    assert_eq!(one(Event::Muted), "🔇 Без звука");
    assert_eq!(one(Event::Unmuted), "🔊 Со звуком");
    assert_eq!(one(Event::Volume { level: 5 }), "🔊  5\n");
    assert_eq!(
        one(Event::NowPlaying { queue_id: 1, track: tune("a", 1, true) }),
        "🎷 [a](https://youtu.be/x) 0:01\n"
    );
}

#[test]
fn queued_tracks_are_written() {
    let tracks = |n: usize| {
        (0..n)
            .map(|i| QueuedTrack { queue_id: i + 1, track: tune("a", 1, true) })
            .collect::<Vec<QueuedTrack>>()
    };
    assert_eq!(
        one(Event::TracksQueued { tracks: tracks(1) }),
        "⚡ Добавлены треки\n\n\\( 1\\) [a](https://youtu.be/x) 0:01\n"
    );
    assert_eq!(one(Event::TracksQueued { tracks: vec![] }), "⚡ Добавлены треки\n\n");
    let (messages, _) = format_event(&Event::TracksQueued { tracks: tracks(21) }, None);
    assert_eq!(messages.len(), 2);
    assert_eq!(messages[1], "\\(21\\) [a](https://youtu.be/x) 0:01\n");
}

fn download_error() -> Event {
    Event::DownloadError {
        track: tune("a", 1, true),
        err: YoutubeError::Other("u".to_owned(), "no.".to_owned()),
    }
}

#[test]
fn download_errors_are_answers() {
    let (messages, reply_to) = format_event(&download_error(), Some((1, 2)));
    assert_eq!(
        messages,
        vec!["❗ Ошибка загрузки\\: Error for url u: no\\.\n[a](https://youtu.be/x) 0:01\n"]
    );
    assert_eq!(reply_to, Some(ReplyTo { chat_id: 1, message_id: 2 }));
    assert_eq!(format_event(&download_error(), None).1, None);
}

#[test]
fn chats_come_and_go() {
    let settings = Settings { max_request_duration: 10, only_music_tracks: true };
    let mut state = State::new(settings);
    assert_eq!(state.settings(), &settings);
    assert!(state.subscribers().is_empty());
    state.subscribe(5);
    state.subscribe(-6);
    state.subscribe(5);
    let mut chats = state.subscribers();
    chats.sort_unstable();
    assert_eq!(chats, vec![-6, 5]);
    state.unsubscribe(5);
    state.unsubscribe(5);
    assert_eq!(state.subscribers(), vec![-6]);
}

#[test]
fn requests_that_fail_are_not_remembered() {
    let state = State::new(Settings { max_request_duration: 10, only_music_tracks: true });
    match state.request(1, 2, Ok(3)) {
        Ok(entry) => assert_eq!((entry.origin_id, entry.data), (3, (1, 2))),
        Err(_) => panic!("not remembered"),
    }
    let failed = state.request(1, 2, Err(ControllerError::Channel(ChannelError)));
    assert!(matches!(failed, Err(ControllerError::Channel(_))));
}

#[test]
fn everybody_is_told_of_events() {
    let mut handler = Handler::new();
    let sent = handler.handle(1, &Event::Muted, &vec![5, -6]);
    let sent: Vec<String> =
        sent.iter().map(|m| format!("{} {:?} {}", m.chat_id, m.reply_to, m.text)).collect();
    assert_eq!(sent, vec!["5 None 🔇 Без звука", "-6 None 🔇 Без звука"]);
    assert!(handler.handle(1, &Event::Muted, &vec![]).is_empty());
}

#[test]
fn whoever_asked_is_answered_once() {
    let mut handler = Handler::new();
    handler.remember(RequestEntry { origin_id: 1, data: (7, 8) });
    let sent = handler.handle(1, &download_error(), &vec![5, 6]);
    assert_eq!(sent.len(), 1);
    assert_eq!((sent[0].chat_id, sent[0].reply_to), (7, Some(8)));
    let sent = handler.handle(1, &download_error(), &vec![5, 6]);
    assert_eq!(sent.len(), 2);
    assert!(sent.iter().all(|m| m.reply_to.is_none()));
}

#[test]
fn the_oldest_requests_are_forgotten() {
    let mut handler = Handler::new();
    for origin_id in 0..REQUEST_STORAGE_CAPACITY {
        handler.remember(RequestEntry { origin_id, data: (1, 1) });
    }
    handler.remember(RequestEntry { origin_id: 0, data: (2, 2) });
    handler.remember(RequestEntry { origin_id: REQUEST_STORAGE_CAPACITY, data: (3, 3) });
    let mut answered = |origin_id: usize| handler.handle(origin_id, &download_error(), &vec![]);
    assert!(answered(1).is_empty());
    assert_eq!(answered(2)[0].chat_id, 1);
    assert_eq!(answered(0)[0].chat_id, 2);
    assert_eq!(answered(REQUEST_STORAGE_CAPACITY)[0].chat_id, 3);
}

fn endpoint(dialogue: DialogueData, command: Command) -> String {
    format!("{:?}", schema(dialogue, Some(command)))
}

#[test]
fn commands_where_the_bot_does_not_run() {
    assert_eq!(DialogueData::default(), DialogueData::Start);
    assert_eq!(endpoint(DialogueData::Start, Command::Start), "Start");
    assert_eq!(endpoint(DialogueData::Start, Command::Help), "Help");
    assert_eq!(endpoint(DialogueData::Start, Command::Stop), "Unknown");
    assert_eq!(endpoint(DialogueData::Start, Command::Play), "Unknown");
    assert_eq!(endpoint(DialogueData::Start, Command::Show), "Unknown");
}

#[test]
fn commands_where_the_bot_runs() {
    let run = |command| endpoint(DialogueData::Run, command);
    assert_eq!(run(Command::Start), "Unknown");
    assert_eq!(run(Command::Stop), "Stop");
    assert_eq!(run(Command::Help), "Help");
    assert_eq!(run(Command::Play), "Ask(Play)");
    assert_eq!(run(Command::Pause), "Ask(Pause)");
    assert_eq!(run(Command::PlayToggle), "Ask(PlayToggle)");
    assert_eq!(run(Command::Clear), "Ask(Stop)");
    assert_eq!(run(Command::Skip), "Ask(Skip)");
    assert_eq!(run(Command::Mute), "Ask(Mute)");
    assert_eq!(run(Command::Unmute), "Ask(Unmute)");
    assert_eq!(run(Command::MuteToggle), "Ask(MuteToggle)");
    assert_eq!(run(Command::Volume { cmd: VolumeCommand::Increase }), "Ask(IncreaseVolume)");
    assert_eq!(run(Command::Volume { cmd: VolumeCommand::Decrease }), "Ask(DecreaseVolume)");
    assert_eq!(
        run(Command::Volume { cmd: VolumeCommand::SetTo(3) }),
        "Ask(SetVolume { level: 3 })"
    );
    assert_eq!(run(Command::Status), "Status");
    assert_eq!(run(Command::Show), "Show");
    let urls = match ArgumentList::from_str("https://youtu.be/a") {
        Ok(urls) => urls,
        Err(_) => panic!("not read"),
    };
    match schema(DialogueData::Run, Some(Command::Queue { urls })) {
        Endpoint::Queue(urls) => assert_eq!(urls[0].as_str(), "https://youtu.be/a"),
        _ => panic!("not queued"),
    }
}

#[test]
fn messages_that_are_no_commands() {
    for dialogue in [DialogueData::Start, DialogueData::Run] {
        assert!(matches!(schema(dialogue, None), Endpoint::Unknown));
    }
}

/// Stops a player that has nothing, and counts the events that this leads to.
fn stop(c: &mut Controller) -> usize {
    let call = c.subscribe().stop();
    let sink = SinkState {
        is_paused: true,
        length: 0,
        track_opened: false,
        queue_waits: call.queue_waits,
    };
    let mut count = 0;
    let outcome = Worker::new().request_handler(sink, call.origin_id, &call.request);
    for effect in outcome.effects {
        if let Effect::Send(told) = effect {
            assert!(c.state.handle_player_event(told.origin_id, told.event, Ok(())).is_ok());
            count += 1;
        }
    }
    count
}

#[test]
fn clear_empties_a_queue_that_waits() {
    let mut c = Controller::new(ControllerSettings { auto_play: false, track_cache_size: 1 });
    assert!(c.subscribe().queue(0, &vec![tune("a", 1, true)], 1).is_ok());
    assert!(matches!(
        schema(DialogueData::Run, Some(Command::Clear)),
        Endpoint::Ask(PlayerRequest::Stop)
    ));
    assert_eq!(stop(&mut c), 1);
    assert_eq!(c.state.data.len(), 0);
    assert!(show(&c.state.data).is_empty());
    assert_eq!(stop(&mut c), 0);
}

#[test]
fn starting_and_stopping_the_bot() {
    assert_eq!(dialogue_after(DialogueData::Start, &Endpoint::Start), DialogueData::Run);
    assert_eq!(dialogue_after(DialogueData::Run, &Endpoint::Stop), DialogueData::Start);
    assert_eq!(dialogue_after(DialogueData::Run, &Endpoint::Show), DialogueData::Run);
    assert_eq!(dialogue_after(DialogueData::Start, &Endpoint::Unknown), DialogueData::Start);
}

#[test]
fn unknown_messages() {
    let text = "Неизвестная команда, наберите /help для вывода справки";
    assert_eq!(error(Some("/dance")), Some(text));
    assert_eq!(error(Some("dance /")), None);
    assert_eq!(error(Some("")), None);
    assert_eq!(error(None), None);
    assert_eq!(bot::ERROR_TEXT, "Uh oh");
}

#[test]
fn errors_in_searching() {
    assert_eq!(
        search_error(&ControllerError::Player(PlayerError::QueueEmpty)),
        "❗ Ошибка поиска: player queue is empty"
    );
}

fn tunes() -> Vec<Track> {
    vec![tune("a", 4, true), tune("b", 3, false), tune("c", 6, true), tune("d", 1, true)]
}

#[test]
fn only_what_fits_is_let_through() {
    let any = Settings { max_request_duration: 13, only_music_tracks: false };
    assert!(can_filter(&tunes(), &any));
    assert_eq!(ids(&filter_tracks(tunes(), &any)), "a b c");
    let any = Settings { max_request_duration: 12, only_music_tracks: false };
    assert_eq!(ids(&filter_tracks(tunes(), &any)), "a b");
    let music = Settings { max_request_duration: 11, only_music_tracks: true };
    assert_eq!(ids(&filter_tracks(tunes(), &music)), "a c d");
    let none = Settings { max_request_duration: 3, only_music_tracks: true };
    assert_eq!(ids(&filter_tracks(tunes(), &none)), "");
    let small = bot::Settings { max_request_duration: 7 };
    assert!(bot::can_filter(&tunes(), &small));
    assert_eq!(ids(&bot::filter_tracks(tunes(), &small)), "a b");
}

#[test]
fn durations_must_add_up() {
    let all = Settings { max_request_duration: u64::MAX, only_music_tracks: false };
    let long = vec![tune("a", u64::MAX, true), tune("b", 1, true)];
    assert!(!can_filter(&long, &all));
    let most = Settings { max_request_duration: u64::MAX - 1, only_music_tracks: false };
    assert!(can_filter(&long, &most));
    assert_eq!(ids(&filter_tracks(long, &most)), "");
}

#[test]
fn what_is_done_with_tracks_that_were_found() {
    let all = Settings { max_request_duration: 100, only_music_tracks: false };
    match queue_plan(tunes(), &all) {
        QueuePlan::Queue(tracks, reply) => {
            assert_eq!((ids(&tracks).as_str(), reply.as_str()), ("a b c d", "OK!"));
        }
        QueuePlan::Refuse(_) => panic!("refused"),
    }
    let music = Settings { max_request_duration: 100, only_music_tracks: true };
    match queue_plan(tunes(), &music) {
        QueuePlan::Queue(tracks, reply) => {
            assert_eq!(ids(&tracks), "a c d");
            assert_eq!(reply, "1 треков было отфильтровано");
        }
        QueuePlan::Refuse(_) => panic!("refused"),
    }
    let none = Settings { max_request_duration: 1, only_music_tracks: false };
    match queue_plan(tunes(), &none) {
        QueuePlan::Refuse(reply) => assert_eq!(reply, "Все треки были отфильтрованы"),
        QueuePlan::Queue(_, _) => panic!("not refused"),
    }
}

#[test]
fn the_queue_is_shown() {
    let mut c = Controller::new(ControllerSettings { auto_play: false, track_cache_size: 1 });
    assert!(show(&c.state.data).is_empty());
    let tracks: Vec<Track> = (0..21).map(|i| tune(&format!("t{i}"), 1, true)).collect();
    assert!(c.subscribe().queue(0, &tracks, 21).is_ok());
    let pages = show(&c.state.data);
    assert_eq!(pages.len(), 2);
    assert!(pages[0].starts_with("\\( 1\\) 🔴 [t0](https://youtu.be/x) 0:01\n\\( 2\\) 🔴 "));
    assert_eq!(pages[1], "\\(21\\) 🔴 [t20](https://youtu.be/x) 0:01\n");
    c.state.handle_track_manager_event(ManagerEvent::Acquired { id: "t0".to_owned() });
    c.state.handle_track_manager_event(ManagerEvent::Acquired { id: "t1".to_owned() });
    assert!(c.state.handle_player_event(0, PlayerEvent::TrackAdded(1), Ok(())).is_ok());
    let pages = show(&c.state.data);
    assert!(pages[0].starts_with("\\(🎷\\) 🟢 [t0](https://youtu.be/x) 0:01\n\\( 1\\) 🟡 [t1]"));
    assert!(pages[1].starts_with("\\(20\\) 🔴 [t20]"));
}

#[test]
fn the_smaller_bot_remembers_too() {
    let mut state = bot::StateData::default();
    state.subscribe(5);
    state.subscribe(6);
    state.unsubscribe(6);
    state.request(1, (7, 8));
    let sent = state.notification_handler(1, &download_error());
    assert_eq!((sent[0].chat_id, sent[0].reply_to), (7, Some(8)));
    let sent = state.notification_handler(1, &download_error());
    assert_eq!((sent[0].chat_id, sent[0].reply_to), (5, None));
}

#[test]
fn defaults_of_the_command_line() {
    assert_eq!(DEFAULT_DOWNLOAD_DIR, "data");
    assert_eq!(DEFAULT_YOUTUBE_WORKERS, 2);
    assert_eq!(DEFAULT_YOUTUBE_DOWNLOAD_TIMEOUT_S, 30);
    assert_eq!(DEFAULT_TRACK_CACHE_SIZE, 4);
    assert_eq!(DEFAULT_BOT_REQUEST_MAX_DURATION_S, 3600);
}

#[test]
fn settings_come_from_the_command_line() {
    let cli = Cli {
        download_dir: "data".to_owned(),
        unix_socket_path: None,
        telegram_bot_token: None,
        youtube_workers: 2,
        youtube_download_timeout_s: 30,
        workers: 1,
        track_cache_size: 4,
        auto_play: true,
        bot_request_max_duration_s: 3600,
        bot_only_music_tracks: true,
    };
    assert_eq!(
        cli.controller_settings(),
        ControllerSettings { auto_play: true, track_cache_size: 4 }
    );
    assert_eq!(
        cli.bot_settings(),
        Settings { max_request_duration: 3600, only_music_tracks: true }
    );
    assert_eq!(
        cli.youtube_settings(),
        music_bot::youtube::Settings { jobs: 2, download_timeout: 30 }
    );
}
