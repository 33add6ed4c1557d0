use music_bot::util::channel::ChannelError;
use music_bot::util::link::Url;
use music_bot::youtube::{
    make_youtube_url, Call, Error, ErrorRaw, Request, Settings, Track, TrackRaw, Worker, Youtube,
};

fn url(s: &str) -> Url {
    match Url::parse(s) {
        Ok(url) => url,
        Err(e) => panic!("{}", e.message),
    }
}

fn raw(id: &str, page: &str) -> TrackRaw {
    TrackRaw {
        track_id: id.to_owned(),
        title: "Title".to_owned(),
        artist: vec!["A".to_owned(), "B".to_owned()],
        webpage_url: page.to_owned(),
        duration_s: 61,
        is_music_track: true,
        path: "/tmp/a.mp3".to_owned(),
    }
}

#[test]
fn known_hosts_are_asked() {
    let urls = vec![
        url("https://youtu.be/a"),
        url("https://youtube.com/watch?v=b"),
        url("https://www.youtube.com/watch?v=c"),
    ];
    match Youtube.resolve(urls) {
        Ok(Request::Resolve(urls)) => {
            assert_eq!(urls.len(), 3);
            assert_eq!(urls[0].as_str(), "https://youtu.be/a");
        }
        _ => panic!("not asked"),
    }
}

#[test]
fn the_first_unknown_host_is_the_error() {
    let urls = vec![
        url("https://youtu.be/a"),
        url("https://m.youtube.com/b"),
        url("https://example.com/"),
    ];
    match Youtube.resolve(urls) {
        Err(Error::InvalidUrl(url)) => assert_eq!(url.as_str(), "https://m.youtube.com/b"),
        _ => panic!("no error"),
    }
}

#[test]
fn an_address_without_a_host_is_an_error() {
    match Youtube.resolve(vec![url("mailto:a@youtube.com")]) {
        Err(e) => assert_eq!(e.message(), "Invalid url: mailto:a@youtube.com"),
        Ok(_) => panic!("no error"),
    }
}

#[test]
fn pages_of_tracks() {
    assert_eq!(make_youtube_url("dQw4w9WgXcQ").as_str(), "https://www.youtube.com/watch?v=dQw4w9WgXcQ");
    assert_eq!(make_youtube_url("a b&c").as_str(), "https://www.youtube.com/watch?v=a+b%26c");
    assert_eq!(make_youtube_url("ж").as_str(), "https://www.youtube.com/watch?v=%D0%B6");
    assert_eq!(make_youtube_url("*-._~").as_str(), "https://www.youtube.com/watch?v=*-._%7E");
    assert_eq!(make_youtube_url("").as_str(), "https://www.youtube.com/watch?v=");
}

#[test]
fn pages_are_those_of_the_url_crate() {
    for id in ["abc", "a b", "é%+", "/?#", "\u{1F3B7}", "\n"] {
        let mut page = url::Url::parse("https://www.youtube.com/watch").unwrap();
        page.query_pairs_mut().append_pair("v", id);
        let ours = make_youtube_url(id);
        assert_eq!(ours.as_str(), page.as_str());
        assert_eq!(ours.host_str(), page.host_str());
    }
}

#[test]
fn pages_differ_and_are_known() {
    let ids = ["a", "b", "a b", "a+b", "a%20b", "", "ж"];
    for (i, a) in ids.iter().enumerate() {
        for (j, b) in ids.iter().enumerate() {
            assert_eq!(make_youtube_url(a).as_str() == make_youtube_url(b).as_str(), i == j);
        }
        assert!(Youtube.resolve(vec![make_youtube_url(a)]).is_ok());
    }
}

#[test]
fn downloads_ask_for_the_page() {
    match Youtube.download_by_id("x_y") {
        Request::Download(url) => {
            assert_eq!(url.as_str(), "https://www.youtube.com/watch?v=x_y");
        }
        Request::Resolve(_) => panic!("no download"),
    }
}

#[test]
fn requests_become_calls() {
    let call = Worker.request_handler(&Request::Resolve(vec![url("https://youtu.be/a")]));
    assert_eq!(call.method(), "resolve");
    assert!(matches!(call, Call::Resolve(list) if list == vec!["https://youtu.be/a".to_owned()]));
    let call = Worker.request_handler(&Request::Download(url("https://youtu.be/b")));
    assert_eq!(call.method(), "download");
    assert!(matches!(call, Call::Download(address) if address == "https://youtu.be/b"));
}

#[test]
fn tracks_are_described() {
    let track = match Track::from_raw(raw("id", "https://youtu.be/id")) {
        Some(track) => track,
        None => panic!("no track"),
    };
    assert_eq!(track.id, "id");
    assert_eq!(track.title, "Title");
    assert_eq!(track.artist, vec!["A".to_owned(), "B".to_owned()]);
    assert_eq!(track.webpage_url.as_str(), "https://youtu.be/id");
    assert_eq!(track.duration, 61);
    assert!(track.is_music_track);
    assert_eq!(track.path, "/tmp/a.mp3");
    assert_eq!(format!("{:?}", track.clone()), format!("{track:?}"));
}

#[test]
fn all_tracks_need_a_page() {
    let tracks = Worker::map_resolve(vec![
        raw("a", "https://youtu.be/a"),
        raw("b", "https://youtu.be/b"),
    ]);
    let ids: Vec<String> = match tracks {
        Some(tracks) => tracks.into_iter().map(|t| t.id).collect(),
        None => panic!("no tracks"),
    };
    assert_eq!(ids, vec!["a".to_owned(), "b".to_owned()]);
    assert!(Worker::map_resolve(vec![raw("a", "https://youtu.be/a"), raw("b", "b")]).is_none());
    assert!(Track::from_raw(raw("b", "")).is_none());
}

#[test]
fn an_unknown_object_is_an_error() {
    let e = Error::from_raw(ErrorRaw { kind: 0, url: "u".to_owned(), message: None });
    assert_eq!(e.message(), "Unknown youtube object: u");
}

#[test]
fn the_front_of_a_message_is_left_out() {
    let e = Error::from_raw(ErrorRaw {
        kind: 1,
        url: "u".to_owned(),
        message: Some("ERROR: [youtube] abc: Video unavailable".to_owned()),
    });
    assert_eq!(e.message(), "Error for url u: abc: Video unavailable");
    assert!(matches!(&e, Error::Other(_, m) if m == "abc: Video unavailable"));
}

#[test]
fn a_message_of_another_form_stays() {
    for message in ["Video unavailable", "ERROR: gone", "xERROR: [a] b", "ERROR: [a] b\nc", ""] {
        let e = Error::from_raw(ErrorRaw {
            kind: 1,
            url: "u".to_owned(),
            message: Some(message.to_owned()),
        });
        assert!(matches!(e, Error::Other(_, m) if m == message));
    }
}

#[test]
fn what_is_captured_is_the_message() {
    let raw = |kind| ErrorRaw { kind, url: "u".to_owned(), message: Some("all".to_owned()) };
    let e = Error::with_captured(raw(1), Some("part".to_owned()));
    assert!(matches!(e, Error::Other(_, m) if m == "part"));
    let e = Error::with_captured(raw(1), None);
    assert!(matches!(e, Error::Other(_, m) if m == "all"));
    let e = Error::with_captured(raw(0), Some("part".to_owned()));
    assert!(matches!(e, Error::UnknownObject(u) if u == "u"));
}

#[test]
fn youtube_errors_are_copied() {
    let errors = vec![
        Error::InvalidUrl(url("https://a.b/")),
        Error::UnknownObject("o".to_owned()),
        Error::Other("u".to_owned(), "m".to_owned()),
        Error::Channel(ChannelError),
    ];
    for e in errors {
        assert_eq!(format!("{:?}", e.clone()), format!("{e:?}"));
        assert_eq!(e.clone().message(), e.message());
    }
    assert_eq!(Error::Channel(ChannelError).message(), "channel error");
    let settings = Settings { jobs: 2, download_timeout: 30 };
    assert_eq!(settings, settings.clone());
}
