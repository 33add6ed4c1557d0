//! Tracks, where they come from, and what can go wrong on the way.

use crate::util::channel::ChannelError;
use crate::util::link::{url_of_text, Url, UrlView};
use crate::util::parse::{texts, texts_of_push};
use crate::util::text::same;
use vstd::prelude::*;
use vstd::utf8::{encode_utf8, encode_utf8_decode_utf8};

verus! {

/// Identifies a track.
pub type TrackId = String;

/// The result of asking for tracks.
pub type Result<T> = core::result::Result<T, Error>;

/// The method that finds out what is behind some addresses.
pub const PYTHON_RESOLVE_METHOD: &'static str = "resolve";

/// The method that downloads what is behind an address.
pub const PYTHON_DOWNLOAD_METHOD: &'static str = "download";

/// The page of every track, but for its identifier.
pub const BASE_URL: &'static str = "https://www.youtube.com/watch";

/// The host of that page.
pub const BASE_HOST: &'static str = "www.youtube.com";

/// How the downloader introduces the text of an error.
pub const ERROR_PATTERN: &'static str = r"^ERROR: \[.*\] (.+)$";

/// How tracks are downloaded.
#[derive(Debug, Clone, Copy, PartialEq, Eq, Structural)]
pub struct Settings {
    /// The number of downloads that may run at the same time.
    pub jobs: usize,
    /// After how many seconds a download is given up.
    pub download_timeout: u64,
}

/// Why tracks cannot be had.
#[derive(Debug)]
pub enum Error {
    InvalidUrl(Url),
    UnknownObject(String),
    Other(String, String),
    Channel(ChannelError),
}

/// An error, with its texts as sequences of characters.
pub enum ErrorView {
    InvalidUrl(UrlView),
    UnknownObject(Seq<char>),
    Other(Seq<char>, Seq<char>),
    Channel(ChannelError),
}

impl View for Error {
    type V = ErrorView;

    open spec fn view(&self) -> ErrorView {
        match self {
            Error::InvalidUrl(url) => ErrorView::InvalidUrl(url@),
            Error::UnknownObject(url) => ErrorView::UnknownObject(url@),
            Error::Other(url, message) => ErrorView::Other(url@, message@),
            Error::Channel(e) => ErrorView::Channel(*e),
        }
    }
}

impl ErrorView {
    /// What the error says.
    pub open spec fn text(self) -> Seq<char> {
        match self {
            ErrorView::InvalidUrl(url) => "Invalid url: "@ + url.text,
            ErrorView::UnknownObject(url) => "Unknown youtube object: "@ + url,
            ErrorView::Other(url, message) => "Error for url "@ + url + ": "@ + message,
            ErrorView::Channel(e) => e.text(),
        }
    }
}

impl Clone for Error {
    fn clone(&self) -> (r: Self)
        ensures
            r@ == self@,
    {
        match self {
            Error::InvalidUrl(url) => Error::InvalidUrl(url.clone()),
            Error::UnknownObject(url) => Error::UnknownObject(url.clone()),
            Error::Other(url, message) => Error::Other(url.clone(), message.clone()),
            Error::Channel(e) => Error::Channel(*e),
        }
    }
}

/// A track.
#[derive(Debug)]
pub struct Track {
    pub id: TrackId,
    pub title: String,
    pub artist: Vec<String>,
    pub webpage_url: Url,
    /// How long the track is, in seconds.
    pub duration: u64,
    pub is_music_track: bool,
    /// Where the track is kept once it has been downloaded.
    pub path: String,
}

/// A track, with its texts as sequences of characters.
pub struct TrackView {
    pub id: Seq<char>,
    pub title: Seq<char>,
    pub artist: Seq<Seq<char>>,
    pub webpage_url: UrlView,
    pub duration: u64,
    pub is_music_track: bool,
    pub path: Seq<char>,
}

impl View for Track {
    type V = TrackView;

    open spec fn view(&self) -> TrackView {
        TrackView {
            id: self.id@,
            title: self.title@,
            artist: texts(self.artist@),
            webpage_url: self.webpage_url@,
            duration: self.duration,
            is_music_track: self.is_music_track,
            path: self.path@,
        }
    }
}

/// Copies a list of words.
fn copy_texts(words: &Vec<String>) -> (r: Vec<String>)
    ensures
        texts(r@) == texts(words@),
{
    let mut r: Vec<String> = Vec::new();
    let mut i: usize = 0;
    while i < words.len()
        invariant
            i <= words@.len(),
            texts(r@) == texts(words@).take(i as int),
        decreases words.len() - i,
    {
        proof {
            texts_of_push(r@, words@[i as int]);
            assert(texts(words@).take(i + 1) =~= texts(words@).take(i as int).push(
                words@[i as int]@,
            ));
        }
        r.push(words[i].clone());
        i = i + 1;
    }
    assert(texts(words@).take(i as int) =~= texts(words@));
    r
}

impl Clone for Track {
    fn clone(&self) -> (r: Self)
        ensures
            r@ == self@,
    {
        Track {
            id: self.id.clone(),
            title: self.title.clone(),
            artist: copy_texts(&self.artist),
            webpage_url: self.webpage_url.clone(),
            duration: self.duration,
            is_music_track: self.is_music_track,
            path: self.path.clone(),
        }
    }
}

/// A track as the downloader describes it.
#[derive(Debug)]
pub struct TrackRaw {
    pub track_id: String,
    pub title: String,
    pub artist: Vec<String>,
    pub webpage_url: String,
    pub duration_s: u64,
    pub is_music_track: bool,
    pub path: String,
}

impl TrackRaw {
    /// The track that is described, given its page.
    pub open spec fn described(&self, page: UrlView) -> TrackView {
        TrackView {
            id: self.track_id@,
            title: self.title@,
            artist: texts(self.artist@),
            webpage_url: page,
            duration: self.duration_s,
            is_music_track: self.is_music_track,
            path: self.path@,
        }
    }
}

impl Track {
    /// The track that is described, given its page.
    pub fn with_page(value: TrackRaw, page: Url) -> (r: Track)
        ensures
            r@ == value.described(page@),
    {
        Track {
            id: value.track_id,
            title: value.title,
            artist: value.artist,
            webpage_url: page,
            duration: value.duration_s,
            is_music_track: value.is_music_track,
            path: value.path,
        }
    }

    /// The track that is described, or nothing where the address of its page cannot be parsed.
    pub fn from_raw(value: TrackRaw) -> (r: Option<Track>)
        ensures
            match r {
                Some(track) => url_of_text(value.webpage_url@) is Ok && track@ == value.described(
                    url_of_text(value.webpage_url@)->Ok_0,
                ),
                None => url_of_text(value.webpage_url@) is Err,
            },
    {
        match Url::parse(value.webpage_url.as_str()) {
            Ok(page) => Some(Track::with_page(value, page)),
            Err(_) => None,
        }
    }
}

/// An error as the downloader describes it.
#[derive(Debug)]
pub struct ErrorRaw {
    pub kind: i64,
    pub url: String,
    pub message: Option<String>,
}

impl ErrorRaw {
    /// The descriptions that make sense: of an unknown object, or of another error with a message.
    pub open spec fn wf(&self) -> bool {
        self.kind == 0 || (self.kind == 1 && self.message is Some)
    }
}

/// What the first group of a regular expression captures where the expression, as
/// `regex::Regex` reads it, first matches a text. Nothing, if the expression is not valid, does not
/// match, or has no such group in the match.
pub uninterp spec fn regex_first_group(pattern: Seq<char>, text: Seq<char>) -> Option<Seq<char>>;

/// Calls `regex::Regex::new`, `captures` and `get(1)`. The outcome is a function of the pattern and
/// the text, and is named `regex_first_group`; nothing more is claimed of it.
#[verifier::external_body]
fn capture_first_group(pattern: &str, text: &str) -> (r: Option<String>)
    ensures
        match r {
            Some(group) => regex_first_group(pattern@, text@) == Some(group@),
            None => regex_first_group(pattern@, text@) is None,
        },
{
    let re = regex::Regex::new(pattern).ok()?;
    let captures = re.captures(text)?;
    captures.get(1).map(|m| m.as_str().to_owned())
}

/// The message of an error: the part that was captured, or all of it.
pub open spec fn bare_message(message: Seq<char>, captured: Option<Seq<char>>) -> Seq<char> {
    match captured {
        Some(part) => part,
        None => message,
    }
}

impl Error {
    /// The error that is described, given what was captured of its message.
    pub fn with_captured(value: ErrorRaw, captured: Option<String>) -> (r: Error)
        requires
            value.wf(),
        ensures
            value.kind == 0 ==> r@ == ErrorView::UnknownObject(value.url@),
            value.kind == 1 ==> r@ == ErrorView::Other(
                value.url@,
                bare_message(
                    value.message->0@,
                    match captured {
                        Some(part) => Some(part@),
                        None => None,
                    },
                ),
            ),
    {
        match value.message {
            Some(message) if value.kind == 1 => match captured {
                Some(part) => Error::Other(value.url, part),
                None => Error::Other(value.url, message),
            },
            _ => Error::UnknownObject(value.url),
        }
    }

    /// The error that is described. What the downloader puts in front of its own messages is left
    /// out.
    pub fn from_raw(value: ErrorRaw) -> (r: Error)
        requires
            value.wf(),
        ensures
            value.kind == 0 ==> r@ == ErrorView::UnknownObject(value.url@),
            value.kind == 1 ==> r@ == ErrorView::Other(
                value.url@,
                bare_message(
                    value.message->0@,
                    regex_first_group(ERROR_PATTERN@, value.message->0@),
                ),
            ),
    {
        let captured = match &value.message {
            Some(message) => capture_first_group(ERROR_PATTERN, message.as_str()),
            None => None,
        };
        Error::with_captured(value, captured)
    }

    /// The error as a sentence.
    pub fn message(&self) -> (r: String)
        ensures
            r@ == self@.text(),
    {
        match self {
            Error::InvalidUrl(url) => "Invalid url: ".to_owned().concat(url.as_str()),
            Error::UnknownObject(url) => {
                "Unknown youtube object: ".to_owned().concat(url.as_str())
            },
            Error::Other(url, message) => "Error for url ".to_owned().concat(url.as_str()).concat(
                ": ",
            ).concat(message.as_str()),
            Error::Channel(e) => e.message(),
        }
    }
}

/// What the downloader can be asked.
#[derive(Debug)]
pub enum Request {
    /// What is behind some addresses.
    Resolve(Vec<Url>),
    /// To download what is behind an address.
    Download(Url),
}

/// A call into the downloader.
#[derive(Debug)]
pub enum Call {
    Resolve(Vec<String>),
    Download(String),
}

/// The addresses of a list, each by its text.
pub open spec fn addresses(urls: Seq<Url>) -> Seq<Seq<char>> {
    urls.map_values(|u: Url| u@.text)
}

impl Call {
    /// The method to call.
    pub fn method(&self) -> (r: &'static str)
        ensures
            r@ == match self {
                Call::Resolve(_) => PYTHON_RESOLVE_METHOD@,
                Call::Download(_) => PYTHON_DOWNLOAD_METHOD@,
            },
    {
        match self {
            Call::Resolve(_) => PYTHON_RESOLVE_METHOD,
            Call::Download(_) => PYTHON_DOWNLOAD_METHOD,
        }
    }
}

/// The side that talks to the downloader.
#[derive(Debug, Clone, Copy, PartialEq, Eq, Structural)]
pub struct Worker;

impl Worker {
    /// The call that a request amounts to.
    pub fn request_handler(&self, payload: &Request) -> (r: Call)
        ensures
            match payload {
                Request::Resolve(urls) => r matches Call::Resolve(list) && texts(list@)
                    == addresses(urls@),
                Request::Download(url) => r matches Call::Download(address) && address@
                    == url@.text,
            },
    {
        match payload {
            Request::Resolve(urls) => {
                let mut list: Vec<String> = Vec::new();
                let mut i: usize = 0;
                while i < urls.len()
                    invariant
                        i <= urls@.len(),
                        texts(list@) == addresses(urls@).take(i as int),
                    decreases urls.len() - i,
                {
                    let word = urls[i].as_str().to_owned();
                    proof {
                        texts_of_push(list@, word);
                        assert(addresses(urls@).take(i + 1) =~= addresses(urls@).take(
                            i as int,
                        ).push(word@));
                    }
                    list.push(word);
                    i = i + 1;
                }
                assert(addresses(urls@).take(i as int) =~= addresses(urls@));
                Call::Resolve(list)
            },
            Request::Download(url) => Call::Download(url.as_str().to_owned()),
        }
    }

    /// The tracks that the downloader found, or nothing where the address of a page cannot be
    /// parsed.
    pub fn map_resolve(value: Vec<TrackRaw>) -> (r: Option<Vec<Track>>)
        ensures
            match r {
                Some(tracks) => tracks@.len() == value@.len() && forall|i: int|
                    0 <= i < value@.len() ==> url_of_text(
                        (#[trigger] value@[i]).webpage_url@,
                    ) is Ok && tracks@[i]@ == value@[i].described(
                        url_of_text(value@[i].webpage_url@)->Ok_0,
                    ),
                None => exists|i: int|
                    0 <= i < value@.len() && url_of_text(
                        (#[trigger] value@[i]).webpage_url@,
                    ) is Err,
            },
    {
        let ghost all = value@;
        let mut rest = value;
        let mut tracks: Vec<Track> = Vec::new();
        let mut i: usize = 0;
        let count = rest.len();
        while i < count
            invariant
                all == value@,
                count == all.len(),
                i <= count,
                rest@ == all.skip(i as int),
                tracks@.len() == i,
                forall|j: int|
                    0 <= j < i ==> url_of_text((#[trigger] all[j]).webpage_url@) is Ok
                        && tracks@[j]@ == all[j].described(
                        url_of_text(all[j].webpage_url@)->Ok_0,
                    ),
            decreases count - i,
        {
            assert(rest@[0] == all[i as int]);
            let raw = rest.remove(0);
            assert(rest@ =~= all.skip(i + 1));
            match Track::from_raw(raw) {
                Some(track) => {
                    tracks.push(track);
                },
                None => {
                    return None;
                },
            }
            i = i + 1;
        }
        Some(tracks)
    }
}

/// Whether a host is one that tracks are taken from.
pub open spec fn known_host(host: Seq<char>) -> bool {
    host == "youtu.be"@ || host == "youtube.com"@ || host == "www.youtube.com"@
}

/// Whether an address is one that tracks are taken from.
pub open spec fn known_address(url: UrlView) -> bool {
    url.host matches Some(host) && known_host(host)
}

/// Whether a host is one that tracks are taken from.
fn is_known_host(host: &str) -> (r: bool)
    ensures
        r == known_host(host@),
{
    same(host, "youtu.be") || same(host, "youtube.com") || same(host, "www.youtube.com")
}

/// The side that asks for tracks.
#[derive(Debug, Clone, Copy, PartialEq, Eq, Structural)]
pub struct Youtube;

impl Youtube {
    /// The request for what is behind some addresses. Only addresses of known hosts are asked for;
    /// the first that is not is the error.
    pub fn resolve(&self, urls: Vec<Url>) -> (r: Result<Request>)
        ensures
            match r {
                Ok(request) => request == Request::Resolve(urls) && forall|i: int|
                    0 <= i < urls@.len() ==> known_address((#[trigger] urls@[i])@),
                Err(e) => exists|k: int|
                    0 <= k < urls@.len() && !known_address((#[trigger] urls@[k])@) && e@
                        == ErrorView::InvalidUrl(urls@[k]@) && forall|j: int|
                        0 <= j < k ==> known_address((#[trigger] urls@[j])@),
            },
    {
        let mut i: usize = 0;
        while i < urls.len()
            invariant
                i <= urls@.len(),
                forall|j: int| 0 <= j < i ==> known_address((#[trigger] urls@[j])@),
            decreases urls.len() - i,
        {
            let known = match urls[i].host_str() {
                Some(host) => is_known_host(host),
                None => false,
            };
            if !known {
                assert(!known_address(urls@[i as int]@));
                return Err(Error::InvalidUrl(urls[i].clone()));
            }
            i = i + 1;
        }
        Ok(Request::Resolve(urls))
    }

    /// The request that downloads a track.
    pub fn download_by_id(&self, id: &str) -> (r: Request)
        ensures
            r matches Request::Download(url) && url@ == page_of(id@),
    {
        Request::Download(make_youtube_url(id))
    }
}

/// A hexadecimal digit.
pub open spec fn hex_digit(d: u8) -> char {
    if d < 10 {
        (48 + d) as char
    } else {
        (55 + d) as char
    }
}

/// Whether a byte of a form is written as it is.
pub open spec fn form_safe(b: u8) -> bool {
    b == 0x2a || b == 0x2d || b == 0x2e || b == 0x5f || 0x30 <= b <= 0x39 || 0x41 <= b <= 0x5a
        || 0x61 <= b <= 0x7a
}

/// A byte as it is written in a form: letters, digits and `*-._` as they are, a space as a plus
/// sign, anything else as a percent sign and two hexadecimal digits.
pub open spec fn form_byte(b: u8) -> Seq<char> {
    if form_safe(b) {
        seq![b as char]
    } else if b == 0x20 {
        seq!['+']
    } else {
        seq!['%', hex_digit((b / 16) as u8), hex_digit((b % 16) as u8)]
    }
}

/// Bytes as they are written in a form.
pub open spec fn form_bytes(bytes: Seq<u8>) -> Seq<char>
    decreases bytes.len(),
{
    if bytes.len() == 0 {
        seq![]
    } else {
        form_byte(bytes[0]) + form_bytes(bytes.skip(1))
    }
}

/// Text as it is written in a form: each byte of its UTF-8 encoding by itself.
pub open spec fn form_text(s: Seq<char>) -> Seq<char> {
    form_bytes(encode_utf8(s))
}

/// Calls `append_pair` and `finish` of a fresh `url::form_urlencoded::Serializer`, the serializer
/// that is behind the query of a `url::Url`. It writes the name, an equals sign and the value, the
/// name and the value in the notation for forms.
#[verifier::external_body]
fn form_pair(name: &str, value: &str) -> (r: String)
    ensures
        r@ == form_text(name@) + seq!['='] + form_text(value@),
{
    url::form_urlencoded::Serializer::new(String::new()).append_pair(name, value).finish()
}

/// The page of a track.
pub open spec fn page_of(id: Seq<char>) -> UrlView {
    UrlView {
        text: BASE_URL@ + "?"@ + (form_text("v"@) + seq!['='] + form_text(id)),
        host: Some(BASE_HOST@),
    }
}

/// A byte of a form can be told from how the form begins, and where it ends too.
proof fn first_byte_of_form(a: u8, x: Seq<char>, b: u8, y: Seq<char>)
    requires
        form_byte(a) + x == form_byte(b) + y,
    ensures
        a == b,
        x == y,
{
    let left = form_byte(a) + x;
    let right = form_byte(b) + y;
    assert(left[0] == form_byte(a)[0]);
    assert(right[0] == form_byte(b)[0]);
    assert(form_byte(a).len() == form_byte(b).len());
    let n = form_byte(a).len() as int;
    assert(x =~= left.skip(n));
    assert(y =~= right.skip(n));
    if n == 3 {
        assert(left[1] == form_byte(a)[1] && left[2] == form_byte(a)[2]);
        assert(right[1] == form_byte(b)[1] && right[2] == form_byte(b)[2]);
    }
}

/// Bytes can be told from how they are written in a form.
proof fn form_bytes_are_injective(a: Seq<u8>, b: Seq<u8>)
    requires
        form_bytes(a) == form_bytes(b),
    ensures
        a == b,
    decreases a.len(),
{
    if a.len() > 0 && b.len() > 0 {
        first_byte_of_form(a[0], form_bytes(a.skip(1)), b[0], form_bytes(b.skip(1)));
        form_bytes_are_injective(a.skip(1), b.skip(1));
        assert(a =~= seq![a[0]] + a.skip(1));
        assert(b =~= seq![b[0]] + b.skip(1));
    } else {
        assert(a.len() > 0 ==> form_bytes(a).len() > 0);
        assert(b.len() > 0 ==> form_bytes(b).len() > 0);
        assert(a =~= b);
    }
}

/// Tracks with different identifiers have different pages.
pub proof fn pages_are_told_apart(id: Seq<char>, other: Seq<char>)
    requires
        page_of(id).text == page_of(other).text,
    ensures
        id == other,
{
    let front = BASE_URL@ + "?"@ + (form_text("v"@) + seq!['=']);
    assert(page_of(id).text =~= front + form_text(id));
    assert(page_of(other).text =~= front + form_text(other));
    assert(form_text(id) =~= page_of(id).text.skip(front.len() as int));
    assert(form_text(other) =~= page_of(other).text.skip(front.len() as int));
    form_bytes_are_injective(encode_utf8(id), encode_utf8(other));
    encode_utf8_decode_utf8(id);
    encode_utf8_decode_utf8(other);
}

/// The page of a track is an address that tracks are taken from.
pub proof fn pages_are_known(id: Seq<char>)
    ensures
        known_address(page_of(id)),
{
}

/// The page of a track.
pub fn make_youtube_url(id: &str) -> (r: Url)
    ensures
        r@ == page_of(id@),
{
    let text = BASE_URL.to_owned().concat("?").concat(form_pair("v", id).as_str());
    Url::known(text, BASE_HOST)
}

/// Tracks are taken from three hosts, and from no address with another host or without one.
pub proof fn tracks_come_from_three_hosts(url: UrlView)
    ensures
        known_address(url) <==> url.host == Some("youtu.be"@) || url.host == Some("youtube.com"@)
            || url.host == Some("www.youtube.com"@),
{
}

/// The page of a track is that of all tracks with the identifier as its only question, written as in
/// a form.
pub proof fn pages_ask_for_the_track(id: Seq<char>)
    ensures
        page_of(id).text == "https://www.youtube.com/watch?v="@ + form_text(id),
        page_of(id).host == Some("www.youtube.com"@),
{
    reveal_strlit("https://www.youtube.com/watch?v=");
    reveal_strlit("https://www.youtube.com/watch");
    reveal_strlit("?");
    reveal_strlit("v");
    assert("v"@ =~= seq!['v']);
    reveal_with_fuel(encode_utf8, 2);
    reveal_with_fuel(form_bytes, 2);
    let name = form_text("v"@);
    assert(name =~= seq!['v']) by {
        name_of_the_question();
    }
    assert(page_of(id).text =~= "https://www.youtube.com/watch?v="@ + form_text(id));
}

/// A letter is written as it is.
proof fn name_of_the_question()
    ensures
        form_text(seq!['v']) == seq!['v'],
{
    let s = seq!['v'];
    reveal_with_fuel(encode_utf8, 2);
    reveal_with_fuel(form_bytes, 2);
    assert(s.drop_first() =~= Seq::empty());
    assert(0x76u32 & 0x7Fu32 == 0x76u32) by (bit_vector);
    assert(encode_utf8(s) =~= seq![0x76u8]);
    assert(encode_utf8(s).skip(1) =~= Seq::empty());
    assert(form_bytes(seq![0x76u8]) =~= seq!['v']);
}

/// A track that is described keeps everything that is said of it, and has the page that is given.
pub proof fn descriptions_lose_nothing(raw: TrackRaw, page: UrlView)
    ensures
        raw.described(page).id == raw.track_id@,
        raw.described(page).title == raw.title@,
        raw.described(page).artist.len() == raw.artist@.len(),
        forall|i: int|
            0 <= i < raw.artist@.len() ==> raw.described(page).artist[i] == #[trigger] raw.artist@[i]@,
        raw.described(page).webpage_url == page,
        raw.described(page).duration == raw.duration_s,
        raw.described(page).is_music_track == raw.is_music_track,
        raw.described(page).path == raw.path@,
{
}

/// What is captured of a message is the message, and where nothing is captured, all of it is.
pub proof fn captured_parts_are_the_message(message: Seq<char>, part: Seq<char>)
    ensures
        bare_message(message, Some(part)) == part,
        bare_message(message, None) == message,
{
}

/// An error names the address that it is about, and says what went wrong with it.
pub proof fn errors_name_the_address(url: UrlView, address: Seq<char>, message: Seq<char>)
    ensures
        ErrorView::InvalidUrl(url).text() == "Invalid url: "@ + url.text,
        ErrorView::UnknownObject(address).text() == "Unknown youtube object: "@ + address,
        ErrorView::Other(address, message).text() == "Error for url "@ + address + ": "@ + message,
        ErrorView::Channel(ChannelError).text() == ChannelError.text(),
{
}

/// The downloader is given the text of each address, in their order.
pub proof fn addresses_are_given_one_by_one(urls: Seq<Url>, i: int)
    requires
        0 <= i < urls.len(),
    ensures
        addresses(urls).len() == urls.len(),
        addresses(urls)[i] == urls[i]@.text,
{
}

/// What is seen of a track and of an error is all that they hold.
pub proof fn views_show_what_is_there(track: Track, e: Error)
    ensures
        track@.id == track.id@,
        track@.title == track.title@,
        track@.artist == texts(track.artist@),
        track@.webpage_url == track.webpage_url@,
        track@.duration == track.duration,
        track@.is_music_track == track.is_music_track,
        track@.path == track.path@,
        match e {
            Error::InvalidUrl(url) => e@ == ErrorView::InvalidUrl(url@),
            Error::UnknownObject(url) => e@ == ErrorView::UnknownObject(url@),
            Error::Other(url, message) => e@ == ErrorView::Other(url@, message@),
            Error::Channel(c) => e@ == ErrorView::Channel(c),
        },
{
}

/// A form is written byte by byte. Letters, digits and four signs stay as they are, a space becomes
/// a plus sign, and every other byte becomes a percent sign and its two hexadecimal digits.
pub proof fn forms_are_written_byte_by_byte(bytes: Seq<u8>, b: u8)
    ensures
        form_bytes(Seq::empty()) == Seq::<char>::empty(),
        form_bytes(seq![b] + bytes) == form_byte(b) + form_bytes(bytes),
        form_byte(b).len() == 1 || form_byte(b).len() == 3,
        form_byte(b).len() == 3 ==> form_byte(b)[0] == '%' && ('0' <= form_byte(b)[1] <= '9'
            || 'A' <= form_byte(b)[1] <= 'F') && ('0' <= form_byte(b)[2] <= '9' || 'A'
            <= form_byte(b)[2] <= 'F'),
        b == 0x20 ==> form_byte(b) == seq!['+'],
        form_byte(b).len() == 1 && b != 0x20 ==> form_byte(b)[0] as int == b,
        form_byte(b).len() == 1 <==> b == 0x20 || 'a' as int <= b <= 'z' as int || 'A' as int <= b
            <= 'Z' as int || '0' as int <= b <= '9' as int || b == '*' as int || b == '-' as int
            || b == '.' as int || b == '_' as int,
{
    assert((seq![b] + bytes).skip(1) =~= bytes);
}

/// A description of an error makes sense if it is of an unknown object, or of another error that
/// has a message.
pub proof fn other_errors_have_a_message(raw: ErrorRaw)
    ensures
        raw.kind == 0 ==> raw.wf(),
        raw.kind == 1 ==> (raw.wf() <==> raw.message is Some),
        raw.kind != 0 && raw.kind != 1 ==> !raw.wf(),
{
}

} // verus!
