//! Who is told what.

use crate::controller::{
    queued_tracks, Error as ControllerError, Event, EventView, QueuedTrackView,
    Result as ControllerResult,
};
use crate::player::OriginId;
use crate::telegram::defs::REQUEST_STORAGE_CAPACITY;
use crate::telegram::display::{escape, paginate, pages, plain, track_text, TrackFmt};
use crate::util::parse::{texts, texts_of_push};
use crate::util::text::{decimal, decimal_text, pad_left, right_aligned};
use dashmap::DashSet;
use lru_cache::LruCache;
use std::hash::{BuildHasher, Hash};
use vstd::prelude::*;

verus! {

/// Identifies a chat.
pub type ChatId = i64;

/// Identifies a message in a chat.
pub type MessageId = i32;

/// Where a request came from: the chat and the message.
pub type RequestData = (ChatId, MessageId);

/// Whether the bot runs in a chat.
#[derive(Debug, Clone, Copy, PartialEq, Eq, Structural)]
pub enum DialogueData {
    Start,
    Run,
}

impl Default for DialogueData {
    fn default() -> (r: Self)
        ensures
            r == DialogueData::Start,
    {
        DialogueData::Start
    }
}

/// How the bot behaves.
#[derive(Debug, Clone, Copy, PartialEq, Eq, Structural)]
pub struct Settings {
    /// How many seconds the tracks of one request may last.
    pub max_request_duration: u64,
    /// Whether only what is known to be music is let through.
    pub only_music_tracks: bool,
}

/// `dashmap::DashSet`, a set.
#[verifier::external_type_specification]
#[verifier::external_body]
#[verifier::reject_recursive_types(K)]
#[verifier::reject_recursive_types(S)]
pub struct ExDashSet<K, S>(DashSet<K, S>);

/// What a `dashmap::DashSet` holds.
pub uninterp spec fn set_members(set: DashSet<ChatId>) -> Set<ChatId>;

/// Calls `dashmap::DashSet::new`, which makes a set that holds nothing.
#[verifier::external_body]
fn new_set() -> (r: DashSet<ChatId>)
    ensures
        set_members(r) == Set::<ChatId>::empty(),
{
    DashSet::new()
}

/// Calls `dashmap::DashSet::insert`, which puts a value into the set, and says whether it was not
/// there before.
#[verifier::external_body]
fn set_insert(set: &mut DashSet<ChatId>, key: ChatId) -> (r: bool)
    ensures
        set_members(*final(set)) == set_members(*old(set)).insert(key),
        r == !set_members(*old(set)).contains(key),
{
    set.insert(key)
}

/// Calls `dashmap::DashSet::remove`, which takes a value out of the set, and hands it out if it was
/// there.
#[verifier::external_body]
fn set_remove(set: &mut DashSet<ChatId>, key: ChatId) -> (r: Option<ChatId>)
    ensures
        set_members(*final(set)) == set_members(*old(set)).remove(key),
        r == if set_members(*old(set)).contains(key) {
            Some(key)
        } else {
            None
        },
{
    set.remove(&key)
}

/// Calls `dashmap::DashSet::iter` and collects what it goes through: every value once, in an order
/// that is left open.
#[verifier::external_body]
fn set_values(set: &DashSet<ChatId>) -> (r: Vec<ChatId>)
    ensures
        r@.no_duplicates(),
        r@.to_set() == set_members(*set),
{
    set.iter().map(|x| *x).collect()
}

/// `lru_cache::LruCache`, a map of limited size that forgets what was used least recently.
#[verifier::external_type_specification]
#[verifier::external_body]
#[verifier::reject_recursive_types(K)]
#[verifier::reject_recursive_types(V)]
#[verifier::reject_recursive_types(S)]
pub struct ExLruCache<K: Eq + Hash, V, S: BuildHasher>(LruCache<K, V, S>);

/// What an `lru_cache::LruCache` holds, what was used least recently first.
pub uninterp spec fn cache_entries(cache: LruCache<OriginId, RequestData>) -> Seq<
    (OriginId, RequestData),
>;

/// How many entries an `lru_cache::LruCache` can hold.
pub uninterp spec fn cache_capacity(cache: LruCache<OriginId, RequestData>) -> nat;

/// Entries with another key.
pub open spec fn other_entries(entries: Seq<(OriginId, RequestData)>, key: OriginId) -> Seq<
    (OriginId, RequestData),
> {
    entries.filter(|e: (OriginId, RequestData)| e.0 != key)
}

/// Entries once one has been put in. It takes the place of one with the same key, and comes last.
/// If there are then too many, the first one leaves.
pub open spec fn remembered(
    entries: Seq<(OriginId, RequestData)>,
    capacity: nat,
    key: OriginId,
    value: RequestData,
) -> Seq<(OriginId, RequestData)> {
    let all = other_entries(entries, key).push((key, value));
    if all.len() > capacity {
        all.skip(1)
    } else {
        all
    }
}

/// Calls `lru_cache::LruCache::new`, which makes a cache of a given size that holds nothing.
#[verifier::external_body]
fn new_cache(capacity: usize) -> (r: LruCache<OriginId, RequestData>)
    ensures
        cache_entries(r) == Seq::<(OriginId, RequestData)>::empty(),
        cache_capacity(r) == capacity,
{
    LruCache::new(capacity)
}

/// Calls `lru_cache::LruCache::insert`, which puts an entry in as the most recent, in place of one
/// with the same key, and drops the least recent entry if there are too many.
#[verifier::external_body]
fn cache_insert(cache: &mut LruCache<OriginId, RequestData>, key: OriginId, value: RequestData)
    ensures
        cache_entries(*final(cache)) == remembered(
            cache_entries(*old(cache)),
            cache_capacity(*old(cache)),
            key,
            value,
        ),
        cache_capacity(*final(cache)) == cache_capacity(*old(cache)),
{
    cache.insert(key, value);
}

/// Calls `lru_cache::LruCache::remove`, which takes out the entry with a key, if there is one, and
/// hands out its value.
#[verifier::external_body]
fn cache_remove(cache: &mut LruCache<OriginId, RequestData>, key: OriginId) -> (r: Option<
    RequestData,
>)
    ensures
        cache_entries(*final(cache)) == other_entries(cache_entries(*old(cache)), key),
        cache_capacity(*final(cache)) == cache_capacity(*old(cache)),
        match r {
            Some(value) => cache_entries(*old(cache)).contains((key, value)),
            None => forall|i: int|
                0 <= i < cache_entries(*old(cache)).len() ==> (#[trigger] cache_entries(
                    *old(cache),
                )[i]).0 != key,
        },
{
    cache.remove(&key)
}

/// The chats in which the bot runs, and how it behaves.
#[derive(Debug)]
pub struct State {
    chats: DashSet<ChatId>,
    settings: Settings,
}

impl State {
    /// The chats in which the bot runs.
    pub closed spec fn chats(&self) -> Set<ChatId> {
        set_members(self.chats)
    }

    /// How the bot behaves.
    pub closed spec fn behaviour(&self) -> Settings {
        self.settings
    }

    /// The bot runs in no chat yet.
    pub fn new(settings: Settings) -> (r: State)
        ensures
            r.chats() == Set::<ChatId>::empty(),
            r.behaviour() == settings,
    {
        State { chats: new_set(), settings }
    }

    /// What to remember of a request, given what came of it. A request that failed is not
    /// remembered.
    pub fn request(
        &self,
        chat_id: ChatId,
        message_id: MessageId,
        r: ControllerResult<OriginId>,
    ) -> (result: ControllerResult<RequestEntry>)
        ensures
            match r {
                Ok(origin_id) => result == Ok::<RequestEntry, ControllerError>(
                    RequestEntry { origin_id, data: (chat_id, message_id) },
                ),
                Err(e) => result == Err::<RequestEntry, ControllerError>(e),
            },
    {
        match r {
            Ok(origin_id) => Ok(RequestEntry { origin_id, data: (chat_id, message_id) }),
            Err(e) => Err(e),
        }
    }

    /// The bot runs in a chat.
    pub fn subscribe(&mut self, chat_id: ChatId)
        ensures
            final(self).chats() == old(self).chats().insert(chat_id),
            final(self).behaviour() == old(self).behaviour(),
    {
        set_insert(&mut self.chats, chat_id);
    }

    /// The bot no longer runs in a chat.
    pub fn unsubscribe(&mut self, chat_id: ChatId)
        ensures
            final(self).chats() == old(self).chats().remove(chat_id),
            final(self).behaviour() == old(self).behaviour(),
    {
        set_remove(&mut self.chats, chat_id);
    }

    /// How the bot behaves.
    pub fn settings(&self) -> (r: &Settings)
        ensures
            *r == self.behaviour(),
    {
        &self.settings
    }

    /// The chats in which the bot runs, each once.
    pub fn subscribers(&self) -> (r: Vec<ChatId>)
        ensures
            r@.no_duplicates(),
            r@.to_set() == self.chats(),
    {
        set_values(&self.chats)
    }
}

/// A request that was carried out, and where it came from.
#[derive(Debug, Clone, Copy)]
pub struct RequestEntry {
    pub origin_id: OriginId,
    pub data: RequestData,
}

/// Where an answer goes.
#[derive(Debug, Clone, Copy, PartialEq, Eq, Structural)]
pub struct ReplyTo {
    pub chat_id: ChatId,
    pub message_id: MessageId,
}

/// A line about a track that was queued.
pub open spec fn queued_line(i: nat, track: QueuedTrackView) -> Seq<char> {
    "\\("@ + right_aligned(decimal_text(i + 1), ' ', 2) + "\\) "@ + track_text(track.track)
        + "\n"@
}

/// The lines about tracks that were queued.
pub open spec fn queued_lines(tracks: Seq<QueuedTrackView>) -> Seq<Seq<char>> {
    Seq::new(tracks.len(), |i: int| queued_line(i as nat, tracks[i]))
}

/// What is written of an event.
pub open spec fn event_messages(e: EventView) -> Seq<Seq<char>> {
    match e {
        EventView::PlaybackStarted => seq!["▶️ Плеер запущен"@],
        EventView::PlaybackPaused => seq!["⏸️ Плеер на паузе"@],
        EventView::PlaybackStopped => seq!["⏹️ Плеер остановлен"@],
        EventView::QueueFinished => seq!["⏏️ Треки закончились"@],
        EventView::WaitingForDownload => seq!["🗿 Ждем загрузки трека"@],
        EventView::Muted => seq!["🔇 Без звука"@],
        EventView::Unmuted => seq!["🔊 Со звуком"@],
        EventView::TracksQueued { tracks } => pages(
            "⚡ Добавлены треки\n\n"@,
            queued_lines(tracks),
        ),
        EventView::Volume { level } => seq![
            "🔊 "@ + right_aligned(decimal_text(level as nat), ' ', 2) + "\n"@,
        ],
        EventView::NowPlaying { queue_id: _, track } => seq!["🎷 "@ + track_text(track) + "\n"@],
        EventView::DownloadError { track, err } => seq![
            "❗ Ошибка загрузки\\: "@ + plain(err.text()) + "\n"@ + track_text(track) + "\n"@,
        ],
    }
}

/// Where what is written of an event goes: to whoever asked for a track that cannot be had, and to
/// everybody otherwise.
pub open spec fn event_reply(e: EventView, request: Option<RequestData>) -> Option<ReplyTo> {
    match (e, request) {
        (EventView::DownloadError { .. }, Some((chat_id, message_id))) => Some(
            ReplyTo { chat_id, message_id },
        ),
        _ => None,
    }
}

/// What is written of an event, and where it goes.
pub fn format_event(e: &Event, request: Option<RequestData>) -> (r: (Vec<String>, Option<ReplyTo>))
    ensures
        texts(r.0@) == event_messages(e@),
        r.1 == event_reply(e@, request),
{
    let mut reply_to: Option<ReplyTo> = None;
    let message = match e {
        Event::PlaybackStarted => "▶️ Плеер запущен".to_owned(),
        Event::PlaybackPaused => "⏸️ Плеер на паузе".to_owned(),
        Event::PlaybackStopped => "⏹️ Плеер остановлен".to_owned(),
        Event::QueueFinished => "⏏️ Треки закончились".to_owned(),
        Event::WaitingForDownload => "🗿 Ждем загрузки трека".to_owned(),
        Event::Muted => "🔇 Без звука".to_owned(),
        Event::Unmuted => "🔊 Со звуком".to_owned(),
        Event::TracksQueued { tracks } => {
            let ghost views = e@->tracks;
            let mut lines: Vec<String> = Vec::new();
            let mut i: usize = 0;
            assert(texts(lines@) =~= queued_lines(views).take(0));
            while i < tracks.len()
                invariant
                    i <= tracks@.len(),
                    views == queued_tracks(tracks@),
                    texts(lines@) == queued_lines(views).take(i as int),
                decreases tracks.len() - i,
            {
                let number = decimal(i as u64 + 1);
                let line = "\\(".to_owned().concat(
                    pad_left(number.as_str(), ' ', 2).as_str(),
                ).concat("\\) ").concat(TrackFmt(&tracks[i].track).fmt().as_str()).concat("\n");
                proof {
                    texts_of_push(lines@, line);
                    assert(views[i as int] == tracks@[i as int]@);
                    assert(line@ == queued_lines(views)[i as int]);
                    assert(queued_lines(views).take(i + 1) =~= queued_lines(views).take(
                        i as int,
                    ).push(line@));
                }
                lines.push(line);
                i = i + 1;
            }
            assert(queued_lines(views).take(i as int) =~= queued_lines(views));
            return (paginate("⚡ Добавлены треки\n\n".to_owned(), &lines), None);
        },
        Event::Volume { level } => "🔊 ".to_owned().concat(
            pad_left(decimal(*level as u64).as_str(), ' ', 2).as_str(),
        ).concat("\n"),
        Event::NowPlaying { queue_id: _, track } => "🎷 ".to_owned().concat(
            TrackFmt(track).fmt().as_str(),
        ).concat("\n"),
        Event::DownloadError { track, err } => {
            if let Some((chat_id, message_id)) = request {
                reply_to = Some(ReplyTo { chat_id, message_id });
            }
            "❗ Ошибка загрузки\\: ".to_owned().concat(
                escape(err.message().as_str()).as_str(),
            ).concat("\n").concat(TrackFmt(track).fmt().as_str()).concat("\n")
        },
    };
    let result = vec![message];
    assert(texts(result@) =~= seq![message@]);
    (result, reply_to)
}

/// A message to be sent, with markup and without a preview of links.
#[derive(Debug)]
pub struct Outgoing {
    pub chat_id: ChatId,
    pub text: String,
    /// The message that is answered, if any.
    pub reply_to: Option<MessageId>,
}

/// A message to be sent, with its text as a sequence of characters.
pub struct OutgoingView {
    pub chat_id: ChatId,
    pub text: Seq<char>,
    pub reply_to: Option<MessageId>,
}

impl View for Outgoing {
    type V = OutgoingView;

    open spec fn view(&self) -> OutgoingView {
        OutgoingView { chat_id: self.chat_id, text: self.text@, reply_to: self.reply_to }
    }
}

/// The messages of a list.
pub open spec fn outgoing(list: Seq<Outgoing>) -> Seq<OutgoingView> {
    list.map_values(|m: Outgoing| m@)
}

/// All messages to one chat.
pub open spec fn to_chat(
    chat_id: ChatId,
    reply_to: Option<MessageId>,
    messages: Seq<Seq<char>>,
) -> Seq<OutgoingView> {
    messages.map_values(|text: Seq<char>| OutgoingView { chat_id, text, reply_to })
}

/// All messages to each of some chats.
pub open spec fn to_chats(chats: Seq<ChatId>, messages: Seq<Seq<char>>) -> Seq<OutgoingView>
    decreases chats.len(),
{
    if chats.len() == 0 {
        seq![]
    } else {
        to_chats(chats.drop_last(), messages) + to_chat(chats.last(), None, messages)
    }
}

/// What is sent about an event.
pub open spec fn notification(
    e: EventView,
    request: Option<RequestData>,
    chats: Seq<ChatId>,
) -> Seq<OutgoingView> {
    match event_reply(e, request) {
        Some(reply) => to_chat(reply.chat_id, Some(reply.message_id), event_messages(e)),
        None => to_chats(chats, event_messages(e)),
    }
}

/// No key occurs twice.
pub open spec fn keys_differ(entries: Seq<(OriginId, RequestData)>) -> bool {
    forall|i: int, j: int|
        0 <= i < j < entries.len() ==> (#[trigger] entries[i]).0 != (#[trigger] entries[j]).0
}

/// The value of a key.
pub open spec fn value_of(entries: Seq<(OriginId, RequestData)>, key: OriginId) -> Option<
    RequestData,
>
    decreases entries.len(),
{
    if entries.len() == 0 {
        None
    } else if entries.last().0 == key {
        Some(entries.last().1)
    } else {
        value_of(entries.drop_last(), key)
    }
}

/// An entry that is there is the one with its key.
proof fn value_is_unique(entries: Seq<(OriginId, RequestData)>, i: int)
    requires
        keys_differ(entries),
        0 <= i < entries.len(),
    ensures
        value_of(entries, entries[i].0) == Some(entries[i].1),
    decreases entries.len(),
{
    if i < entries.len() - 1 {
        assert(entries[i].0 != entries[entries.len() - 1].0);
        let front = entries.drop_last();
        assert forall|a: int, b: int| 0 <= a < b < front.len() implies (#[trigger] front[a]).0 != (
        #[trigger] front[b]).0 by {
            assert(entries[a].0 != entries[b].0);
        }
        assert(front[i] == entries[i]);
        value_is_unique(front, i);
    }
}

/// A key that no entry has, has no value.
proof fn no_value(entries: Seq<(OriginId, RequestData)>, key: OriginId)
    requires
        forall|i: int| 0 <= i < entries.len() ==> (#[trigger] entries[i]).0 != key,
    ensures
        value_of(entries, key) is None,
    decreases entries.len(),
{
    if entries.len() > 0 {
        let front = entries.drop_last();
        assert(entries[entries.len() - 1].0 != key);
        assert forall|i: int| 0 <= i < front.len() implies (#[trigger] front[i]).0 != key by {
            assert(front[i] == entries[i]);
        }
        no_value(front, key);
    }
}

/// What dropping a key leaves.
proof fn other_entries_hold(entries: Seq<(OriginId, RequestData)>, key: OriginId)
    requires
        keys_differ(entries),
    ensures
        keys_differ(other_entries(entries, key)),
        other_entries(entries, key).len() <= entries.len(),
        forall|i: int|
            0 <= i < other_entries(entries, key).len() ==> (#[trigger] other_entries(
                entries,
                key,
            )[i]).0 != key && entries.contains(other_entries(entries, key)[i]),
        forall|k: OriginId|
            k != key ==> #[trigger] value_of(other_entries(entries, key), k) == value_of(
                entries,
                k,
            ),
    decreases entries.len(),
{
    reveal(Seq::filter);
    if entries.len() > 0 {
        let front = entries.drop_last();
        assert forall|a: int, b: int| 0 <= a < b < front.len() implies (#[trigger] front[a]).0 != (
        #[trigger] front[b]).0 by {
            assert(entries[a].0 != entries[b].0);
        }
        other_entries_hold(front, key);
        let kept = other_entries(front, key);
        let all = other_entries(entries, key);
        let last = entries.last();
        assert(entries.contains(last));
        assert forall|i: int| 0 <= i < kept.len() implies entries.contains(#[trigger] kept[i])
            && kept[i].0 != last.0 by {
            let j = choose|j: int| 0 <= j < front.len() && front[j] == kept[i];
            assert(entries[j] == kept[i]);
            assert(entries[j].0 != entries[entries.len() - 1].0);
        }
        if last.0 != key {
            assert(all == kept.push(last));
            assert(all.drop_last() =~= kept);
            assert forall|a: int, b: int| 0 <= a < b < all.len() implies (#[trigger] all[a]).0 != (
            #[trigger] all[b]).0 by {
                assert(all[a] == kept[a]);
                if b < kept.len() {
                    assert(all[b] == kept[b]);
                }
            }
            assert forall|i: int| 0 <= i < all.len() implies (#[trigger] all[i]).0 != key
                && entries.contains(all[i]) by {
                if i < kept.len() {
                    assert(all[i] == kept[i]);
                }
            }
            assert forall|k: OriginId| k != key implies #[trigger] value_of(all, k) == value_of(
                entries,
                k,
            ) by {
                assert(value_of(kept, k) == value_of(front, k));
            }
        } else {
            assert(all == kept);
        }
    }
}

/// What is written about events goes through here. It remembers where requests came from, until the
/// first event that follows from them.
#[derive(Debug)]
pub struct Handler {
    requests: LruCache<OriginId, RequestData>,
}

impl Handler {
    /// The requests that are remembered, the oldest first.
    pub closed spec fn requests(&self) -> Seq<(OriginId, RequestData)> {
        cache_entries(self.requests)
    }

    /// No request is remembered twice, and not too many are.
    pub closed spec fn wf(&self) -> bool {
        &&& cache_capacity(self.requests) == REQUEST_STORAGE_CAPACITY
        &&& keys_differ(self.requests())
        &&& self.requests().len() <= REQUEST_STORAGE_CAPACITY
    }

    /// What can be told of a well-formed handler.
    pub proof fn wf_of_requests(&self)
        requires
            self.wf(),
        ensures
            keys_differ(self.requests()),
            self.requests().len() <= REQUEST_STORAGE_CAPACITY,
    {
    }

    /// Nothing is remembered yet.
    pub fn new() -> (r: Handler)
        ensures
            r.wf(),
            r.requests() == Seq::<(OriginId, RequestData)>::empty(),
    {
        Handler { requests: new_cache(REQUEST_STORAGE_CAPACITY) }
    }

    /// Remembers where a request came from.
    pub fn remember(&mut self, entry: RequestEntry)
        requires
            old(self).wf(),
        ensures
            final(self).wf(),
            final(self).requests() == remembered(
                old(self).requests(),
                REQUEST_STORAGE_CAPACITY as nat,
                entry.origin_id,
                entry.data,
            ),
    {
        proof {
            remembered_keeps_order(
                self.requests(),
                REQUEST_STORAGE_CAPACITY as nat,
                entry.origin_id,
                entry.data,
            );
        }
        cache_insert(&mut self.requests, entry.origin_id, entry.data);
    }

    /// What is sent about an event, given the chats in which the bot runs. The request that led to
    /// it is forgotten.
    pub fn handle(&mut self, origin_id: OriginId, e: &Event, chats: &Vec<ChatId>) -> (r: Vec<
        Outgoing,
    >)
        requires
            old(self).wf(),
        ensures
            final(self).wf(),
            final(self).requests() == other_entries(old(self).requests(), origin_id),
            outgoing(r@) == notification(
                e@,
                value_of(old(self).requests(), origin_id),
                chats@,
            ),
    {
        let ghost before = self.requests();
        let request = cache_remove(&mut self.requests, origin_id);
        proof {
            other_entries_hold(before, origin_id);
            match request {
                Some(value) => {
                    let i = choose|i: int|
                        0 <= i < before.len() && before[i] == (origin_id, value);
                    value_is_unique(before, i);
                },
                None => {
                    no_value(before, origin_id);
                },
            }
        }
        let (messages, reply_to) = format_event(e, request);
        match reply_to {
            Some(reply) => {
                let mut r: Vec<Outgoing> = Vec::new();
                send_all(&mut r, reply.chat_id, Some(reply.message_id), &messages);
                assert(outgoing(r@) =~= notification(e@, request, chats@));
                r
            },
            None => broadcast(chats, &messages),
        }
    }
}

/// Adds all messages to one chat.
fn send_all(
    r: &mut Vec<Outgoing>,
    chat_id: ChatId,
    reply_to: Option<MessageId>,
    messages: &Vec<String>,
)
    ensures
        outgoing(final(r)@) == outgoing(old(r)@) + to_chat(chat_id, reply_to, texts(messages@)),
{
    let ghost start = r@;
    let ghost all = to_chat(chat_id, reply_to, texts(messages@));
    let mut i: usize = 0;
    assert(outgoing(r@) =~= outgoing(start) + all.take(0));
    while i < messages.len()
        invariant
            i <= messages@.len(),
            all == to_chat(chat_id, reply_to, texts(messages@)),
            outgoing(r@) == outgoing(start) + all.take(i as int),
        decreases messages.len() - i,
    {
        let ghost before = r@;
        let m = Outgoing { chat_id, text: messages[i].clone(), reply_to };
        proof {
            assert(all[i as int] == m@);
            assert(outgoing(before.push(m)) =~= outgoing(before).push(m@));
            assert(outgoing(start) + all.take(i + 1) =~= (outgoing(start) + all.take(
                i as int,
            )).push(m@));
        }
        r.push(m);
        i = i + 1;
    }
    assert(all.take(i as int) =~= all);
}

/// All messages to each of some chats.
fn broadcast(chats: &Vec<ChatId>, messages: &Vec<String>) -> (r: Vec<Outgoing>)
    ensures
        outgoing(r@) == to_chats(chats@, texts(messages@)),
{
    let mut r: Vec<Outgoing> = Vec::new();
    let mut i: usize = 0;
    assert(chats@.take(0) =~= Seq::empty());
    assert(outgoing(r@) =~= Seq::empty());
    while i < chats.len()
        invariant
            i <= chats@.len(),
            outgoing(r@) == to_chats(chats@.take(i as int), texts(messages@)),
        decreases chats.len() - i,
    {
        assert(chats@.take(i + 1).drop_last() =~= chats@.take(i as int));
        send_all(&mut r, chats[i], None, messages);
        i = i + 1;
    }
    assert(chats@.take(i as int) =~= chats@);
    r
}

/// Of the requests that are remembered, only the oldest are ever forgotten to make room: a request
/// that comes in is there afterwards, no key occurs twice, there are not too many, and all others
/// stay but the first, which leaves only when there is no room.
pub proof fn remembered_keeps_order(
    entries: Seq<(OriginId, RequestData)>,
    capacity: nat,
    key: OriginId,
    value: RequestData,
)
    requires
        keys_differ(entries),
        entries.len() <= capacity,
        capacity > 0,
    ensures
        ({
            let after = remembered(entries, capacity, key, value);
            &&& keys_differ(after)
            &&& after.len() <= capacity
            &&& value_of(after, key) == Some(value)
            &&& other_entries(entries, key).len() < capacity ==> after.drop_last()
                == other_entries(entries, key)
            &&& other_entries(entries, key).len() == capacity ==> after.drop_last()
                == other_entries(entries, key).skip(1)
        }),
{
    other_entries_hold(entries, key);
    let kept = other_entries(entries, key);
    let all = kept.push((key, value));
    let after = remembered(entries, capacity, key, value);
    assert forall|a: int, b: int| 0 <= a < b < all.len() implies (#[trigger] all[a]).0 != (
    #[trigger] all[b]).0 by {
        assert(all[a] == kept[a]);
        if b < kept.len() {
            assert(all[b] == kept[b]);
        }
    }
    assert forall|a: int, b: int| 0 <= a < b < after.len() implies (#[trigger] after[a]).0 != (
    #[trigger] after[b]).0 by {
        let shift: int = if all.len() > capacity {
            1
        } else {
            0
        };
        assert(after[a] == all[a + shift] && after[b] == all[b + shift]);
    }
    assert(after.last() == (key, value));
    if kept.len() < capacity {
        assert(after.drop_last() =~= kept);
    } else {
        assert(after.drop_last() =~= kept.skip(1));
    }
}

/// A request is answered once: after the first event that follows from it, nothing is known of it,
/// and what is known of the others stays.
pub proof fn requests_are_answered_once(entries: Seq<(OriginId, RequestData)>, key: OriginId)
    requires
        keys_differ(entries),
    ensures
        value_of(other_entries(entries, key), key) is None,
        forall|k: OriginId|
            k != key ==> #[trigger] value_of(other_entries(entries, key), k) == value_of(
                entries,
                k,
            ),
{
    other_entries_hold(entries, key);
    no_value(other_entries(entries, key), key);
}

/// Only a failed download is answered to whoever asked, and only if it is known who did.
pub proof fn only_failed_downloads_are_answered(e: EventView, request: Option<RequestData>)
    ensures
        event_reply(e, request) is Some <==> e is DownloadError && request is Some,
{
}

/// Every message about an event goes to every chat in which the bot runs, and to no other, unless it
/// is an answer.
pub proof fn everybody_is_told(chats: Seq<ChatId>, messages: Seq<Seq<char>>)
    ensures
        to_chats(chats, messages).len() == chats.len() * messages.len(),
        forall|c: ChatId, m: int|
            #![trigger chats.contains(c), messages[m]]
            chats.contains(c) && 0 <= m < messages.len() ==> to_chats(chats, messages).contains(
                OutgoingView { chat_id: c, text: messages[m], reply_to: None },
            ),
        forall|i: int|
            0 <= i < to_chats(chats, messages).len() ==> chats.contains(
                (#[trigger] to_chats(chats, messages)[i]).chat_id,
            ) && messages.contains(to_chats(chats, messages)[i].text),
    decreases chats.len(),
{
    if chats.len() == 0 {
        assert(chats.len() * messages.len() == 0) by (nonlinear_arith)
            requires
                chats.len() == 0,
        ;
    } else {
        let front = chats.drop_last();
        let last = chats.last();
        let head = to_chats(front, messages);
        let tail = to_chat(last, None, messages);
        let all = to_chats(chats, messages);
        everybody_is_told(front, messages);
        assert(chats.len() * messages.len() == front.len() * messages.len() + messages.len())
            by (nonlinear_arith)
            requires
                chats.len() == front.len() + 1,
        ;
        assert(chats.contains(last));
        assert forall|c: ChatId, m: int|
            #![trigger chats.contains(c), messages[m]]
            chats.contains(c) && 0 <= m < messages.len() implies all.contains(
            OutgoingView { chat_id: c, text: messages[m], reply_to: None },
        ) by {
            let v = OutgoingView { chat_id: c, text: messages[m], reply_to: None };
            if c == last {
                assert(tail[m] == v);
                assert(all[head.len() + m] == v);
            } else {
                let k = choose|k: int| 0 <= k < chats.len() && chats[k] == c;
                assert(front[k] == c);
                assert(front.contains(c));
                assert(head.contains(v));
                let j = choose|j: int| 0 <= j < head.len() && head[j] == v;
                assert(all[j] == v);
            }
        }
        assert forall|i: int| 0 <= i < all.len() implies chats.contains(
            (#[trigger] all[i]).chat_id,
        ) && messages.contains(all[i].text) by {
            if i < head.len() {
                assert(all[i] == head[i]);
                let k = choose|k: int| 0 <= k < front.len() && front[k] == head[i].chat_id;
                assert(chats[k] == all[i].chat_id);
            } else {
                assert(all[i] == tail[i - head.len()]);
                assert(messages[i - head.len()] == all[i].text);
            }
        }
    }
}

/// Each track that was queued has a line of its own, in the order in which they were queued: the
/// line has the number of its place, counted from one, and is about the track at this place. Another
/// track in this place changes this line and no other.
pub proof fn every_queued_track_has_its_line(
    tracks: Seq<QueuedTrackView>,
    i: int,
    j: int,
    other: QueuedTrackView,
)
    requires
        0 <= i < tracks.len(),
        0 <= j < tracks.len(),
    ensures
        queued_lines(tracks).len() == tracks.len(),
        queued_lines(tracks)[i] == "\\("@ + right_aligned(decimal_text((i + 1) as nat), ' ', 2)
            + "\\) "@ + track_text(tracks[i].track) + "\n"@,
        queued_lines(tracks.update(i, other)).len() == queued_lines(tracks).len(),
        queued_lines(tracks.update(i, other))[i] == "\\("@ + right_aligned(
            decimal_text((i + 1) as nat),
            ' ',
            2,
        ) + "\\) "@ + track_text(other.track) + "\n"@,
        i != j ==> queued_lines(tracks.update(i, other))[j] == queued_lines(tracks)[j],
{
}

/// Tracks that are queued behind others add their lines and leave the lines of the others alone.
pub proof fn more_tracks_add_lines(tracks: Seq<QueuedTrackView>, track: QueuedTrackView)
    ensures
        queued_lines(tracks.push(track)).len() == queued_lines(tracks).len() + 1,
        queued_lines(tracks.push(track)).drop_last() == queued_lines(tracks),
        queued_lines(Seq::empty()).len() == 0,
{
    assert(queued_lines(tracks.push(track)).drop_last() =~= queued_lines(tracks));
}

/// What is written of an event says what happened, and with which track, volume or error. It is one
/// message, unless tracks were queued: these are listed line by line below a heading.
pub proof fn events_are_written_out(e: EventView)
    ensures
        !(e is TracksQueued) ==> event_messages(e).len() == 1,
        match e {
            EventView::PlaybackStarted => event_messages(e)[0] == "▶️ Плеер запущен"@,
            EventView::PlaybackPaused => event_messages(e)[0] == "⏸️ Плеер на паузе"@,
            EventView::PlaybackStopped => event_messages(e)[0] == "⏹️ Плеер остановлен"@,
            EventView::QueueFinished => event_messages(e)[0] == "⏏️ Треки закончились"@,
            EventView::WaitingForDownload => event_messages(e)[0]
                == "🗿 Ждем загрузки трека"@,
            EventView::Muted => event_messages(e)[0] == "🔇 Без звука"@,
            EventView::Unmuted => event_messages(e)[0] == "🔊 Со звуком"@,
            EventView::TracksQueued { tracks } => event_messages(e) == pages(
                "⚡ Добавлены треки\n\n"@,
                queued_lines(tracks),
            ),
            EventView::Volume { level } => event_messages(e)[0] == "🔊 "@ + right_aligned(
                decimal_text(level as nat),
                ' ',
                2,
            ) + "\n"@,
            EventView::NowPlaying { queue_id, track } => event_messages(e)[0] == "🎷 "@
                + track_text(track) + "\n"@,
            EventView::DownloadError { track, err } => event_messages(e)[0]
                == "❗ Ошибка загрузки\\: "@ + plain(err.text()) + "\n"@ + track_text(track)
                + "\n"@,
        },
{
}

/// An answer goes to the chat and to the message that asked, and to no other.
pub proof fn answers_go_to_whoever_asked(
    e: EventView,
    chat_id: ChatId,
    message_id: MessageId,
    chats: Seq<ChatId>,
    i: int,
)
    requires
        0 <= i < event_messages(e).len(),
    ensures
        ({
            let sent = notification(e, Some((chat_id, message_id)), chats);
            e is DownloadError ==> sent.len() == event_messages(e).len() && sent[i].chat_id
                == chat_id && sent[i].reply_to == Some(message_id) && sent[i].text
                == event_messages(e)[i]
        }),
        !(e is DownloadError) ==> notification(e, Some((chat_id, message_id)), chats) == to_chats(
            chats,
            event_messages(e),
        ),
        notification(e, None, chats) == to_chats(chats, event_messages(e)),
{
}

/// What is told to everybody answers nobody. Each chat gets every message once, in their order, and
/// one chat after the other.
pub proof fn chats_are_told_one_by_one(
    chats: Seq<ChatId>,
    chat_id: ChatId,
    messages: Seq<Seq<char>>,
    i: int,
)
    ensures
        to_chats(Seq::empty(), messages).len() == 0,
        ({
            let before = to_chats(chats, messages);
            let after = to_chats(chats.push(chat_id), messages);
            &&& after.len() == before.len() + messages.len()
            &&& after.take(before.len() as int) == before
            &&& 0 <= i < messages.len() ==> after[before.len() + i] == (OutgoingView {
                chat_id,
                text: messages[i],
                reply_to: None,
            })
        }),
{
    let before = to_chats(chats, messages);
    let after = to_chats(chats.push(chat_id), messages);
    assert(chats.push(chat_id).drop_last() =~= chats);
    assert(after.take(before.len() as int) =~= before);
}

/// The value of a key is that of an entry with this key, and there is none only if no entry has it.
pub proof fn values_are_found(entries: Seq<(OriginId, RequestData)>, key: OriginId)
    ensures
        match value_of(entries, key) {
            Some(value) => entries.contains((key, value)),
            None => forall|i: int| 0 <= i < entries.len() ==> (#[trigger] entries[i]).0 != key,
        },
    decreases entries.len(),
{
    if entries.len() > 0 {
        let front = entries.drop_last();
        let last = entries.last();
        assert(entries[entries.len() - 1] == last);
        values_are_found(front, key);
        if last.0 == key {
            assert(entries.contains((key, last.1)));
        } else {
            match value_of(front, key) {
                Some(value) => {
                    let i = choose|i: int| 0 <= i < front.len() && front[i] == (key, value);
                    assert(entries[i] == (key, value));
                },
                None => {
                    assert forall|i: int| 0 <= i < entries.len() implies (
                    #[trigger] entries[i]).0 != key by {
                        if i < front.len() {
                            assert(front[i] == entries[i]);
                        }
                    }
                },
            }
        }
    }
}

/// Forgetting a key drops the entries with this key and no other.
pub proof fn forgetting_drops_one_key(
    entries: Seq<(OriginId, RequestData)>,
    key: OriginId,
    entry: (OriginId, RequestData),
)
    ensures
        other_entries(Seq::empty(), key) == Seq::<(OriginId, RequestData)>::empty(),
        entry.0 == key ==> other_entries(entries.push(entry), key) == other_entries(entries, key),
        entry.0 != key ==> other_entries(entries.push(entry), key) == other_entries(
            entries,
            key,
        ).push(entry),
{
    reveal(Seq::filter);
    assert(entries.push(entry).drop_last() =~= entries);
    assert(other_entries(Seq::empty(), key) =~= Seq::<(OriginId, RequestData)>::empty());
}

/// What is seen of a list of messages is each message, with all that it holds.
pub proof fn messages_show_what_they_hold(list: Seq<Outgoing>, i: int)
    requires
        0 <= i < list.len(),
    ensures
        outgoing(list).len() == list.len(),
        outgoing(list)[i].chat_id == list[i].chat_id,
        outgoing(list)[i].text == list[i].text@,
        outgoing(list)[i].reply_to == list[i].reply_to,
{
}

/// A thousand requests are remembered: as long as there are fewer, one more takes nothing away from
/// the others, and when there are as many, only the oldest is forgotten for it.
pub proof fn a_thousand_requests_are_remembered(
    entries: Seq<(OriginId, RequestData)>,
    key: OriginId,
    value: RequestData,
    i: int,
)
    requires
        keys_differ(entries),
        entries.len() <= 1000,
        forall|j: int| 0 <= j < entries.len() ==> (#[trigger] entries[j]).0 != key,
        0 <= i < entries.len(),
    ensures
        ({
            let after = remembered(entries, REQUEST_STORAGE_CAPACITY as nat, key, value);
            &&& value_of(after, key) == Some(value)
            &&& entries.len() < 1000 ==> after == entries.push((key, value)) && value_of(
                after,
                entries[i].0,
            ) == Some(entries[i].1)
            &&& entries.len() == 1000 ==> after == entries.skip(1).push((key, value))
            &&& entries.len() == 1000 && i > 0 ==> value_of(after, entries[i].0) == Some(
                entries[i].1,
            )
            &&& entries.len() == 1000 && i == 0 ==> value_of(after, entries[i].0) is None
        }),
{
    let after = remembered(entries, REQUEST_STORAGE_CAPACITY as nat, key, value);
    remembered_keeps_order(entries, REQUEST_STORAGE_CAPACITY as nat, key, value);
    nothing_else_is_dropped(entries, key);
    if entries.len() < 1000 {
        assert(after[i] == entries[i]);
        value_is_unique(after, i);
    } else {
        assert(after =~= entries.skip(1).push((key, value)));
        if i > 0 {
            assert(after[i - 1] == entries[i]);
            value_is_unique(after, i - 1);
        } else {
            assert forall|j: int| 0 <= j < after.len() implies (#[trigger] after[j]).0
                != entries[0].0 by {
                if j < 999 {
                    assert(after[j] == entries[j + 1]);
                }
            }
            no_value(after, entries[0].0);
        }
    }
}

/// Where no entry has a key, forgetting it drops none.
proof fn nothing_else_is_dropped(entries: Seq<(OriginId, RequestData)>, key: OriginId)
    requires
        forall|j: int| 0 <= j < entries.len() ==> (#[trigger] entries[j]).0 != key,
    ensures
        other_entries(entries, key) == entries,
    decreases entries.len(),
{
    reveal(Seq::filter);
    if entries.len() > 0 {
        let front = entries.drop_last();
        assert forall|j: int| 0 <= j < front.len() implies (#[trigger] front[j]).0 != key by {
            assert(front[j] == entries[j]);
        }
        nothing_else_is_dropped(front, key);
        assert(entries[entries.len() - 1].0 != key);
        assert(other_entries(entries, key) =~= entries);
    } else {
        assert(other_entries(entries, key) =~= entries);
    }
}

} // verus!
