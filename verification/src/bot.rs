//! A smaller Telegram bot. It lets everything through that is short enough, and keeps the chats and
//! the requests in one place.

use crate::controller::{track_views, Event, Status};
use crate::player::OriginId;
use crate::telegram::dispatch::{
    adds_up, allowed, can_filter as can_filter_for, durations_add_up, filter_takes_what_fits,
    filter_tracks as filter_tracks_for, filtered, only_music_is_held_to_be_music, total_duration,
};
use crate::telegram::display::{status_line, StatusFmt as FullStatusFmt};
use crate::telegram::state::{
    notification, other_entries, outgoing, remembered, value_of, ChatId, Handler, Outgoing,
    RequestData, RequestEntry, Settings as FullSettings,
};
use crate::telegram::defs::REQUEST_STORAGE_CAPACITY;
use crate::youtube::{Track, TrackView};
use std::collections::HashSet;
use vstd::prelude::*;
use vstd::std_specs::iter::IteratorSpec;

verus! {

/// What is answered to a message that asks for nothing.
pub const ERROR_TEXT: &'static str = "Uh oh";

/// How the bot behaves.
#[derive(Debug, Clone, Copy, PartialEq, Eq, Structural)]
pub struct Settings {
    /// How many seconds the tracks of one request may last.
    pub max_request_duration: u64,
}

impl Settings {
    /// The same, for the bot that can ask for music only.
    pub open spec fn full(self) -> FullSettings {
        FullSettings { max_request_duration: self.max_request_duration, only_music_tracks: false }
    }
}

/// The same, for the bot that can ask for music only.
fn full_settings(settings: &Settings) -> (r: FullSettings)
    ensures
        r == settings.full(),
{
    FullSettings { max_request_duration: settings.max_request_duration, only_music_tracks: false }
}

/// Whether the durations can be added up as far as that is needed.
pub fn can_filter(tracks: &Vec<Track>, settings: &Settings) -> (r: bool)
    ensures
        r == adds_up(track_views(tracks@), settings.full()),
{
    can_filter_for(tracks, &full_settings(settings))
}

/// The tracks that are let through: as many from the front as together last no longer than the
/// limit.
pub fn filter_tracks(tracks: Vec<Track>, settings: &Settings) -> (r: Vec<Track>)
    requires
        adds_up(track_views(tracks@), settings.full()),
    ensures
        track_views(r@) == filtered(track_views(tracks@), settings.full()),
{
    filter_tracks_for(tracks, &full_settings(settings))
}

/// How the state of the player is written.
#[derive(Debug)]
pub struct StatusFmt<'a>(pub &'a Status);

impl<'a> StatusFmt<'a> {
    /// How the player stands, on one line.
    pub fn fmt(&self) -> (r: String)
        ensures
            r@ == status_line(self.0@),
    {
        FullStatusFmt(self.0).line()
    }
}

/// The chats in which the bot runs, and the requests that it remembers.
#[derive(Debug)]
pub struct StateData {
    chats: HashSet<ChatId>,
    requests: Handler,
}

impl StateData {
    /// The chats in which the bot runs.
    pub closed spec fn chats(&self) -> Set<ChatId> {
        self.chats@
    }

    /// The requests that are remembered, the oldest first.
    pub closed spec fn requests(&self) -> Seq<(OriginId, RequestData)> {
        self.requests.requests()
    }

    /// No request is remembered twice, and not too many are.
    pub closed spec fn wf(&self) -> bool {
        self.requests.wf()
    }

    /// Remembers where a request came from.
    pub fn request(&mut self, origin_id: OriginId, data: RequestData)
        requires
            old(self).wf(),
        ensures
            final(self).wf(),
            final(self).chats() == old(self).chats(),
            final(self).requests() == remembered(
                old(self).requests(),
                REQUEST_STORAGE_CAPACITY as nat,
                origin_id,
                data,
            ),
    {
        self.requests.remember(RequestEntry { origin_id, data });
    }

    /// The bot runs in a chat.
    pub fn subscribe(&mut self, chat_id: ChatId)
        requires
            old(self).wf(),
        ensures
            final(self).wf(),
            final(self).chats() == old(self).chats().insert(chat_id),
            final(self).requests() == old(self).requests(),
    {
        broadcast use vstd::std_specs::hash::group_hash_axioms;

        self.chats.insert(chat_id);
    }

    /// The bot no longer runs in a chat.
    pub fn unsubscribe(&mut self, chat_id: ChatId)
        requires
            old(self).wf(),
        ensures
            final(self).wf(),
            final(self).chats() == old(self).chats().remove(chat_id),
            final(self).requests() == old(self).requests(),
    {
        broadcast use vstd::std_specs::hash::group_hash_axioms;

        self.chats.remove(&chat_id);
    }

    /// The chats in which the bot runs, each once.
    fn subscribers(&self) -> (r: Vec<ChatId>)
        ensures
            r@.no_duplicates(),
            r@.to_set() == self.chats(),
    {
        broadcast use vstd::std_specs::hash::group_hash_axioms;

        let mut r: Vec<ChatId> = Vec::new();
        let ghost all = self.chats.iter().remaining().unref();
        for chat_id in it: self.chats.iter()
            invariant
                it.seq().unref() == all,
                r@ == all.take(it.index() as int),
        {
            r.push(*chat_id);
        }
        assert(all.take(all.len() as int) =~= all);
        r
    }

    /// What is sent about an event: to whoever asked, or to every chat in which the bot runs. The
    /// order in which the chats come is left open. The request that led to the event is forgotten.
    pub fn notification_handler(&mut self, origin_id: OriginId, e: &Event) -> (r: Vec<Outgoing>)
        requires
            old(self).wf(),
        ensures
            final(self).wf(),
            final(self).chats() == old(self).chats(),
            final(self).requests() == other_entries(old(self).requests(), origin_id),
            exists|chats: Seq<ChatId>|
                chats.no_duplicates() && chats.to_set() == old(self).chats() && outgoing(r@)
                    == #[trigger] notification(
                    e@,
                    value_of(old(self).requests(), origin_id),
                    chats,
                ),
    {
        let chats = self.subscribers();
        self.requests.handle(origin_id, e, &chats)
    }
}

impl Default for StateData {
    fn default() -> (r: Self)
        ensures
            r.wf(),
            r.chats() == Set::<ChatId>::empty(),
            r.requests() == Seq::<(OriginId, RequestData)>::empty(),
    {
        broadcast use vstd::std_specs::hash::group_hash_axioms;

        StateData { chats: HashSet::new(), requests: Handler::new() }
    }
}

/// Everything that is short enough is let through: music or not, the tracks from the front stay in
/// their order as long as they last no longer than the limit together.
pub proof fn short_tracks_are_let_through(tracks: Seq<TrackView>, settings: Settings)
    ensures
        ({
            let kept = filtered(tracks, settings.full());
            &&& kept.len() <= tracks.len()
            &&& kept == tracks.take(kept.len() as int)
            &&& total_duration(kept) <= settings.max_request_duration
            &&& kept.len() < tracks.len() ==> total_duration(kept)
                + tracks[kept.len() as int].duration > settings.max_request_duration
        }),
        settings.full().max_request_duration == settings.max_request_duration,
        !settings.full().only_music_tracks,
{
    let kept = filtered(tracks, settings.full());
    let n = kept.len() as int;
    filter_takes_what_fits(tracks, settings.full());
    if tracks.len() > 0 {
        only_music_is_held_to_be_music(tracks, false, tracks[0]);
    } else {
        assert(allowed(tracks, false) =~= tracks) by {
            reveal(Seq::filter);
        }
    }
    if n < tracks.len() {
        durations_add_up(kept, tracks[n], Seq::empty());
        assert(tracks.take(n + 1) =~= kept.push(tracks[n]));
    }
}

} // verus!
