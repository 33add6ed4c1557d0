//! The track manager: which tracks are downloaded, which wait for that, and which are thrown away.
//!
//! A track is claimed once for each place in the queue that it has. Only so many tracks are on disk
//! or on their way there at one time; the others wait until a slot is free.

use crate::player::OriginId;
use crate::util::text_map::TextMap;
use crate::youtube::{Error as YoutubeError, ErrorView as YoutubeErrorView, TrackId};
use std::collections::VecDeque;
use vstd::multiset::Multiset;
use vstd::prelude::*;

verus! {

/// What the track manager tells about a track.
#[derive(Debug)]
pub enum Event {
    /// The track is on disk.
    Acquired { id: TrackId },
    /// The track is gone, after an error or because nobody claims it.
    Removed { id: TrackId, e: Option<(OriginId, YoutubeError)> },
}

/// An event, with its texts as sequences of characters.
pub enum EventView {
    Acquired { id: Seq<char> },
    Removed { id: Seq<char>, e: Option<(OriginId, YoutubeErrorView)> },
}

impl View for Event {
    type V = EventView;

    open spec fn view(&self) -> EventView {
        match self {
            Event::Acquired { id } => EventView::Acquired { id: id@ },
            Event::Removed { id, e } => EventView::Removed {
                id: id@,
                e: match e {
                    Some((origin_id, e)) => Some((*origin_id, e@)),
                    None => None,
                },
            },
        }
    }
}

/// What the track manager can be asked to do.
#[derive(Debug)]
pub enum Request {
    Claim { origin_id: OriginId, id: TrackId },
    Unclaim { id: TrackId },
    Clear,
}

/// One step in carrying out a request.
#[derive(Debug)]
pub enum Action {
    /// Start to download a track.
    Download { origin_id: OriginId, id: TrackId },
    /// Delete a file.
    RemoveFile { path: String },
    /// Tell of an event.
    Send(Event),
}

/// A step, with its texts as sequences of characters.
pub enum ActionView {
    Download { origin_id: OriginId, id: Seq<char> },
    RemoveFile { path: Seq<char> },
    Send(EventView),
}

impl View for Action {
    type V = ActionView;

    open spec fn view(&self) -> ActionView {
        match self {
            Action::Download { origin_id, id } => ActionView::Download {
                origin_id: *origin_id,
                id: id@,
            },
            Action::RemoveFile { path } => ActionView::RemoveFile { path: path@ },
            Action::Send(event) => ActionView::Send(event@),
        }
    }
}

/// The steps of a list.
pub open spec fn steps(actions: Seq<Action>) -> Seq<ActionView> {
    actions.map_values(|a: Action| a@)
}

/// What is known of one track.
#[derive(Debug)]
pub struct TrackData {
    /// Where the track is on disk, if it is there.
    pub path: Option<String>,
    /// How many places in the queue claim the track.
    pub claims: usize,
}

/// What is known of one track, with its path as a sequence of characters.
pub struct TrackDataView {
    pub path: Option<Seq<char>>,
    pub claims: nat,
}

impl View for TrackData {
    type V = TrackDataView;

    open spec fn view(&self) -> TrackDataView {
        TrackDataView {
            path: match self.path {
                Some(path) => Some(path@),
                None => None,
            },
            claims: self.claims as nat,
        }
    }
}

impl TrackDataView {
    /// A track that has just been claimed for the first time.
    pub open spec fn first_claim() -> TrackDataView {
        TrackDataView { path: None, claims: 1 }
    }

    /// The track, claimed once more.
    pub open spec fn claimed(self) -> TrackDataView {
        TrackDataView { claims: self.claims + 1, ..self }
    }

    /// The track, claimed once less.
    pub open spec fn unclaimed(self) -> TrackDataView {
        TrackDataView {
            claims: if self.claims == 0 {
                0
            } else {
                (self.claims - 1) as nat
            },
            ..self
        }
    }

    /// Whether a claim should start a download: it is the only one, and the track is not there.
    pub open spec fn needs_download(self) -> bool {
        self.claims <= 1 && self.path is None
    }

    /// Whether the track is on disk for nobody.
    pub open spec fn can_remove(self) -> bool {
        self.claims == 0 && self.path is Some
    }

    /// The track after a download. A path is kept only for those who claim it.
    pub open spec fn downloaded(self, path: Seq<char>) -> TrackDataView {
        if self.claims == 0 {
            self
        } else {
            TrackDataView { path: Some(path), ..self }
        }
    }
}

impl TrackData {
    fn needs_download(&self) -> (r: bool)
        ensures
            r == self@.needs_download(),
    {
        self.claims <= 1 && self.path.is_none()
    }

    fn present(&self) -> (r: bool)
        ensures
            r == (self@.path is Some),
    {
        self.path.is_some()
    }

    fn can_remove(&self) -> (r: bool)
        ensures
            r == self@.can_remove(),
    {
        self.claims == 0 && self.path.is_some()
    }

    /// Keeps the path if anybody claims the track. Otherwise hands it back: the file is for nobody.
    fn try_set_path(&mut self, path: String) -> (r: Option<String>)
        ensures
            final(self)@ == old(self)@.downloaded(path@),
            match r {
                Some(unwanted) => old(self)@.claims == 0 && unwanted@ == path@,
                None => old(self)@.claims > 0,
            },
    {
        if self.claims != 0 {
            self.path = Some(path);
            None
        } else {
            Some(path)
        }
    }

    fn claim(&mut self)
        requires
            old(self).claims < usize::MAX,
        ensures
            final(self)@ == old(self)@.claimed(),
    {
        self.claims = self.claims + 1;
    }

    fn unclaim(&mut self)
        ensures
            final(self)@ == old(self)@.unclaimed(),
    {
        if self.claims == 0 {
            return;
        }
        self.claims = self.claims - 1;
    }
}

/// The track manager.
#[derive(Debug)]
pub struct TrackManager {
    cache_size: usize,
    tracks: TextMap<TrackData>,
    queue: VecDeque<(OriginId, TrackId)>,
    size: usize,
}

/// The state of the track manager.
pub struct ManagerView {
    /// The number of slots.
    pub cache_size: nat,
    /// All tracks that are claimed or on disk.
    pub tracks: Map<Seq<char>, TrackDataView>,
    /// The downloads that wait for a slot, the first one first.
    pub queue: Seq<(OriginId, Seq<char>)>,
    /// The number of slots that are taken.
    pub size: nat,
}

/// Waiting downloads, with the tracks as sequences of characters.
pub open spec fn waiting(queue: Seq<(OriginId, TrackId)>) -> Seq<(OriginId, Seq<char>)> {
    queue.map_values(|w: (OriginId, TrackId)| (w.0, w.1@))
}

impl View for TrackManager {
    type V = ManagerView;

    closed spec fn view(&self) -> ManagerView {
        ManagerView {
            cache_size: self.cache_size as nat,
            tracks: self.tracks@,
            queue: waiting(self.queue@),
            size: self.size as nat,
        }
    }
}

impl ManagerView {
    /// No more slots are taken than there are, nothing waits while one is free, and nothing is on
    /// disk that nobody claims.
    pub open spec fn wf(self) -> bool {
        &&& self.size <= self.cache_size
        &&& self.queue.len() > 0 ==> self.size == self.cache_size
        &&& self.tracks.dom().finite()
        &&& forall|id: Seq<char>| #[trigger]
            self.tracks.contains_key(id) && self.tracks[id].path is Some
                ==> self.tracks[id].claims > 0
    }

    /// The tracks that are on disk.
    pub open spec fn on_disk(self) -> Set<Seq<char>> {
        self.tracks.dom().filter(|id: Seq<char>| self.tracks[id].path is Some)
    }

    /// Every track that is on disk has a slot, and so has every download that is running.
    pub open spec fn slots_suffice(self, running: nat) -> bool {
        self.wf() && self.on_disk().len() + running <= self.size
    }

    /// A manager that knows of no track.
    pub open spec fn idle(cache_size: nat) -> ManagerView {
        ManagerView { cache_size, tracks: Map::empty(), queue: seq![], size: 0 }
    }

    /// Asked for a download: it takes a free slot, or waits for one.
    pub open spec fn ask_download(self, origin_id: OriginId, id: Seq<char>) -> ManagerView {
        if self.size == self.cache_size {
            ManagerView { queue: self.queue.push((origin_id, id)), ..self }
        } else {
            ManagerView { size: self.size + 1, ..self }
        }
    }

    /// What asking for a download carries out.
    pub open spec fn ask_steps(self, origin_id: OriginId, id: Seq<char>) -> Seq<ActionView> {
        if self.size == self.cache_size {
            seq![]
        } else {
            seq![ActionView::Download { origin_id, id }]
        }
    }

    /// Whether a claim asks for a download.
    pub open spec fn claim_asks(self, id: Seq<char>) -> bool {
        self.tracks.contains_key(id) ==> self.tracks[id].claimed().needs_download()
    }

    /// A track with one more claim.
    pub open spec fn with_claim(self, id: Seq<char>) -> ManagerView {
        ManagerView {
            tracks: self.tracks.insert(
                id,
                if self.tracks.contains_key(id) {
                    self.tracks[id].claimed()
                } else {
                    TrackDataView::first_claim()
                },
            ),
            ..self
        }
    }

    /// The manager after a claim.
    pub open spec fn claim(self, origin_id: OriginId, id: Seq<char>) -> ManagerView {
        if self.claim_asks(id) {
            self.with_claim(id).ask_download(origin_id, id)
        } else {
            self.with_claim(id)
        }
    }

    /// What a claim carries out. A track that is on disk already is told of at once.
    pub open spec fn claim_steps(self, origin_id: OriginId, id: Seq<char>) -> Seq<ActionView> {
        if self.claim_asks(id) {
            self.ask_steps(origin_id, id)
        } else if self.tracks[id].path is Some {
            seq![ActionView::Send(EventView::Acquired { id })]
        } else {
            seq![]
        }
    }

    /// The manager without a track, whose slot goes to the first download that waits for one.
    pub open spec fn rotate(self, id: Seq<char>) -> ManagerView {
        let tracks = self.tracks.remove(id);
        if self.queue.len() > 0 {
            ManagerView { tracks, queue: self.queue.skip(1), ..self }
        } else {
            ManagerView { tracks, size: (self.size - 1) as nat, ..self }
        }
    }

    /// What giving a slot away carries out.
    pub open spec fn rotate_steps(self) -> Seq<ActionView> {
        if self.queue.len() > 0 {
            seq![ActionView::Download { origin_id: self.queue[0].0, id: self.queue[0].1 }]
        } else {
            seq![]
        }
    }

    /// Whether there is a slot to give away.
    pub open spec fn can_rotate(self) -> bool {
        self.queue.len() > 0 || self.size > 0
    }

    /// Whether a track leaves with its last claim.
    pub open spec fn unclaim_removes(self, id: Seq<char>) -> bool {
        self.tracks.contains_key(id) && self.tracks[id].unclaimed().can_remove()
    }

    /// The manager after a claim is given up.
    pub open spec fn unclaim(self, id: Seq<char>) -> ManagerView {
        if !self.tracks.contains_key(id) {
            self
        } else if self.unclaim_removes(id) {
            self.rotate(id)
        } else {
            ManagerView { tracks: self.tracks.insert(id, self.tracks[id].unclaimed()), ..self }
        }
    }

    /// What giving up a claim carries out.
    pub open spec fn unclaim_steps(self, id: Seq<char>) -> Seq<ActionView> {
        if self.unclaim_removes(id) {
            seq![ActionView::RemoveFile { path: self.tracks[id].path->0 }] + self.rotate_steps()
                + seq![ActionView::Send(EventView::Removed { id, e: None })]
        } else {
            seq![]
        }
    }

    /// The manager after a download.
    pub open spec fn finish(self, id: Seq<char>, path: Seq<char>) -> ManagerView {
        ManagerView { tracks: self.tracks.insert(id, self.tracks[id].downloaded(path)), ..self }
    }

    /// What a download carries out.
    pub open spec fn finish_steps(self, id: Seq<char>, path: Seq<char>) -> Seq<ActionView> {
        let told = seq![ActionView::Send(EventView::Acquired { id })];
        if self.tracks[id].claims == 0 {
            seq![ActionView::RemoveFile { path }] + told
        } else {
            told
        }
    }

    /// What a failed download carries out.
    pub open spec fn fail_steps(
        self,
        origin_id: OriginId,
        id: Seq<char>,
        e: YoutubeErrorView,
    ) -> Seq<ActionView> {
        self.rotate_steps().push(
            ActionView::Send(EventView::Removed { id, e: Some((origin_id, e)) }),
        )
    }

    /// Whether a request can be carried out: no count overflows, and a slot that is given away has
    /// been taken before.
    pub open spec fn accepts(self, req: Request) -> bool {
        match req {
            Request::Claim { origin_id: _, id } => self.tracks.contains_key(id@)
                ==> self.tracks[id@].claims < usize::MAX,
            Request::Unclaim { id } => self.unclaim_removes(id@) ==> self.can_rotate(),
            Request::Clear => true,
        }
    }

    /// The manager after a request.
    pub open spec fn after(self, req: Request) -> ManagerView {
        match req {
            Request::Claim { origin_id, id } => self.claim(origin_id, id@),
            Request::Unclaim { id } => self.unclaim(id@),
            Request::Clear => ManagerView::idle(self.cache_size),
        }
    }

    /// What a request carries out.
    pub open spec fn steps(self, req: Request) -> Seq<ActionView> {
        match req {
            Request::Claim { origin_id, id } => self.claim_steps(origin_id, id@),
            Request::Unclaim { id } => self.unclaim_steps(id@),
            Request::Clear => seq![],
        }
    }
}

impl TrackManager {
    /// What can be relied on between requests.
    pub closed spec fn wf(&self) -> bool {
        self.tracks.wf() && self@.wf()
    }

    /// What is well-formed has a well-formed state.
    pub proof fn wf_of_view(&self)
        requires
            self.wf(),
        ensures
            self@.wf(),
    {
    }

    /// A manager with one slot for the track that is played, and as many more as are given.
    pub fn new(cache_size: usize) -> (r: TrackManager)
        requires
            cache_size < usize::MAX,
        ensures
            r.wf(),
            r@ == ManagerView::idle((cache_size + 1) as nat),
    {
        let r = TrackManager {
            cache_size: 1 + cache_size,
            tracks: TextMap::new(),
            queue: VecDeque::new(),
            size: 0,
        };
        assert(r@.queue =~= Seq::empty());
        r
    }

    /// Whether a request can be carried out.
    pub fn can_handle(&self, req: &Request) -> (r: bool)
        requires
            self.wf(),
        ensures
            r == self@.accepts(*req),
    {
        match req {
            Request::Claim { origin_id: _, id } => match self.tracks.get(id.as_str()) {
                Some(track) => track.claims < usize::MAX,
                None => true,
            },
            Request::Unclaim { id } => match self.tracks.get(id.as_str()) {
                Some(track) => {
                    let removes = track.claims <= 1 && track.present();
                    assert(removes == self@.unclaim_removes(id@));
                    !removes || self.can_rotate()
                },
                None => true,
            },
            Request::Clear => true,
        }
    }

    /// Whether there is a slot to give away.
    pub fn can_rotate(&self) -> (r: bool)
        ensures
            r == self@.can_rotate(),
    {
        self.queue.len() > 0 || self.size > 0
    }

    /// Whether a track is claimed or on disk.
    pub fn knows(&self, id: &str) -> (r: bool)
        requires
            self.wf(),
        ensures
            r == self@.tracks.contains_key(id@),
    {
        self.tracks.contains_key(id)
    }

    /// Carries out a request.
    pub fn request_handler(&mut self, req: Request) -> (r: Vec<Action>)
        requires
            old(self).wf(),
            old(self)@.accepts(req),
        ensures
            final(self).wf(),
            final(self)@ == old(self)@.after(req),
            steps(r@) == old(self)@.steps(req),
    {
        match req {
            Request::Claim { origin_id, id } => self.claim(origin_id, id),
            Request::Unclaim { id } => self.unclaim(id),
            Request::Clear => {
                self.clear();
                let r: Vec<Action> = Vec::new();
                assert(steps(r@) =~= Seq::empty());
                r
            },
        }
    }

    /// Claims a track, which is downloaded if it is not there.
    pub fn claim(&mut self, origin_id: OriginId, id: TrackId) -> (r: Vec<Action>)
        requires
            old(self).wf(),
            old(self)@.tracks.contains_key(id@) ==> old(self)@.tracks[id@].claims < usize::MAX,
        ensures
            final(self).wf(),
            final(self)@ == old(self)@.claim(origin_id, id@),
            steps(r@) == old(self)@.claim_steps(origin_id, id@),
    {
        let ghost before = self@;
        match self.tracks.remove(id.as_str()) {
            Some(track) => {
                let mut track = track;
                track.claim();
                let needs_download = track.needs_download();
                let present = track.present();
                self.tracks.insert(id.clone(), track);
                assert(self@.tracks =~= before.with_claim(id@).tracks);
                if needs_download {
                    self.try_download(origin_id, id)
                } else if present {
                    let r = vec![Action::Send(Event::Acquired { id })];
                    assert(steps(r@) =~= before.claim_steps(origin_id, id@));
                    r
                } else {
                    let r: Vec<Action> = Vec::new();
                    assert(steps(r@) =~= Seq::empty());
                    r
                }
            },
            None => {
                let mut track = TrackData { path: None, claims: 0 };
                track.claim();
                self.tracks.insert(id.clone(), track);
                assert(self@.tracks =~= before.with_claim(id@).tracks);
                self.try_download(origin_id, id)
            },
        }
    }

    /// Gives up a claim. With its last claim a track that is there leaves.
    pub fn unclaim(&mut self, id: TrackId) -> (r: Vec<Action>)
        requires
            old(self).wf(),
            old(self)@.unclaim_removes(id@) ==> old(self)@.can_rotate(),
        ensures
            final(self).wf(),
            final(self)@ == old(self)@.unclaim(id@),
            steps(r@) == old(self)@.unclaim_steps(id@),
    {
        let ghost before = self@;
        let mut r: Vec<Action> = Vec::new();
        match self.tracks.remove(id.as_str()) {
            Some(track) => {
                let mut track = track;
                track.unclaim();
                if !track.can_remove() {
                    self.tracks.insert(id, track);
                    assert(self@.tracks =~= before.unclaim(id@).tracks);
                    assert(steps(r@) =~= Seq::empty());
                    return r;
                }
                if let Some(path) = track.path {
                    r.push(Action::RemoveFile { path });
                }
                if let Some(action) = self.give_slot_away() {
                    r.push(action);
                }
                r.push(Action::Send(Event::Removed { id, e: None }));
                assert(steps(r@) =~= before.unclaim_steps(id@));
                r
            },
            None => {
                assert(self@.tracks =~= before.tracks);
                assert(steps(r@) =~= Seq::empty());
                r
            },
        }
    }

    /// Forgets everything.
    pub fn clear(&mut self)
        requires
            old(self).wf(),
        ensures
            final(self).wf(),
            final(self)@ == ManagerView::idle(old(self)@.cache_size),
    {
        self.queue.clear();
        self.tracks.clear();
        self.size = 0;
        assert(self@.queue =~= Seq::empty());
    }

    /// Takes note of a download. The track must still be known.
    pub fn download_finished(&mut self, id: TrackId, path: String) -> (r: Vec<Action>)
        requires
            old(self).wf(),
            old(self)@.tracks.contains_key(id@),
        ensures
            final(self).wf(),
            final(self)@ == old(self)@.finish(id@, path@),
            steps(r@) == old(self)@.finish_steps(id@, path@),
    {
        let ghost before = self@;
        let mut r: Vec<Action> = Vec::new();
        if let Some(track) = self.tracks.remove(id.as_str()) {
            let mut track = track;
            if let Some(path) = track.try_set_path(path) {
                r.push(Action::RemoveFile { path });
            }
            self.tracks.insert(id.clone(), track);
        }
        assert(self@.tracks =~= before.finish(id@, path@).tracks);
        r.push(Action::Send(Event::Acquired { id }));
        assert(steps(r@) =~= before.finish_steps(id@, path@));
        r
    }

    /// Takes note of a download that failed. Its slot is given away.
    pub fn download_error(
        &mut self,
        origin_id: OriginId,
        id: TrackId,
        e: YoutubeError,
    ) -> (r: Vec<Action>)
        requires
            old(self).wf(),
            old(self)@.can_rotate(),
        ensures
            final(self).wf(),
            final(self)@ == old(self)@.rotate(id@),
            steps(r@) == old(self)@.fail_steps(origin_id, id@, e@),
    {
        let ghost before = self@;
        let mut r: Vec<Action> = Vec::new();
        if let Some(action) = self.rotate_track(id.as_str()) {
            r.push(action);
        }
        r.push(Action::Send(Event::Removed { id, e: Some((origin_id, e)) }));
        assert(steps(r@) =~= before.fail_steps(origin_id, id@, e@));
        r
    }

    /// Asks for a download: it takes a free slot, or waits for one.
    pub fn try_download(&mut self, origin_id: OriginId, id: TrackId) -> (r: Vec<Action>)
        requires
            old(self).wf(),
        ensures
            final(self).wf(),
            final(self)@ == old(self)@.ask_download(origin_id, id@),
            steps(r@) == old(self)@.ask_steps(origin_id, id@),
    {
        let ghost before = self@;
        let mut r: Vec<Action> = Vec::new();
        if self.size == self.cache_size {
            self.queue.push_back((origin_id, id));
            assert(self@.queue =~= before.queue.push((origin_id, id@)));
        } else {
            self.size = self.size + 1;
            r.push(Action::Download { origin_id, id });
        }
        assert(steps(r@) =~= before.ask_steps(origin_id, id@));
        r
    }

    /// Removes a track, and gives its slot away.
    fn rotate_track(&mut self, id: &str) -> (r: Option<Action>)
        requires
            old(self).wf(),
            old(self)@.can_rotate(),
        ensures
            final(self).wf(),
            final(self)@ == old(self)@.rotate(id@),
            match r {
                Some(action) => old(self)@.rotate_steps() == seq![action@],
                None => old(self)@.rotate_steps() == Seq::<ActionView>::empty(),
            },
    {
        self.tracks.remove(id);
        self.give_slot_away()
    }

    /// Gives a slot away.
    fn give_slot_away(&mut self) -> (r: Option<Action>)
        requires
            old(self).wf(),
            old(self)@.can_rotate(),
        ensures
            final(self).wf(),
            final(self)@.cache_size == old(self)@.cache_size,
            final(self)@.tracks == old(self)@.tracks,
            old(self)@.queue.len() > 0 ==> final(self)@.queue == old(self)@.queue.skip(1)
                && final(self)@.size == old(self)@.size,
            old(self)@.queue.len() == 0 ==> final(self)@.queue == old(self)@.queue
                && final(self)@.size == old(self)@.size - 1,
            match r {
                Some(action) => old(self)@.rotate_steps() == seq![action@],
                None => old(self)@.rotate_steps() == Seq::<ActionView>::empty(),
            },
    {
        let ghost before = self@;
        match self.queue.pop_front() {
            Some((origin_id, id)) => {
                assert(self@.queue =~= before.queue.skip(1));
                Some(Action::Download { origin_id, id })
            },
            None => {
                self.size = self.size - 1;
                None
            },
        }
    }
}

/// The downloads that some steps start, in their order.
pub open spec fn started(steps: Seq<ActionView>) -> Seq<(OriginId, Seq<char>)>
    decreases steps.len(),
{
    if steps.len() == 0 {
        seq![]
    } else {
        let front = started(steps.drop_last());
        match steps.last() {
            ActionView::Download { origin_id, id } => front.push((origin_id, id)),
            _ => front,
        }
    }
}

/// What at most three steps start, where only the step before the last can be a download.
proof fn started_unfolds(steps: Seq<ActionView>)
    ensures
        steps.len() == 0 ==> started(steps) == Seq::<(OriginId, Seq<char>)>::empty(),
        steps.len() == 1 ==> started(steps) == match steps[0] {
            ActionView::Download { origin_id, id } => seq![(origin_id, id)],
            _ => seq![],
        },
        steps.len() == 2 && steps[1] !is Download ==> started(steps) == match steps[0] {
            ActionView::Download { origin_id, id } => seq![(origin_id, id)],
            _ => seq![],
        },
        steps.len() == 3 && steps[0] !is Download && steps[2] !is Download ==> started(steps)
            == match steps[1] {
            ActionView::Download { origin_id, id } => seq![(origin_id, id)],
            _ => seq![],
        },
{
    reveal_with_fuel(started, 4);
    let nothing = Seq::<(OriginId, Seq<char>)>::empty();
    if steps.len() == 1 {
        assert(started(steps.drop_last()) =~= nothing);
    }
    if steps.len() == 2 {
        assert(started(steps.drop_last().drop_last()) =~= nothing);
    }
    if steps.len() == 3 {
        assert(started(steps.drop_last().drop_last().drop_last()) =~= nothing);
    }
}

/// What changing one track does to what is on disk.
proof fn on_disk_after_change(m: ManagerView, id: Seq<char>, track: TrackDataView)
    requires
        m.tracks.dom().finite(),
    ensures
        ({
            let next = ManagerView { tracks: m.tracks.insert(id, track), ..m };
            &&& track.path is Some ==> next.on_disk() == m.on_disk().insert(id)
            &&& track.path is None ==> next.on_disk() == m.on_disk().remove(id)
            &&& next.on_disk().len() <= m.on_disk().len() + 1
            &&& track.path is None ==> next.on_disk().len() <= m.on_disk().len()
            &&& m.on_disk().contains(id) ==> next.on_disk().len() <= m.on_disk().len()
        }),
        ({
            let next = ManagerView { tracks: m.tracks.remove(id), ..m };
            &&& next.on_disk() == m.on_disk().remove(id)
            &&& next.on_disk().len() <= m.on_disk().len()
            &&& m.on_disk().contains(id) ==> next.on_disk().len() < m.on_disk().len()
        }),
{
    let next = ManagerView { tracks: m.tracks.insert(id, track), ..m };
    if track.path is Some {
        assert(next.on_disk() =~= m.on_disk().insert(id));
    } else {
        assert(next.on_disk() =~= m.on_disk().remove(id));
    }
    let without = ManagerView { tracks: m.tracks.remove(id), ..m };
    assert(without.on_disk() =~= m.on_disk().remove(id));
}

/// A fresh manager has all its slots free.
pub proof fn slots_suffice_at_first(cache_size: nat)
    ensures
        ManagerView::idle(cache_size).slots_suffice(0),
{
    assert(ManagerView::idle(cache_size).on_disk() =~= Set::empty());
}

/// A download that is asked for takes a slot or waits, never both and never neither. It waits only
/// while no slot is free, nothing else changes, and there are never more slots taken than there are.
pub proof fn asked_downloads_start_or_wait(m: ManagerView, origin_id: OriginId, id: Seq<char>)
    requires
        m.wf(),
    ensures
        ({
            let next = m.ask_download(origin_id, id);
            let steps = m.ask_steps(origin_id, id);
            &&& next.wf()
            &&& next.cache_size == m.cache_size
            &&& next.tracks == m.tracks
            &&& m.size < m.cache_size ==> steps == seq![ActionView::Download { origin_id, id }]
                && next.size == m.size + 1 && next.queue == m.queue
            &&& m.size == m.cache_size ==> steps == Seq::<ActionView>::empty() && next.size
                == m.size && next.queue == m.queue.push((origin_id, id))
        }),
{
}

/// No more tracks are on disk or on their way there than there are slots: no request changes that.
/// Only forgetting everything while a download is running does.
pub proof fn slots_suffice_after_request(m: ManagerView, req: Request, running: nat)
    requires
        m.slots_suffice(running),
        req is Clear ==> running == 0,
    ensures
        m.after(req).slots_suffice(running + started(m.steps(req)).len()),
        m.on_disk().len() + running <= m.cache_size,
{
    started_unfolds(m.steps(req));
    match req {
        Request::Claim { origin_id, id } => {
            on_disk_after_change(m, id@, m.with_claim(id@).tracks[id@]);
            assert(m.with_claim(id@).tracks == m.claim(origin_id, id@).tracks);
            assert(m.claim(origin_id, id@).on_disk() == m.with_claim(id@).on_disk());
            if m.tracks.contains_key(id@) {
                assert(m.tracks[id@].path is Some ==> m.on_disk().contains(id@));
            }
        },
        Request::Unclaim { id } => {
            if m.tracks.contains_key(id@) {
                on_disk_after_change(m, id@, m.tracks[id@].unclaimed());
                if m.unclaim_removes(id@) {
                    assert(m.on_disk().contains(id@));
                    assert(m.unclaim(id@).on_disk() == (ManagerView {
                        tracks: m.tracks.remove(id@),
                        ..m
                    }).on_disk());
                } else {
                    assert(m.tracks[id@].path is Some ==> m.on_disk().contains(id@));
                }
            }
        },
        Request::Clear => {
            slots_suffice_at_first(m.cache_size);
        },
    }
}

/// No more tracks are on disk or on their way there than there are slots: no download that ends
/// changes that.
pub proof fn slots_suffice_after_download(
    m: ManagerView,
    origin_id: OriginId,
    id: Seq<char>,
    path: Seq<char>,
    e: YoutubeErrorView,
    running: nat,
)
    requires
        m.slots_suffice(running),
        running > 0,
    ensures
        m.tracks.contains_key(id) ==> m.finish(id, path).slots_suffice((running - 1) as nat),
        m.can_rotate(),
        m.rotate(id).slots_suffice(
            (running - 1 + started(m.fail_steps(origin_id, id, e)).len()) as nat,
        ),
{
    started_unfolds(m.fail_steps(origin_id, id, e));
    on_disk_after_change(m, id, m.tracks[id].downloaded(path));
    assert(m.rotate(id).on_disk() == (ManagerView {
        tracks: m.tracks.remove(id),
        ..m
    }).on_disk());
    if m.tracks.contains_key(id) {
        assert(m.tracks[id].path is Some ==> m.on_disk().contains(id));
    }
}

/// A track that leaves has a slot to give away, as long as the slots suffice.
pub proof fn unclaim_is_accepted(m: ManagerView, id: TrackId, running: nat)
    requires
        m.slots_suffice(running),
    ensures
        m.accepts(Request::Unclaim { id }),
{
    if m.unclaim_removes(id@) {
        assert(m.on_disk().contains(id@));
        assert(m.on_disk().len() > 0);
    }
}

/// Downloads start in the order in which they were asked for: those that a request starts, followed
/// by those that then wait, are those that waited before, followed by the one that it asks for.
pub proof fn downloads_start_in_order(m: ManagerView, origin_id: OriginId, id: TrackId)
    requires
        m.wf(),
    ensures
        ({
            let req = Request::Claim { origin_id, id };
            started(m.steps(req)) + m.after(req).queue == if m.claim_asks(id@) {
                m.queue.push((origin_id, id@))
            } else {
                m.queue
            }
        }),
        ({
            let req = Request::Unclaim { id };
            started(m.steps(req)) + m.after(req).queue == m.queue
        }),
        forall|e: YoutubeErrorView|
            started(#[trigger] m.fail_steps(origin_id, id@, e)) + m.rotate(id@).queue == m.queue,
{
    started_unfolds(m.steps(Request::Claim { origin_id, id }));
    started_unfolds(m.steps(Request::Unclaim { id }));
    let claim = Request::Claim { origin_id, id };
    if m.claim_asks(id@) {
        assert(started(m.steps(claim)) + m.after(claim).queue =~= m.queue.push((origin_id, id@)));
    } else {
        assert(started(m.steps(claim)) + m.after(claim).queue =~= m.queue);
    }
    let unclaim = Request::Unclaim { id };
    assert(started(m.steps(unclaim)) + m.after(unclaim).queue =~= m.queue);
    assert forall|e: YoutubeErrorView|
        started(#[trigger] m.fail_steps(origin_id, id@, e)) + m.rotate(id@).queue == m.queue by {
        started_unfolds(m.fail_steps(origin_id, id@, e));
        assert(started(m.fail_steps(origin_id, id@, e)) + m.rotate(id@).queue =~= m.queue);
    }
}

/// A further claim that is given up again leaves everything as it was.
pub proof fn unclaim_undoes_claim(m: ManagerView, origin_id: OriginId, id: Seq<char>)
    requires
        m.tracks.contains_key(id),
        m.tracks[id].claims > 0,
    ensures
        m.claim(origin_id, id).unclaim(id) == m,
{
    assert(m.claim(origin_id, id).unclaim(id).tracks =~= m.tracks);
}

/// The downloads that are running, once some more have been started.
pub open spec fn running_after(
    running: Multiset<Seq<char>>,
    more: Seq<(OriginId, Seq<char>)>,
) -> Multiset<Seq<char>>
    decreases more.len(),
{
    if more.len() == 0 {
        running
    } else {
        running_after(running, more.drop_last()).insert(more.last().1)
    }
}

/// At most one more.
proof fn running_unfolds(running: Multiset<Seq<char>>, more: Seq<(OriginId, Seq<char>)>)
    ensures
        more.len() == 0 ==> running_after(running, more) == running,
        more.len() == 1 ==> running_after(running, more) == running.insert(more[0].1),
{
    reveal_with_fuel(running_after, 2);
}

/// Every track that is claimed is on disk, or a download of it is running, or waits.
pub open spec fn on_the_way(m: ManagerView, running: Multiset<Seq<char>>) -> bool {
    forall|id: Seq<char>| #[trigger]
        m.tracks.contains_key(id) && m.tracks[id].claims > 0 && m.tracks[id].path is None
            ==> running.contains(id) || waits(m, id)
}

/// Whether a download of a track waits.
pub open spec fn waits(m: ManagerView, id: Seq<char>) -> bool {
    exists|i: int| 0 <= i < m.queue.len() && (#[trigger] m.queue[i]).1 == id
}

/// A download that waits goes on to wait when another one comes after it.
proof fn waits_on(m: ManagerView, next: ManagerView, more: (OriginId, Seq<char>), id: Seq<char>)
    requires
        next.queue == m.queue.push(more),
    ensures
        waits(m, id) ==> waits(next, id),
        waits(next, more.1),
{
    assert(next.queue[m.queue.len() as int] == more);
    if waits(m, id) {
        let i = choose|i: int| 0 <= i < m.queue.len() && (#[trigger] m.queue[i]).1 == id;
        assert(next.queue[i].1 == id);
    }
}

/// A download that waits goes on to wait, or is the one that is started.
proof fn waits_or_starts(m: ManagerView, next: ManagerView, id: Seq<char>)
    requires
        m.queue.len() > 0,
        next.queue == m.queue.skip(1),
        waits(m, id),
    ensures
        id == m.queue[0].1 || waits(next, id),
{
    let i = choose|i: int| 0 <= i < m.queue.len() && (#[trigger] m.queue[i]).1 == id;
    if i > 0 {
        assert(next.queue[i - 1].1 == id);
    }
}

/// Giving a slot away loses no download.
proof fn rotate_keeps_all_on_the_way(
    m: ManagerView,
    running: Multiset<Seq<char>>,
    id: Seq<char>,
    steps: Seq<ActionView>,
)
    requires
        on_the_way(m, running),
        started(steps) == started(m.rotate_steps()),
    ensures
        on_the_way(m.rotate(id), running_after(running, started(steps))),
        on_the_way(m.rotate(id), running_after(running.remove(id), started(steps))),
{
    started_unfolds(m.rotate_steps());
    running_unfolds(running, started(steps));
    running_unfolds(running.remove(id), started(steps));
    let next = m.rotate(id);
    assert forall|x: Seq<char>| #[trigger]
        next.tracks.contains_key(x) && next.tracks[x].claims > 0 && next.tracks[x].path
            is None implies (running_after(running, started(steps)).contains(x) && running_after(
        running.remove(id),
        started(steps),
    ).contains(x)) || waits(next, x) by {
        assert(m.tracks.contains_key(x));
        if !running.contains(x) && m.queue.len() > 0 {
            waits_or_starts(m, next, x);
        }
    }
}

/// No claim is forgotten: whatever is asked, every track that is claimed is on disk afterwards, or a
/// download of it is running or waits.
pub proof fn claims_are_not_forgotten(m: ManagerView, running: Multiset<Seq<char>>, req: Request)
    requires
        on_the_way(m, running),
    ensures
        on_the_way(m.after(req), running_after(running, started(m.steps(req)))),
{
    started_unfolds(m.steps(req));
    running_unfolds(running, started(m.steps(req)));
    match req {
        Request::Claim { origin_id, id } => {
            let next = m.claim(origin_id, id@);
            assert forall|x: Seq<char>| #[trigger]
                next.tracks.contains_key(x) && next.tracks[x].claims > 0 && next.tracks[x].path
                    is None implies running_after(running, started(m.steps(req))).contains(x)
                || waits(next, x) by {
                if m.claim_asks(id@) && m.size == m.cache_size {
                    waits_on(m, next, (origin_id, id@), x);
                }
                if x != id@ || !m.claim_asks(id@) {
                    assert(m.tracks.contains_key(x));
                    assert(running.contains(x) || waits(m, x));
                    if waits(m, x) && next.queue == m.queue {
                        let i = choose|i: int|
                            0 <= i < m.queue.len() && (#[trigger] m.queue[i]).1 == x;
                        assert(next.queue[i].1 == x);
                    }
                }
            }
        },
        Request::Unclaim { id } => {
            let next = m.unclaim(id@);
            if m.unclaim_removes(id@) {
                started_unfolds(m.rotate_steps());
                rotate_keeps_all_on_the_way(m, running, id@, m.steps(req));
            } else {
                assert forall|x: Seq<char>| #[trigger]
                    next.tracks.contains_key(x) && next.tracks[x].claims > 0
                        && next.tracks[x].path is None implies running.contains(x) || waits(
                    next,
                    x,
                ) by {
                    assert(m.tracks.contains_key(x));
                    if waits(m, x) {
                        let i = choose|i: int|
                            0 <= i < m.queue.len() && (#[trigger] m.queue[i]).1 == x;
                        assert(next.queue[i].1 == x);
                    }
                }
            }
        },
        Request::Clear => {},
    }
}

/// No claim is forgotten when a download ends, in whatever way.
pub proof fn claims_outlast_downloads(
    m: ManagerView,
    running: Multiset<Seq<char>>,
    origin_id: OriginId,
    id: Seq<char>,
    path: Seq<char>,
    e: YoutubeErrorView,
)
    requires
        on_the_way(m, running),
    ensures
        m.tracks.contains_key(id) ==> on_the_way(m.finish(id, path), running.remove(id)),
        on_the_way(
            m.rotate(id),
            running_after(running.remove(id), started(m.fail_steps(origin_id, id, e))),
        ),
{
    started_unfolds(m.fail_steps(origin_id, id, e));
    started_unfolds(m.rotate_steps());
    rotate_keeps_all_on_the_way(m, running, id, m.fail_steps(origin_id, id, e));
    if m.tracks.contains_key(id) {
        let next = m.finish(id, path);
        assert forall|x: Seq<char>| #[trigger]
            next.tracks.contains_key(x) && next.tracks[x].claims > 0 && next.tracks[x].path
                is None implies running.remove(id).contains(x) || waits(next, x) by {
            assert(m.tracks.contains_key(x));
            if waits(m, x) {
                let i = choose|i: int| 0 <= i < m.queue.len() && (#[trigger] m.queue[i]).1 == x;
                assert(next.queue[i].1 == x);
            }
        }
    }
}

/// Every download that ends well is told of: the last step is to tell that the track is there, and
/// nothing else is told. Before that, the file is deleted exactly if nobody claims the track. Its
/// path is kept exactly for those who do, and nothing else changes.
pub proof fn finished_downloads_are_told_of(m: ManagerView, id: Seq<char>, path: Seq<char>)
    requires
        m.tracks.contains_key(id),
    ensures
        ({
            let steps = m.finish_steps(id, path);
            let told = ActionView::Send(EventView::Acquired { id });
            &&& steps.len() > 0 && steps.last() == told
            &&& forall|i: int| 0 <= i < steps.len() - 1 ==> (#[trigger] steps[i]) !is Send
            &&& m.tracks[id].claims > 0 ==> steps.len() == 1
            &&& m.tracks[id].claims == 0 ==> steps.len() == 2 && steps[0]
                == (ActionView::RemoveFile { path })
        }),
        ({
            let next = m.finish(id, path);
            &&& next.cache_size == m.cache_size && next.size == m.size && next.queue == m.queue
            &&& next.tracks.dom() == m.tracks.dom()
            &&& next.tracks[id].claims == m.tracks[id].claims
            &&& m.tracks[id].claims > 0 ==> next.tracks[id].path == Some(path)
            &&& m.tracks[id].claims == 0 ==> next.tracks[id].path == m.tracks[id].path
            &&& forall|x: Seq<char>|
                x != id && m.tracks.contains_key(x) ==> #[trigger] next.tracks[x] == m.tracks[x]
        }),
{
    assert(m.finish(id, path).tracks.dom() =~= m.tracks.dom());
}

/// A claim counts, for that track only, and takes no path away. A download is asked for exactly if
/// the track is not known, or is known to nobody and not on disk. A track that is on disk is told of
/// at once, and only then is anything told.
pub proof fn claims_count(m: ManagerView, origin_id: OriginId, id: Seq<char>)
    ensures
        ({
            let next = m.claim(origin_id, id);
            let steps = m.claim_steps(origin_id, id);
            let known = m.tracks.contains_key(id);
            let asks = !known || (m.tracks[id].claims == 0 && m.tracks[id].path is None);
            &&& next.cache_size == m.cache_size
            &&& next.tracks.dom() == m.tracks.dom().insert(id)
            &&& known ==> next.tracks[id].claims == m.tracks[id].claims + 1 && next.tracks[id].path
                == m.tracks[id].path
            &&& !known ==> next.tracks[id].claims == 1 && next.tracks[id].path is None
            &&& forall|x: Seq<char>|
                x != id && m.tracks.contains_key(x) ==> #[trigger] next.tracks[x] == m.tracks[x]
            &&& asks && m.size != m.cache_size ==> steps.len() == 1 && steps[0]
                == (ActionView::Download { origin_id, id }) && next.size == m.size + 1
                && next.queue == m.queue
            &&& asks && m.size == m.cache_size ==> steps.len() == 0 && next.size == m.size
                && next.queue.len() == m.queue.len() + 1 && next.queue.last() == (origin_id, id)
                && next.queue.drop_last() == m.queue
            &&& !asks ==> next.size == m.size && next.queue == m.queue
            &&& !asks && m.tracks[id].path is Some ==> steps.len() == 1 && steps[0]
                == ActionView::Send(EventView::Acquired { id })
            &&& !asks && m.tracks[id].path is None ==> steps.len() == 0
        }),
{
    let next = m.claim(origin_id, id);
    assert(next.tracks.dom() =~= m.tracks.dom().insert(id));
    assert(m.queue.push((origin_id, id)).drop_last() =~= m.queue);
}

/// Giving up a claim takes away one claim, if there is one. With the last claim a track that is on
/// disk leaves: its file is deleted, its slot goes to the first download that waits or becomes free,
/// and it is told of last. Otherwise nothing is done. No other track changes.
pub proof fn the_last_claim_takes_the_track_along(m: ManagerView, id: Seq<char>)
    ensures
        ({
            let next = m.unclaim(id);
            let steps = m.unclaim_steps(id);
            let leaves = m.tracks.contains_key(id) && m.tracks[id].claims <= 1
                && m.tracks[id].path is Some;
            &&& next.cache_size == m.cache_size
            &&& forall|x: Seq<char>|
                x != id ==> (#[trigger] next.tracks.contains_key(x) <==> m.tracks.contains_key(x))
            &&& forall|x: Seq<char>|
                x != id && m.tracks.contains_key(x) ==> #[trigger] next.tracks[x] == m.tracks[x]
            &&& !leaves ==> steps.len() == 0 && next.size == m.size && next.queue == m.queue
                && next.tracks.dom() == m.tracks.dom()
            &&& !leaves && m.tracks.contains_key(id) ==> next.tracks[id].path == m.tracks[id].path
                && next.tracks[id].claims == if m.tracks[id].claims == 0 {
                0
            } else {
                m.tracks[id].claims - 1
            }
            &&& leaves ==> {
                &&& !next.tracks.contains_key(id)
                &&& steps[0] == (ActionView::RemoveFile { path: m.tracks[id].path->0 })
                &&& steps.last() == ActionView::Send(EventView::Removed { id, e: None })
            }
            &&& leaves && m.queue.len() > 0 ==> {
                &&& steps.len() == 3
                &&& steps[1] == (ActionView::Download {
                    origin_id: m.queue[0].0,
                    id: m.queue[0].1,
                })
                &&& next.queue == m.queue.skip(1)
                &&& next.size == m.size
            }
            &&& leaves && m.queue.len() == 0 && m.size > 0 ==> steps.len() == 2 && next.queue.len()
                == 0 && next.size == m.size - 1
        }),
{
    let next = m.unclaim(id);
    if !m.unclaim_removes(id) && m.tracks.contains_key(id) {
        assert(next.tracks.dom() =~= m.tracks.dom());
    }
}

/// A download that fails takes its track along: its slot goes to the first download that waits or
/// becomes free, and last it is told why, to whoever asked for it. No other track changes.
pub proof fn failed_downloads_are_told_of(
    m: ManagerView,
    origin_id: OriginId,
    id: Seq<char>,
    e: YoutubeErrorView,
)
    ensures
        ({
            let next = m.rotate(id);
            let steps = m.fail_steps(origin_id, id, e);
            &&& next.cache_size == m.cache_size
            &&& !next.tracks.contains_key(id)
            &&& forall|x: Seq<char>|
                x != id ==> (#[trigger] next.tracks.contains_key(x) <==> m.tracks.contains_key(x))
            &&& forall|x: Seq<char>|
                x != id && m.tracks.contains_key(x) ==> #[trigger] next.tracks[x] == m.tracks[x]
            &&& steps.len() > 0
            &&& steps.last() == ActionView::Send(
                EventView::Removed { id, e: Some((origin_id, e)) },
            )
            &&& m.queue.len() > 0 ==> {
                &&& steps.len() == 2
                &&& steps[0] == (ActionView::Download {
                    origin_id: m.queue[0].0,
                    id: m.queue[0].1,
                })
                &&& next.queue == m.queue.skip(1)
                &&& next.size == m.size
            }
            &&& m.queue.len() == 0 && m.size > 0 ==> steps.len() == 1 && next.queue.len() == 0
                && next.size == m.size - 1
        }),
{
}

/// A request does what it is named for: it claims the track, gives up a claim to it, or leaves a
/// manager that knows of nothing, with all its slots free, and tells nobody.
pub proof fn requests_do_what_they_say(m: ManagerView, origin_id: OriginId, id: TrackId)
    ensures
        m.after(Request::Claim { origin_id, id }) == m.claim(origin_id, id@),
        m.steps(Request::Claim { origin_id, id }) == m.claim_steps(origin_id, id@),
        m.after(Request::Unclaim { id }) == m.unclaim(id@),
        m.steps(Request::Unclaim { id }) == m.unclaim_steps(id@),
        ({
            let next = m.after(Request::Clear);
            &&& next.cache_size == m.cache_size && next.size == 0 && next.queue.len() == 0
            &&& forall|x: Seq<char>| !#[trigger] next.tracks.contains_key(x)
            &&& m.steps(Request::Clear).len() == 0
        }),
        m.accepts(Request::Clear),
        m.accepts(Request::Claim { origin_id, id }) <==> (m.tracks.contains_key(id@)
            ==> m.tracks[id@].claims < usize::MAX),
        m.queue.len() > 0 || m.size > 0 ==> m.accepts(Request::Unclaim { id }),
{
}

/// What is seen of steps, events, tracks and waiting downloads is what they hold, one by one.
pub proof fn views_show_what_is_there(
    actions: Seq<Action>,
    queue: Seq<(OriginId, TrackId)>,
    track: TrackData,
    i: int,
)
    requires
        0 <= i < actions.len(),
        0 <= i < queue.len(),
    ensures
        steps(actions).len() == actions.len(),
        waiting(queue).len() == queue.len(),
        waiting(queue)[i].0 == queue[i].0 && waiting(queue)[i].1 == queue[i].1@,
        match actions[i] {
            Action::Download { origin_id, id } => steps(actions)[i] == (ActionView::Download {
                origin_id,
                id: id@,
            }),
            Action::RemoveFile { path } => steps(actions)[i] == (ActionView::RemoveFile {
                path: path@,
            }),
            Action::Send(Event::Acquired { id }) => steps(actions)[i] == ActionView::Send(
                EventView::Acquired { id: id@ },
            ),
            Action::Send(Event::Removed { id, e: None }) => steps(actions)[i] == ActionView::Send(
                EventView::Removed { id: id@, e: None },
            ),
            Action::Send(Event::Removed { id, e: Some((o, e)) }) => steps(actions)[i]
                == ActionView::Send(EventView::Removed { id: id@, e: Some((o, e@)) }),
        },
        track@.claims == track.claims,
        track@.path is Some <==> track.path is Some,
        track.path matches Some(path) ==> track@.path == Some(path@),
{
}

} // verus!
