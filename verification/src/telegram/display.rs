//! How tracks and the player are written in messages.

use crate::controller::{Status, StatusView};
use crate::telegram::defs::TRACKS_IN_MESSAGE;
use crate::util::parse::{texts, texts_of_push};
use crate::util::text::{decimal, decimal_text, pad_left, right_aligned};
use crate::youtube::{Track, TrackView};
use vstd::prelude::*;

verus! {

/// Whether a character means something in a message with markup.
pub open spec fn is_markup(c: char) -> bool {
    c == '_' || c == '*' || c == '[' || c == ']' || c == '(' || c == ')' || c == '~' || c == '`'
        || c == '>' || c == '#' || c == '+' || c == '-' || c == '=' || c == '|' || c == '{' || c
        == '}' || c == '.' || c == '!'
}

/// Whether a character means something in the address of a link.
pub open spec fn is_link_markup(c: char) -> bool {
    c == '`' || c == ')'
}

/// Text with a backslash before every character that is special.
pub open spec fn escaped(s: Seq<char>, special: spec_fn(char) -> bool) -> Seq<char>
    decreases s.len(),
{
    if s.len() == 0 {
        seq![]
    } else if special(s.last()) {
        escaped(s.drop_last(), special).push('\\').push(s.last())
    } else {
        escaped(s.drop_last(), special).push(s.last())
    }
}

/// Text as it is written in a message with markup.
pub open spec fn plain(s: Seq<char>) -> Seq<char> {
    escaped(s, |c: char| is_markup(c))
}

/// An address as it is written in a link.
pub open spec fn link_address(s: Seq<char>) -> Seq<char> {
    escaped(s, |c: char| is_link_markup(c))
}

/// Calls `teloxide::utils::markdown::escape`, which puts a backslash before each of the characters
/// `` _*[]()~`>#+-=|{}.! `` and leaves all others as they are, the backslash among them.
#[verifier::external_body]
pub(crate) fn escape(s: &str) -> (r: String)
    ensures
        r@ == plain(s@),
{
    teloxide::utils::markdown::escape(s)
}

/// Calls `teloxide::utils::markdown::escape_link_url`, which puts a backslash before each backtick
/// and each closing parenthesis and leaves all other characters as they are.
#[verifier::external_body]
fn escape_link_url(s: &str) -> (r: String)
    ensures
        r@ == link_address(s@),
{
    teloxide::utils::markdown::escape_link_url(s)
}

/// No special character stands without a backslash before it.
pub proof fn special_characters_are_escaped(s: Seq<char>, special: spec_fn(char) -> bool)
    requires
        !special('\\'),
    ensures
        forall|i: int|
            0 <= i < escaped(s, special).len() && special(#[trigger] escaped(s, special)[i]) ==> i
                > 0 && escaped(s, special)[i - 1] == '\\',
    decreases s.len(),
{
    if s.len() > 0 {
        let front = escaped(s.drop_last(), special);
        let all = escaped(s, special);
        special_characters_are_escaped(s.drop_last(), special);
        assert forall|i: int| 0 <= i < all.len() && special(#[trigger] all[i]) implies i > 0
            && all[i - 1] == '\\' by {
            if i < front.len() {
                assert(all[i] == front[i]);
                assert(all[i - 1] == front[i - 1]);
            }
        }
    }
}

/// Different texts are written differently.
pub proof fn escaping_loses_nothing(a: Seq<char>, b: Seq<char>, special: spec_fn(char) -> bool)
    requires
        !special('\\'),
        escaped(a, special) == escaped(b, special),
    ensures
        a == b,
    decreases a.len(),
{
    if a.len() > 0 && b.len() > 0 {
        let x = escaped(a, special);
        let y = escaped(b, special);
        assert(x.last() == a.last());
        assert(y.last() == b.last());
        let front_a = escaped(a.drop_last(), special);
        let front_b = escaped(b.drop_last(), special);
        if special(a.last()) {
            assert(x.drop_last().drop_last() =~= front_a);
            assert(y.drop_last().drop_last() =~= front_b);
        } else {
            assert(x.drop_last() =~= front_a);
            assert(y.drop_last() =~= front_b);
        }
        escaping_loses_nothing(a.drop_last(), b.drop_last(), special);
        assert(a =~= a.drop_last().push(a.last()));
        assert(b =~= b.drop_last().push(b.last()));
    } else {
        assert(a.len() > 0 ==> escaped(a, special).len() > 0);
        assert(b.len() > 0 ==> escaped(b, special).len() > 0);
        assert(a =~= b);
    }
}

/// A duration in seconds as minutes and seconds.
pub open spec fn duration_text(seconds: u64) -> Seq<char> {
    decimal_text((seconds / 60) as nat) + ":"@ + right_aligned(
        decimal_text((seconds % 60) as nat),
        '0',
        2,
    )
}

/// The first artist and the title.
pub open spec fn full_title(track: TrackView) -> Seq<char> {
    if track.artist.len() > 0 {
        track.artist[0] + " - "@ + track.title
    } else {
        track.title
    }
}

/// A track as a link to its page, with its duration.
pub open spec fn track_text(track: TrackView) -> Seq<char> {
    "["@ + plain(full_title(track)) + "]("@ + link_address(track.webpage_url.text) + ") "@
        + duration_text(track.duration)
}

/// How the player stands, on one line.
pub open spec fn status_line(status: StatusView) -> Seq<char> {
    (if status.is_paused {
        "⏸️"@
    } else {
        "▶️"@
    }) + " : "@ + (if status.is_muted {
        "🔇"@
    } else {
        "🔊"@
    }) + " "@ + right_aligned(decimal_text(status.volume_level as nat), ' ', 2) + " : "@
        + decimal_text(status.length as nat) + " треков в очереди"@
}

/// How the player stands, and what it plays.
pub open spec fn status_text(status: StatusView) -> Seq<char> {
    match status.now_playing {
        Some(track) => status_line(status) + "\n🎷 "@ + track_text(track),
        None => status_line(status),
    }
}

/// How a track is written.
#[derive(Debug)]
pub struct TrackFmt<'a>(pub &'a Track);

/// How a duration in seconds is written.
#[derive(Debug)]
pub struct DurationFmt(pub u64);

/// How the state of the player is written.
#[derive(Debug)]
pub struct StatusFmt<'a>(pub &'a Status);

impl<'a> TrackFmt<'a> {
    /// The track as text.
    pub fn fmt(&self) -> (r: String)
        ensures
            r@ == track_text(self.0@),
    {
        let webpage_url = escape_link_url(self.0.webpage_url.as_str());
        let title = if self.0.artist.len() > 0 {
            assert(self.0@.artist[0] == self.0.artist@[0]@);
            self.0.artist[0].clone().concat(" - ").concat(self.0.title.as_str())
        } else {
            self.0.title.clone()
        };
        "[".to_owned().concat(escape(title.as_str()).as_str()).concat("](").concat(
            webpage_url.as_str(),
        ).concat(") ").concat(DurationFmt(self.0.duration).fmt().as_str())
    }
}

impl DurationFmt {
    /// The duration as text.
    pub fn fmt(&self) -> (r: String)
        ensures
            r@ == duration_text(self.0),
    {
        let minutes = self.0 / 60;
        let seconds = self.0 % 60;
        decimal(minutes).concat(":").concat(
            pad_left(decimal(seconds).as_str(), '0', 2).as_str(),
        )
    }
}

impl<'a> StatusFmt<'a> {
    /// How the player stands, on one line.
    pub fn line(&self) -> (r: String)
        ensures
            r@ == status_line(self.0@),
    {
        let sign = if self.0.is_paused {
            "⏸️"
        } else {
            "▶️"
        };
        let sound = if self.0.is_muted {
            "🔇"
        } else {
            "🔊"
        };
        let level = decimal(self.0.volume_level as u64);
        sign.to_owned().concat(" : ").concat(sound).concat(" ").concat(
            pad_left(level.as_str(), ' ', 2).as_str(),
        ).concat(" : ").concat(decimal(self.0.length as u64).as_str()).concat(
            " треков в очереди",
        )
    }

    /// How the player stands, and what it plays.
    pub fn fmt(&self) -> (r: String)
        ensures
            r@ == status_text(self.0@),
    {
        match &self.0.now_playing {
            Some(track) => self.line().concat("\n🎷 ").concat(TrackFmt(track).fmt().as_str()),
            None => self.line(),
        }
    }
}

/// A duration can be read back from how it is written.
pub proof fn duration_is_minutes_and_seconds(seconds: u64)
    ensures
        60 * (seconds / 60) + seconds % 60 == seconds,
        right_aligned(decimal_text((seconds % 60) as nat), '0', 2).len() == 2,
{
    reveal_with_fuel(decimal_text, 3);
}

/// Lines put together.
pub open spec fn joined(lines: Seq<Seq<char>>) -> Seq<char>
    decreases lines.len(),
{
    if lines.len() == 0 {
        seq![]
    } else {
        lines[0] + joined(lines.skip(1))
    }
}

/// Lines spread over messages: so many to a message, the first of which starts with a heading.
/// There is no empty message.
pub open spec fn pages(heading: Seq<char>, lines: Seq<Seq<char>>) -> Seq<Seq<char>>
    decreases lines.len(),
{
    if lines.len() < TRACKS_IN_MESSAGE {
        let rest = heading + joined(lines);
        if rest.len() == 0 {
            seq![]
        } else {
            seq![rest]
        }
    } else {
        seq![heading + joined(lines.take(TRACKS_IN_MESSAGE as int))] + pages(
            seq![],
            lines.skip(TRACKS_IN_MESSAGE as int),
        )
    }
}

/// Lines spread over messages, of which the first has been begun and holds some lines already.
spec fn pages_from(begun: Seq<char>, count: nat, lines: Seq<Seq<char>>) -> Seq<Seq<char>>
    decreases lines.len(),
{
    if lines.len() == 0 {
        if begun.len() == 0 {
            seq![]
        } else {
            seq![begun]
        }
    } else if count + 1 == TRACKS_IN_MESSAGE {
        seq![begun + lines[0]] + pages_from(seq![], 0, lines.skip(1))
    } else {
        pages_from(begun + lines[0], count + 1, lines.skip(1))
    }
}

/// Filling up the first message, and going on with the next.
proof fn pages_from_fills_up(begun: Seq<char>, count: nat, lines: Seq<Seq<char>>)
    requires
        count < TRACKS_IN_MESSAGE,
    ensures
        ({
            let left = TRACKS_IN_MESSAGE - count;
            let rest = begun + joined(lines);
            pages_from(begun, count, lines) == if lines.len() < left {
                if rest.len() == 0 {
                    seq![]
                } else {
                    seq![rest]
                }
            } else {
                seq![begun + joined(lines.take(left))] + pages_from(seq![], 0, lines.skip(left))
            }
        }),
    decreases lines.len(),
{
    let left = TRACKS_IN_MESSAGE - count;
    if lines.len() == 0 {
        assert(begun + joined(lines) =~= begun);
    } else if left == 1 {
        let one = lines.take(1);
        assert(one[0] == lines[0]);
        assert(one.skip(1) =~= Seq::empty());
        assert(joined(one.skip(1)) =~= Seq::empty());
        assert(joined(one) =~= lines[0]);
    } else {
        let next = begun + lines[0];
        pages_from_fills_up(next, count + 1, lines.skip(1));
        assert(next + joined(lines.skip(1)) =~= begun + joined(lines));
        if lines.len() >= left {
            assert(lines.skip(1).take(left - 1) =~= lines.take(left).skip(1));
            assert(lines.take(left)[0] == lines[0]);
            assert(next + joined(lines.skip(1).take(left - 1)) =~= begun + joined(
                lines.take(left),
            ));
            assert(lines.skip(1).skip(left - 1) =~= lines.skip(left));
        }
    }
}

/// Spreading lines one after the other fills message after message.
proof fn pages_from_nothing(heading: Seq<char>, lines: Seq<Seq<char>>)
    ensures
        pages_from(heading, 0, lines) == pages(heading, lines),
    decreases lines.len(),
{
    pages_from_fills_up(heading, 0, lines);
    if lines.len() >= TRACKS_IN_MESSAGE {
        pages_from_nothing(seq![], lines.skip(TRACKS_IN_MESSAGE as int));
    }
}

/// Spreads lines over messages.
pub fn paginate(heading: String, lines: &Vec<String>) -> (r: Vec<String>)
    ensures
        texts(r@) == pages(heading@, texts(lines@)),
{
    let ghost all = texts(lines@);
    let ghost whole = pages(heading@, all);
    let mut result: Vec<String> = Vec::new();
    let mut message = heading;
    let mut count: usize = 0;
    let mut i: usize = 0;
    proof {
        pages_from_nothing(heading@, all);
        assert(all.skip(0) =~= all);
        assert(texts(result@) + pages_from(message@, 0, all) =~= whole);
    }
    while i < lines.len()
        invariant
            i <= lines@.len(),
            all == texts(lines@),
            count < TRACKS_IN_MESSAGE,
            whole == texts(result@) + pages_from(message@, count as nat, all.skip(i as int)),
        decreases lines.len() - i,
    {
        let ghost rest = all.skip(i as int);
        let ghost before = texts(result@);
        proof {
            assert(rest[0] == lines@[i as int]@);
            assert(rest.skip(1) =~= all.skip(i + 1));
        }
        message = message.concat(lines[i].as_str());
        count = count + 1;
        if count == TRACKS_IN_MESSAGE {
            let ghost full = message@;
            proof {
                texts_of_push(result@, message);
            }
            result.push(message);
            message = String::new();
            count = 0;
            proof {
                assert(message@ =~= Seq::<char>::empty());
                assert(before + (seq![full] + pages_from(seq![], 0, rest.skip(1))) =~= before.push(
                    full,
                ) + pages_from(seq![], 0, rest.skip(1)));
            }
        }
        i = i + 1;
    }
    let ghost before = texts(result@);
    assert(all.skip(i as int) =~= Seq::empty());
    if !message.as_str().is_empty() {
        proof {
            texts_of_push(result@, message);
            assert(before + seq![message@] =~= before.push(message@));
        }
        result.push(message);
    } else {
        assert(before + Seq::<Seq<char>>::empty() =~= before);
    }
    result
}

/// Lines in front of other lines.
proof fn joined_sum(a: Seq<Seq<char>>, b: Seq<Seq<char>>)
    ensures
        joined(a + b) == joined(a) + joined(b),
    decreases a.len(),
{
    if a.len() == 0 {
        assert(a + b =~= b);
        assert(joined(a) + joined(b) =~= joined(b));
    } else {
        assert((a + b).skip(1) =~= a.skip(1) + b);
        joined_sum(a.skip(1), b);
        assert(joined(a + b) =~= joined(a) + joined(b));
    }
}

/// The messages put together are the heading and all lines: nothing is lost, nothing is repeated,
/// and the order stays.
pub proof fn pages_hold_everything(heading: Seq<char>, lines: Seq<Seq<char>>)
    ensures
        joined(pages(heading, lines)) == heading + joined(lines),
    decreases lines.len(),
{
    let all = pages(heading, lines);
    if lines.len() < TRACKS_IN_MESSAGE {
        let rest = heading + joined(lines);
        if rest.len() > 0 {
            assert(all.skip(1) =~= Seq::empty());
            assert(joined(all.skip(1)) =~= Seq::empty());
            assert(joined(all) =~= rest);
        } else {
            assert(joined(all) =~= rest);
        }
    } else {
        let n = TRACKS_IN_MESSAGE as int;
        let first = heading + joined(lines.take(n));
        let others = pages(seq![], lines.skip(n));
        pages_hold_everything(seq![], lines.skip(n));
        assert(all.skip(1) =~= others);
        assert(lines =~= lines.take(n) + lines.skip(n));
        joined_sum(lines.take(n), lines.skip(n));
        assert(joined(all) =~= first + joined(others));
        assert(joined(all) =~= heading + joined(lines));
    }
}

/// Where the lines of a message end.
pub open spec fn page_end(count: nat, k: int) -> int {
    if TRACKS_IN_MESSAGE * (k + 1) < count {
        TRACKS_IN_MESSAGE * (k + 1)
    } else {
        count as int
    }
}

/// A message holds the lines that come after those of the messages before it, and not more of them
/// than are allowed.
pub proof fn page_holds_its_lines(heading: Seq<char>, lines: Seq<Seq<char>>, k: int)
    requires
        0 <= k < pages(heading, lines).len(),
    ensures
        TRACKS_IN_MESSAGE * k <= page_end(lines.len(), k) <= lines.len(),
        page_end(lines.len(), k) - TRACKS_IN_MESSAGE * k <= TRACKS_IN_MESSAGE,
        pages(heading, lines)[k] == (if k == 0 {
            heading
        } else {
            seq![]
        }) + joined(lines.subrange(TRACKS_IN_MESSAGE * k, page_end(lines.len(), k))),
    decreases lines.len(),
{
    let n = TRACKS_IN_MESSAGE as int;
    let all = pages(heading, lines);
    if lines.len() < n {
        assert(k == 0);
        assert(lines.subrange(0, lines.len() as int) =~= lines);
    } else if k == 0 {
        assert(all[0] == heading + joined(lines.take(n)));
        assert(lines.subrange(0, page_end(lines.len(), 0)) =~= lines.take(n));
    } else {
        let rest = lines.skip(n);
        let others = pages(seq![], rest);
        assert(all[k] == others[k - 1]);
        page_holds_its_lines(seq![], rest, k - 1);
        assert(rest.subrange(n * (k - 1), page_end(rest.len(), k - 1)) =~= lines.subrange(
            n * k,
            page_end(lines.len(), k),
        ));
        let part = joined(lines.subrange(n * k, page_end(lines.len(), k)));
        assert(Seq::<char>::empty() + part =~= part);
    }
}

/// There is a message for every so many lines, and one more for the rest.
pub proof fn pages_are_counted(heading: Seq<char>, lines: Seq<Seq<char>>)
    requires
        forall|i: int| 0 <= i < lines.len() ==> (#[trigger] lines[i]).len() > 0,
    ensures
        lines.len() > 0 ==> pages(heading, lines).len() == (lines.len() + TRACKS_IN_MESSAGE - 1)
            / (TRACKS_IN_MESSAGE as int),
        lines.len() == 0 ==> pages(heading, lines).len() == if heading.len() == 0 {
            0nat
        } else {
            1nat
        },
    decreases lines.len(),
{
    if lines.len() < TRACKS_IN_MESSAGE {
        if lines.len() > 0 {
            assert(lines[0].len() > 0);
        }
    } else {
        let rest = lines.skip(TRACKS_IN_MESSAGE as int);
        assert forall|i: int| 0 <= i < rest.len() implies (#[trigger] rest[i]).len() > 0 by {
            assert(rest[i] == lines[i + TRACKS_IN_MESSAGE]);
        }
        pages_are_counted(seq![], rest);
    }
}

/// Text is written character by character: each that means something in markup gets a backslash
/// before it, and every other stays alone.
pub proof fn characters_are_written_one_by_one(s: Seq<char>, c: char)
    ensures
        plain(Seq::empty()) == Seq::<char>::empty(),
        link_address(Seq::empty()) == Seq::<char>::empty(),
        is_markup(c) ==> plain(s.push(c)) == plain(s).push('\\').push(c),
        !is_markup(c) ==> plain(s.push(c)) == plain(s).push(c),
        c == '`' || c == ')' ==> link_address(s.push(c)) == link_address(s).push('\\').push(c),
        c != '`' && c != ')' ==> link_address(s.push(c)) == link_address(s).push(c),
        is_markup(c) <==> "_*[]()~`>#+-=|{}.!"@.contains(c),
{
    assert(s.push(c).drop_last() =~= s);
    reveal_strlit("_*[]()~`>#+-=|{}.!");
    let marks = "_*[]()~`>#+-=|{}.!"@;
    assert(marks[0] == '_' && marks[1] == '*' && marks[2] == '[' && marks[3] == ']' && marks[4]
        == '(' && marks[5] == ')' && marks[6] == '~' && marks[7] == '`' && marks[8] == '>'
        && marks[9] == '#' && marks[10] == '+' && marks[11] == '-' && marks[12] == '=' && marks[13]
        == '|' && marks[14] == '{' && marks[15] == '}' && marks[16] == '.' && marks[17] == '!');
}

/// Minutes and seconds are written with a colon between them, the seconds with two digits.
pub proof fn durations_are_minutes_and_seconds(minutes: u64, seconds: u64)
    requires
        seconds < 60,
        60 * minutes + seconds <= u64::MAX,
    ensures
        ({
            let text = duration_text((60 * minutes + seconds) as u64);
            &&& seconds >= 10 ==> text == decimal_text(minutes as nat) + ":"@ + decimal_text(
                seconds as nat,
            )
            &&& seconds < 10 ==> text == decimal_text(minutes as nat) + ":"@ + (seq!['0']
                + decimal_text(seconds as nat))
        }),
{
    let all = (60 * minutes + seconds) as u64;
    assert(all / 60 == minutes && all % 60 == seconds);
    reveal_with_fuel(decimal_text, 3);
    let text = right_aligned(decimal_text(seconds as nat), '0', 2);
    if seconds < 10 {
        assert(text =~= seq!['0'] + decimal_text(seconds as nat));
    } else {
        assert(text =~= decimal_text(seconds as nat));
    }
}

/// A track is written as a link from its first artist and its title to its page, with its duration
/// behind it. The other artists and all else that is known of it make no difference.
pub proof fn tracks_are_links_to_their_page(track: TrackView, other: TrackView)
    ensures
        track.artist.len() > 0 ==> track_text(track) == "["@ + plain(
            track.artist[0] + " - "@ + track.title,
        ) + "]("@ + link_address(track.webpage_url.text) + ") "@ + duration_text(track.duration),
        track.artist.len() == 0 ==> track_text(track) == "["@ + plain(track.title) + "]("@
            + link_address(track.webpage_url.text) + ") "@ + duration_text(track.duration),
        track.title == other.title && track.webpage_url.text == other.webpage_url.text
            && track.duration == other.duration && (track.artist.len() == 0 <==> other.artist.len()
            == 0) && (track.artist.len() > 0 ==> track.artist[0] == other.artist[0])
            ==> track_text(track) == track_text(other),
{
}

/// How the player stands is told by signs for what plays and what can be heard, by the level, and by
/// how many tracks are to come. What plays, if anything does, is on a line of its own.
pub proof fn status_is_told_by_its_parts(status: StatusView)
    ensures
        ({
            let rest = " "@ + right_aligned(decimal_text(status.volume_level as nat), ' ', 2)
                + " : "@ + decimal_text(status.length as nat) + " треков в очереди"@;
            &&& status.is_paused && status.is_muted ==> status_line(status) == "⏸️"@ + " : "@
                + "🔇"@ + rest
            &&& status.is_paused && !status.is_muted ==> status_line(status) == "⏸️"@ + " : "@
                + "🔊"@ + rest
            &&& !status.is_paused && status.is_muted ==> status_line(status) == "▶️"@ + " : "@
                + "🔇"@ + rest
            &&& !status.is_paused && !status.is_muted ==> status_line(status) == "▶️"@
                + " : "@ + "🔊"@ + rest
        }),
        match status.now_playing {
            Some(track) => status_text(status) == status_line(status) + "\n🎷 "@ + track_text(
                track,
            ),
            None => status_text(status) == status_line(status),
        },
{
    let rest = " "@ + right_aligned(decimal_text(status.volume_level as nat), ' ', 2) + " : "@
        + decimal_text(status.length as nat) + " треков в очереди"@;
    let signs = (if status.is_paused {
        "⏸️"@
    } else {
        "▶️"@
    }) + " : "@ + (if status.is_muted {
        "🔇"@
    } else {
        "🔊"@
    });
    assert(status_line(status) =~= signs + rest);
}

/// Lines are put together one behind the other.
pub proof fn lines_are_put_together(lines: Seq<Seq<char>>, line: Seq<char>)
    ensures
        joined(Seq::empty()) == Seq::<char>::empty(),
        joined(seq![line]) == line,
        joined(lines.push(line)) == joined(lines) + line,
{
    let one = seq![line];
    assert(one.skip(1) =~= Seq::empty());
    assert(joined(one.skip(1)) =~= Seq::empty());
    assert(joined(one) =~= line);
    assert(lines.push(line) =~= lines + one);
    joined_sum(lines, one);
}

/// Twenty lines fit into a message. Lines that fit are one message with the heading; if there are
/// more, the first twenty are, and the rest are spread as they would be without a heading.
pub proof fn twenty_lines_fit_into_a_message(heading: Seq<char>, lines: Seq<Seq<char>>)
    requires
        heading.len() > 0,
        lines.len() > 0,
        forall|i: int| 0 <= i < lines.len() ==> (#[trigger] lines[i]).len() > 0,
    ensures
        pages(heading, lines).len() == (lines.len() + 19) / 20,
        lines.len() <= 20 ==> pages(heading, lines) == seq![heading + joined(lines)],
        lines.len() > 20 ==> pages(heading, lines) == seq![heading + joined(lines.take(20))]
            + pages(seq![], lines.skip(20)),
{
    pages_are_counted(heading, lines);
    if lines.len() == 20 {
        assert(lines.take(20) =~= lines);
        assert(lines.skip(20) =~= Seq::empty());
        assert(joined(lines.skip(20)) =~= Seq::empty());
        assert(pages(seq![], lines.skip(20)) =~= Seq::empty());
        assert(pages(heading, lines) =~= seq![heading + joined(lines)]);
    }
}

} // verus!
