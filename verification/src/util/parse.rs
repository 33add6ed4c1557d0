//! What a user types after a command.

use crate::player::MAX_VOLUME;
use crate::util::link::UrlError;
use crate::util::text::{byte_of_text, decimal_text, parse_byte, same};
use vstd::prelude::*;

verus! {

/// What to do with the volume.
#[derive(Debug, Clone, Copy, PartialEq, Eq, Structural)]
pub enum VolumeCommand {
    Increase,
    Decrease,
    SetTo(u8),
}

/// The text is no volume command.
#[derive(Debug, Clone, Copy, PartialEq, Eq, Structural)]
pub struct VolumeCommandError;

impl VolumeCommandError {
    /// What the error says.
    pub open spec fn text(self) -> Seq<char> {
        "invalid volume command"@
    }

    /// The error as a sentence.
    pub fn message(&self) -> (r: String)
        ensures
            r@ == self.text(),
    {
        "invalid volume command".to_owned()
    }
}

/// The volume command that a piece of text stands for: `+`, `-`, or a level that is not above the
/// highest.
pub open spec fn volume_command(s: Seq<char>) -> Option<VolumeCommand> {
    if s == "+"@ {
        Some(VolumeCommand::Increase)
    } else if s == "-"@ {
        Some(VolumeCommand::Decrease)
    } else {
        match byte_of_text(s) {
            Some(level) if level <= MAX_VOLUME => Some(VolumeCommand::SetTo(level)),
            _ => None,
        }
    }
}

impl VolumeCommand {
    /// Reads a volume command.
    pub fn from_str(s: &str) -> (r: Result<VolumeCommand, VolumeCommandError>)
        ensures
            match r {
                Ok(cmd) => volume_command(s@) == Some(cmd),
                Err(_) => volume_command(s@) is None,
            },
    {
        if same(s, "+") {
            return Ok(VolumeCommand::Increase);
        }
        if same(s, "-") {
            return Ok(VolumeCommand::Decrease);
        }
        match parse_byte(s) {
            Some(level) => if level > MAX_VOLUME {
                Err(VolumeCommandError)
            } else {
                Ok(VolumeCommand::SetTo(level))
            },
            None => Err(VolumeCommandError),
        }
    }
}

/// A level written in decimal is read as the command that sets it, for every level up to the
/// highest.
pub proof fn level_is_read_back(level: u8)
    requires
        level <= MAX_VOLUME,
    ensures
        volume_command(decimal_text(level as nat)) == Some(VolumeCommand::SetTo(level)),
{
    crate::util::text::byte_round_trip(level);
    crate::util::text::decimal_round_trip(level as nat);
    reveal_strlit("+");
    reveal_strlit("-");
    let s = decimal_text(level as nat);
    assert(crate::util::text::is_digit(s[0]));
}

/// What `shell_words::split` makes of a line: its words, or nothing where a quote is left open.
pub uninterp spec fn shell_split(s: Seq<char>) -> Option<Seq<Seq<char>>>;

/// The words of a list, each by its text.
pub open spec fn texts(words: Seq<String>) -> Seq<Seq<char>> {
    words.map_values(|w: String| w@)
}

/// One more word is one more text.
pub proof fn texts_of_push(words: Seq<String>, word: String)
    ensures
        texts(words.push(word)) == texts(words).push(word@),
{
    assert(texts(words.push(word)) =~= texts(words).push(word@));
}

/// `shell_words::ParseError`, the error of `shell_words::split`.
#[verifier::external_type_specification]
#[verifier::external_body]
pub struct ExShellError(shell_words::ParseError);

/// Calls `shell_words::split`. The outcome is a function of the line, and is named `shell_split`;
/// nothing more is claimed of it.
#[verifier::external_body]
fn split_words(s: &str) -> (r: Result<Vec<String>, shell_words::ParseError>)
    ensures
        match r {
            Ok(words) => shell_split(s@) == Some(texts(words@)),
            Err(_) => shell_split(s@) is None,
        },
{
    shell_words::split(s)
}

/// Calls `to_string` of `shell_words::ParseError`, which has one value and always says the same.
#[verifier::external_body]
fn shell_error_text(e: shell_words::ParseError) -> (r: String)
    ensures
        r@ == "missing closing quote"@,
{
    e.to_string()
}

/// Splits a line into words, or says why that is not possible.
pub fn split_line(s: &str) -> (r: Result<Vec<String>, String>)
    ensures
        match r {
            Ok(words) => shell_split(s@) == Some(texts(words@)),
            Err(e) => shell_split(s@) is None && e@ == "missing closing quote"@,
        },
{
    match split_words(s) {
        Ok(words) => Ok(words),
        Err(e) => Err(shell_error_text(e)),
    }
}

/// Something that can be read from one word.
pub trait Argument: View + Sized {
    /// Why a word cannot be read.
    type Err: View;

    /// What a word stands for.
    spec fn argument_of_text(s: Seq<char>) -> Result<
        <Self as View>::V,
        <Self::Err as View>::V,
    >;

    /// Reads a word.
    fn parse_argument(s: &str) -> (r: Result<Self, Self::Err>)
        ensures
            match r {
                Ok(x) => Self::argument_of_text(s@) == Ok::<
                    <Self as View>::V,
                    <Self::Err as View>::V,
                >(x@),
                Err(e) => Self::argument_of_text(s@) == Err::<
                    <Self as View>::V,
                    <Self::Err as View>::V,
                >(e@),
            },
    ;
}

/// A list of arguments.
#[derive(Debug)]
pub struct ArgumentList<T = String>(Vec<T>);

/// Why a line is no list of arguments.
#[derive(Debug)]
pub enum ArgumentListError<E> {
    /// The line cannot be split into words.
    Parse(String),
    /// A word is no argument.
    ParseArg(E),
}

/// The error of a word that can always be read. Nothing makes one.
#[derive(Debug)]
pub struct NoError;

impl View for NoError {
    type V = ();

    open spec fn view(&self) -> () {
        ()
    }
}

impl Argument for String {
    type Err = NoError;

    open spec fn argument_of_text(s: Seq<char>) -> Result<Seq<char>, ()> {
        Ok(s)
    }

    fn parse_argument(s: &str) -> (r: Result<String, NoError>) {
        Ok(s.to_owned())
    }
}

/// Whether an outcome is the one that a list of words leads to: all words read, in their order, or
/// the error of the first that cannot be.
pub open spec fn read_from<T: Argument>(
    words: Seq<Seq<char>>,
    r: Result<ArgumentList<T>, ArgumentListError<T::Err>>,
) -> bool {
    match r {
        Ok(list) => {
            &&& list.items().len() == words.len()
            &&& forall|i: int|
                0 <= i < words.len() ==> T::argument_of_text(#[trigger] words[i]) == Ok::<
                    T::V,
                    <T::Err as View>::V,
                >(list.items()[i]@)
        },
        Err(ArgumentListError::ParseArg(e)) => exists|k: int|
            0 <= k < words.len() && T::argument_of_text(#[trigger] words[k]) == Err::<
                T::V,
                <T::Err as View>::V,
            >(e@) && forall|j: int|
                0 <= j < k ==> T::argument_of_text(#[trigger] words[j]) is Ok,
        Err(ArgumentListError::Parse(_)) => false,
    }
}

impl<T> ArgumentList<T> {
    /// The arguments in their order.
    pub closed spec fn items(&self) -> Seq<T> {
        self.0@
    }

    /// A list of some arguments.
    pub fn new(items: Vec<T>) -> (r: Self)
        ensures
            r.items() == items@,
    {
        ArgumentList(items)
    }

    /// Turns the list into a vector.
    pub fn into_vec(self) -> (r: Vec<T>)
        ensures
            r@ == self.items(),
    {
        self.0
    }

    /// The arguments, for looking at.
    pub fn as_vec(&self) -> (r: &Vec<T>)
        ensures
            r@ == self.items(),
    {
        &self.0
    }
}

impl<T> Default for ArgumentList<T> {
    fn default() -> (r: Self)
        ensures
            r.items() == Seq::<T>::empty(),
    {
        ArgumentList(Vec::new())
    }
}

impl<T: Argument> ArgumentList<T> {
    /// Reads a list of arguments from words.
    pub fn from_words(words: &Vec<String>) -> (r: Result<Self, ArgumentListError<T::Err>>)
        ensures
            read_from(texts(words@), r),
    {
        let ghost all = texts(words@);
        let mut list: Vec<T> = Vec::new();
        let mut i: usize = 0;
        while i < words.len()
            invariant
                i <= words@.len(),
                all == texts(words@),
                list@.len() == i,
                forall|j: int|
                    0 <= j < i ==> T::argument_of_text(#[trigger] all[j]) == Ok::<
                        T::V,
                        <T::Err as View>::V,
                    >(list@[j]@),
            decreases words.len() - i,
        {
            assert(all[i as int] == words@[i as int]@);
            match T::parse_argument(words[i].as_str()) {
                Ok(x) => {
                    list.push(x);
                },
                Err(e) => {
                    let r: Result<Self, ArgumentListError<T::Err>> = Err(
                        ArgumentListError::ParseArg(e),
                    );
                    return r;
                },
            }
            i = i + 1;
        }
        Ok(ArgumentList(list))
    }

    /// Reads a list of arguments from a line. An empty line is an empty list.
    pub fn from_str(s: &str) -> (r: Result<Self, ArgumentListError<T::Err>>)
        ensures
            s@.len() == 0 ==> (r matches Ok(list) && list.items() == Seq::<T>::empty()),
            s@.len() > 0 ==> match shell_split(s@) {
                Some(words) => read_from(words, r),
                None => r matches Err(ArgumentListError::Parse(e)) && e@
                    == "missing closing quote"@,
            },
    {
        if s.is_empty() {
            return Ok(Self::default());
        }
        match split_line(s) {
            Ok(words) => Self::from_words(&words),
            Err(e) => Err(ArgumentListError::Parse(e)),
        }
    }
}

impl ArgumentListError<UrlError> {
    /// What the error says.
    pub open spec fn text(&self) -> Seq<char> {
        match self {
            ArgumentListError::Parse(e) => "invalid argument list: "@ + e@,
            ArgumentListError::ParseArg(e) => e@,
        }
    }

    /// The error as a sentence.
    pub fn message(&self) -> (r: String)
        ensures
            r@ == self.text(),
    {
        match self {
            ArgumentListError::Parse(e) => "invalid argument list: ".to_owned().concat(e.as_str()),
            ArgumentListError::ParseArg(e) => e.message.clone(),
        }
    }
}

/// The signs ask for a step. Anything else asks for the level that it is read as, if that is not
/// above the highest, and for nothing otherwise.
pub proof fn volume_commands_are_signs_or_levels(s: Seq<char>)
    ensures
        s == "+"@ ==> volume_command(s) == Some(VolumeCommand::Increase),
        s == "-"@ ==> volume_command(s) == Some(VolumeCommand::Decrease),
        volume_command(s) == Some(VolumeCommand::Increase) ==> s == "+"@,
        volume_command(s) == Some(VolumeCommand::Decrease) ==> s == "-"@,
        s != "+"@ && s != "-"@ ==> match byte_of_text(s) {
            Some(level) => volume_command(s) == if level <= 20 {
                Some(VolumeCommand::SetTo(level))
            } else {
                None
            },
            None => volume_command(s) is None,
        },
{
    reveal_strlit("+");
    reveal_strlit("-");
    assert("+"@[0] != "-"@[0]);
}

/// The texts of words are their texts, one by one.
pub proof fn texts_show_what_is_there(words: Seq<String>, i: int)
    requires
        0 <= i < words.len(),
    ensures
        texts(words).len() == words.len(),
        texts(words)[i] == words[i]@,
{
}

/// A list that is read from words has an argument for each word, in the order of the words, each
/// read from its own word. An error is that of a word that cannot be read, while all words before it
/// can be. Words are never said not to be words.
pub proof fn lists_are_read_word_by_word<T: Argument>(
    words: Seq<Seq<char>>,
    r: Result<ArgumentList<T>, ArgumentListError<T::Err>>,
)
    requires
        read_from(words, r),
    ensures
        match r {
            Ok(list) => list.items().len() == words.len() && forall|i: int|
                0 <= i < words.len() ==> T::argument_of_text(#[trigger] words[i]) == Ok::<
                    T::V,
                    <T::Err as View>::V,
                >(list.items()[i]@),
            Err(ArgumentListError::ParseArg(e)) => exists|k: int|
                0 <= k < words.len() && T::argument_of_text(#[trigger] words[k]) == Err::<
                    T::V,
                    <T::Err as View>::V,
                >(e@) && forall|j: int|
                    0 <= j < k ==> T::argument_of_text(#[trigger] words[j]) is Ok,
            Err(ArgumentListError::Parse(_)) => false,
        },
{
}

/// A word is read as itself, whatever it is.
pub proof fn words_are_read_as_they_are(s: Seq<char>)
    ensures
        <String as Argument>::argument_of_text(s) == Ok::<Seq<char>, ()>(s),
{
}

/// An error says why the line cannot be split, or why a word cannot be read.
pub proof fn errors_say_what_cannot_be_read(e: ArgumentListError<UrlError>)
    ensures
        match e {
            ArgumentListError::Parse(why) => e.text() == "invalid argument list: "@ + why@,
            ArgumentListError::ParseArg(why) => e.text() == why.message@,
        },
        VolumeCommandError.text() == "invalid volume command"@,
{
}

} // verus!
