//! Directories that are there only for a while.

use vstd::prelude::*;

verus! {

/// How the name of such a directory begins.
pub const PREFIX: &'static str = "tmp";

/// What the rest of the name is made of.
pub const ALPHABET: &'static str =
    "abcdefghijklmnopqrstuvwxyzABCDEFGHIJKLMNOPQRSTUVWXYZ0123456789-";

/// How many characters the alphabet has.
pub const ALPHABET_LENGTH: usize = 63;

/// How long the rest of the name is.
pub const WORD_LENGTH: usize = 8;

/// The alphabet has as many characters as it should.
proof fn alphabet_length()
    ensures
        ALPHABET@.len() == ALPHABET_LENGTH,
{
    reveal_strlit("abcdefghijklmnopqrstuvwxyzABCDEFGHIJKLMNOPQRSTUVWXYZ0123456789-");
}

/// The name that some places in the alphabet make.
pub open spec fn name_text(indices: Seq<usize>) -> Seq<char> {
    PREFIX@ + indices.map_values(|i: usize| ALPHABET@[i as int])
}

/// Whether a name is one for such a directory.
pub open spec fn is_name(name: Seq<char>) -> bool {
    exists|indices: Seq<usize>|
        indices.len() == WORD_LENGTH && (forall|i: int|
            0 <= i < indices.len() ==> #[trigger] indices[i] < ALPHABET_LENGTH) && name
            == #[trigger] name_text(indices)
}

/// Calls `gen_range` of `rand::Rng` on `rand::thread_rng`, which picks a number below the bound at
/// random.
#[verifier::external_body]
fn random_below(bound: usize) -> (r: usize)
    requires
        bound > 0,
    ensures
        r < bound,
{
    rand::Rng::gen_range(&mut rand::thread_rng(), 0..bound)
}

/// What came of making a directory.
#[derive(Debug, Clone, Copy, PartialEq, Eq, Structural)]
pub enum Attempt {
    Created,
    AlreadyExists,
    Failed,
}

/// What to do next.
#[derive(Debug)]
pub enum Next {
    /// The directory is there.
    Done(TempDir),
    /// Try another name.
    Again(String),
    /// Give up.
    Fail,
}

/// A directory that is there only for a while.
#[derive(Debug)]
pub struct TempDir(pub String);

impl TempDir {
    /// Where the directory is.
    pub fn path(&self) -> (r: &str)
        ensures
            r@ == self.0@,
    {
        self.0.as_str()
    }

    /// What to do after an attempt to make a directory. A name that is taken is no failure.
    pub fn create_dir(path: String, attempt: Attempt) -> (r: Next)
        ensures
            match attempt {
                Attempt::Created => r matches Next::Done(dir) && dir.0 == path,
                Attempt::AlreadyExists => r matches Next::Again(name) && is_name(name@),
                Attempt::Failed => r is Fail,
            },
    {
        match attempt {
            Attempt::Created => Next::Done(TempDir(path)),
            Attempt::AlreadyExists => Next::Again(TempDir::make_name()),
            Attempt::Failed => Next::Fail,
        }
    }

    /// A name, made at random.
    pub fn make_name() -> (r: String)
        ensures
            is_name(r@),
    {
        let mut indices: Vec<usize> = Vec::new();
        while indices.len() < WORD_LENGTH
            invariant
                indices@.len() <= WORD_LENGTH,
                forall|i: int| 0 <= i < indices@.len() ==> #[trigger] indices@[i] < ALPHABET_LENGTH,
            decreases WORD_LENGTH - indices.len(),
        {
            indices.push(random_below(ALPHABET_LENGTH));
        }
        TempDir::name_from(&indices)
    }

    /// The name that some places in the alphabet make.
    pub fn name_from(indices: &Vec<usize>) -> (r: String)
        requires
            forall|i: int| 0 <= i < indices@.len() ==> #[trigger] indices@[i] < ALPHABET_LENGTH,
        ensures
            r@ == name_text(indices@),
    {
        proof {
            alphabet_length();
        }
        let ghost word = indices@.map_values(|i: usize| ALPHABET@[i as int]);
        let mut result = PREFIX.to_owned();
        let mut i: usize = 0;
        assert(PREFIX@ + word.take(0) =~= PREFIX@);
        while i < indices.len()
            invariant
                ALPHABET@.len() == ALPHABET_LENGTH,
                i <= indices@.len(),
                forall|j: int| 0 <= j < indices@.len() ==> #[trigger] indices@[j] < ALPHABET_LENGTH,
                word == indices@.map_values(|i: usize| ALPHABET@[i as int]),
                result@ == PREFIX@ + word.take(i as int),
            decreases indices.len() - i,
        {
            let c = ALPHABET.get_char(indices[i]);
            result.push(c);
            assert(word[i as int] == c);
            assert(PREFIX@ + word.take(i + 1) =~= (PREFIX@ + word.take(i as int)).push(c));
            i = i + 1;
        }
        assert(word.take(i as int) =~= word);
        result
    }
}

/// A name begins as it should, and the rest of it is of the right length and from the alphabet.
pub proof fn names_look_alike(name: Seq<char>)
    requires
        is_name(name),
    ensures
        name.len() == PREFIX@.len() + WORD_LENGTH,
        name.take(PREFIX@.len() as int) == PREFIX@,
        forall|i: int| PREFIX@.len() <= i < name.len() ==> ALPHABET@.contains(#[trigger] name[i]),
{
    alphabet_length();
    let indices = choose|indices: Seq<usize>|
        indices.len() == WORD_LENGTH && (forall|i: int|
            0 <= i < indices.len() ==> #[trigger] indices[i] < ALPHABET_LENGTH) && name
            == #[trigger] name_text(indices);
    assert(name.take(PREFIX@.len() as int) =~= PREFIX@);
    assert forall|i: int| PREFIX@.len() <= i < name.len() implies ALPHABET@.contains(
        #[trigger] name[i],
    ) by {
        let k = indices[i - PREFIX@.len()];
        assert(name[i] == ALPHABET@[k as int]);
    }
}

/// A name is the beginning that all have, and one character for each place, that at this place of
/// the alphabet.
pub proof fn names_are_made_of_their_places(indices: Seq<usize>, i: int)
    requires
        0 <= i < indices.len(),
    ensures
        name_text(indices).len() == PREFIX@.len() + indices.len(),
        name_text(indices).take(PREFIX@.len() as int) == PREFIX@,
        name_text(indices)[PREFIX@.len() + i] == ALPHABET@[indices[i] as int],
{
    assert(name_text(indices).take(PREFIX@.len() as int) =~= PREFIX@);
}

/// A name has eleven characters: three that are always the same, and eight letters, digits or
/// hyphens. Every such text is a name.
pub proof fn names_have_eleven_characters(name: Seq<char>)
    ensures
        is_name(name) <==> name.len() == 11 && name.take(3) == "tmp"@ && forall|i: int|
            3 <= i < 11 ==> ('a' <= #[trigger] name[i] <= 'z' || 'A' <= name[i] <= 'Z' || '0'
                <= name[i] <= '9' || name[i] == '-'),
{
    reveal_strlit("tmp");
    alphabet_length();
    if is_name(name) {
        names_look_alike(name);
        assert forall|i: int| 3 <= i < 11 implies ('a' <= #[trigger] name[i] <= 'z' || 'A'
            <= name[i] <= 'Z' || '0' <= name[i] <= '9' || name[i] == '-') by {
            assert(ALPHABET@.contains(name[i]));
            let k = choose|k: int| 0 <= k < ALPHABET@.len() && ALPHABET@[k] == name[i];
            alphabet_is(k);
        }
    }
    if name.len() == 11 && name.take(3) == "tmp"@ && forall|i: int|
        3 <= i < 11 ==> ('a' <= #[trigger] name[i] <= 'z' || 'A' <= name[i] <= 'Z' || '0'
            <= name[i] <= '9' || name[i] == '-') {
        let indices = Seq::new(8, |i: int| place_of(name[i + 3]));
        assert forall|i: int| 0 <= i < 8 implies #[trigger] indices[i] < ALPHABET_LENGTH
            && ALPHABET@[indices[i] as int] == name[i + 3] by {
            let c = name[i + 3];
            alphabet_is(place_of(c) as int);
        }
        assert forall|i: int| 0 <= i < 11 implies name_text(indices)[i] == name[i] by {
            if i < 3 {
                assert(name.take(3)[i] == name[i]);
            } else {
                assert(indices[i - 3] < ALPHABET_LENGTH);
            }
        }
        assert(name_text(indices) =~= name);
    }
}

/// The place of a character in the alphabet.
spec fn place_of(c: char) -> usize {
    if 'a' <= c <= 'z' {
        (c as int - 97) as usize
    } else if 'A' <= c <= 'Z' {
        (c as int - 65 + 26) as usize
    } else if '0' <= c <= '9' {
        (c as int - 48 + 52) as usize
    } else {
        62
    }
}

/// What the alphabet has at a place.
proof fn alphabet_is(k: int)
    requires
        0 <= k < ALPHABET_LENGTH,
    ensures
        ALPHABET@[k] as int == if k < 26 {
            97 + k
        } else if k < 52 {
            65 + k - 26
        } else if k < 62 {
            48 + k - 52
        } else {
            45
        },
{
    reveal_strlit("abcdefghijklmnopqrstuvwxyzABCDEFGHIJKLMNOPQRSTUVWXYZ0123456789-");
}

} // verus!
