//! Fixed values.

use vstd::prelude::*;

verus! {

/// How many tracks are listed in one message.
pub const TRACKS_IN_MESSAGE: usize = 20;

/// How many requests are remembered.
pub const REQUEST_STORAGE_CAPACITY: usize = 1000;

/// What a request is answered that is carried out.
pub const CONFIRM_TEXT: &'static str = "OK!";

} // verus!
