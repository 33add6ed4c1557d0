//! The error that stands for a channel whose other end is gone.

use vstd::prelude::*;

verus! {

/// The result of handing something to a channel.
pub type ChannelResult<T> = core::result::Result<T, ChannelError>;

/// The other end of a channel is gone.
#[derive(Debug, Clone, Copy, PartialEq, Eq, Structural)]
pub struct ChannelError;

impl ChannelError {
    /// What the error says.
    pub open spec fn text(self) -> Seq<char> {
        "channel error"@
    }

    /// The error as a sentence.
    pub fn message(&self) -> (r: String)
        ensures
            r@ == self.text(),
    {
        "channel error".to_owned()
    }
}

} // verus!
