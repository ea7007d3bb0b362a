//! The request body, as far as the library reads it.

use vstd::prelude::*;

verus! {

/// A request body. The library reads one thing of a body, whether its
/// length is known and what it is; the bytes themselves stay with the
/// caller's driver, which feeds them to the engine during the transfer.
#[derive(Clone, Copy, Debug, PartialEq, Eq)]
pub struct Body {
    /// The length of the body in bytes, or `None` where it is not known
    /// before the body has been read through.
    pub size: Option<usize>,
}

impl Body {
    /// A body of `len` bytes.
    pub fn fixed(len: usize) -> (body: Body)
        ensures
            body == (Body { size: Some(len) }),
    {
        Body { size: Some(len) }
    }

    /// A body whose length is not known in advance.
    pub fn streamed() -> (body: Body)
        ensures
            body == (Body { size: None }),
    {
        Body { size: None }
    }

    /// The length of the body in bytes, where it is known.
    pub fn get_size(&self) -> (size: Option<usize>)
        ensures
            size == self.size,
    {
        self.size
    }
}

} // verus!
