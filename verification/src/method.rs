//! The request methods.

use vstd::prelude::*;

verus! {

/// An HTTP request method.
#[derive(Clone, Copy, Debug, PartialEq, Eq, Structural)]
pub enum Method {
    Options,
    Get,
    Head,
    Post,
    Put,
    Delete,
    Trace,
    Connect,
}

impl Method {
    /// Whether a request with this method can be executed. `OPTIONS`,
    /// `TRACE` and `CONNECT` are values of the type, but no execution is
    /// defined for them.
    pub open spec fn executable(self) -> bool {
        self == Method::Get || self == Method::Head || self == Method::Post
            || self == Method::Put || self == Method::Delete
    }

    /// Tells whether a request with this method can be executed.
    pub fn is_executable(&self) -> (b: bool)
        ensures
            b == self.executable(),
    {
        match self {
            Method::Get | Method::Head | Method::Post | Method::Put | Method::Delete => true,
            Method::Options | Method::Trace | Method::Connect => false,
        }
    }
}

} // verus!
