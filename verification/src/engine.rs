//! What passes between the library and the transport engine: the option
//! calls that the library asks for, and the error codes that the engine
//! answers with.

use crate::headers::byte_lines;
use vstd::prelude::*;

verus! {

/// An error code reported by the transport engine. The library never looks
/// into it: it keeps the code and hands it on.
#[derive(Clone, Copy, Debug, PartialEq, Eq, Structural)]
pub struct ErrCode(pub i32);

/// The answer of the engine to one option call.
pub type Outcome = Result<(), ErrCode>;

/// One option call on the engine's session.
#[derive(Debug, PartialEq, Eq)]
pub enum Opt {
    /// Limit of the whole transfer, in milliseconds.
    Timeout(usize),
    /// Limit of the connection phase, in milliseconds.
    ConnectTimeout(usize),
    /// The request target.
    Url(String),
    /// Follow `Location` redirects.
    FollowLocation,
    /// Drop the custom header list that the session holds.
    ResetHeaders,
    /// The request is a GET.
    HttpGet,
    /// No response body is expected (HEAD).
    NoBody,
    /// The request is a POST.
    Post,
    /// Upload mode: a request body is sent.
    Upload,
    /// The method name to put on the request line.
    CustomRequest(String),
    /// Expected size of the POST fields, in bytes.
    PostFieldSize(usize),
    /// Expected size of the upload, in bytes.
    InFileSize(usize),
    /// The custom header list of the request: one line per header value,
    /// each ending in a NUL byte.
    HttpHeader(Vec<Vec<u8>>),
}

/// The mathematical value of an [`Opt`].
pub enum OptView {
    Timeout(usize),
    ConnectTimeout(usize),
    Url(Seq<char>),
    FollowLocation,
    ResetHeaders,
    HttpGet,
    NoBody,
    Post,
    Upload,
    CustomRequest(Seq<char>),
    PostFieldSize(usize),
    InFileSize(usize),
    HttpHeader(Seq<Seq<u8>>),
}

impl View for Opt {
    type V = OptView;

    open spec fn view(&self) -> OptView {
        match *self {
            Opt::Timeout(ms) => OptView::Timeout(ms),
            Opt::ConnectTimeout(ms) => OptView::ConnectTimeout(ms),
            Opt::Url(uri) => OptView::Url(uri@),
            Opt::FollowLocation => OptView::FollowLocation,
            Opt::ResetHeaders => OptView::ResetHeaders,
            Opt::HttpGet => OptView::HttpGet,
            Opt::NoBody => OptView::NoBody,
            Opt::Post => OptView::Post,
            Opt::Upload => OptView::Upload,
            Opt::CustomRequest(name) => OptView::CustomRequest(name@),
            Opt::PostFieldSize(len) => OptView::PostFieldSize(len),
            Opt::InFileSize(len) => OptView::InFileSize(len),
            Opt::HttpHeader(lines) => OptView::HttpHeader(byte_lines(lines@)),
        }
    }
}

/// The values of a sequence of option calls, in the same order.
pub open spec fn views(calls: Seq<Opt>) -> Seq<OptView> {
    calls.map_values(|call: Opt| call@)
}

} // verus!
