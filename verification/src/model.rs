//! The mathematical description of a request: what the builder calls make
//! of it, and the option calls that it is turned into.

use crate::body::Body;
use crate::decimal::decimal_digits;
use crate::engine::OptView;
use crate::headers::{
    appended, has_name, lemma_appended, well_formed, wire_lines, HeaderSeq,
};
use crate::method::Method;
use vstd::prelude::*;

verus! {

/// The value of a request under construction.
pub struct RequestView {
    /// The method, fixed when the request is made.
    pub method: Method,
    /// The targets assigned so far, in the order of the calls.
    pub uris: Seq<Seq<char>>,
    /// The headers.
    pub headers: HeaderSeq,
    /// The body, if any.
    pub body: Option<Body>,
    /// Whether the caller has fixed how the length of the body is
    /// announced: by an explicit length, or as chunked.
    pub body_type_set: bool,
    /// Whether the caller has given a `Content-Type` header.
    pub content_type_set: bool,
    /// Whether the `100 Continue` handshake is left to take place.
    pub expect_continue: bool,
    /// Whether a progress callback is attached.
    pub progress: bool,
    /// Whether redirects are followed.
    pub follow_redirects: bool,
}

impl RequestView {
    /// A request as it is made: nothing set but the method.
    pub open spec fn fresh(method: Method) -> RequestView {
        RequestView {
            method: method,
            uris: Seq::empty(),
            headers: Seq::empty(),
            body: None,
            body_type_set: false,
            content_type_set: false,
            expect_continue: false,
            progress: false,
            follow_redirects: false,
        }
    }

    /// The invariant of a request: its headers are well formed, and the
    /// flag for `Content-Type` is set exactly where such a header is held.
    pub open spec fn wf(self) -> bool {
        &&& well_formed(self.headers)
        &&& self.content_type_set <==> has_name(self.headers, "Content-Type"@)
    }

    /// After `uri`.
    pub open spec fn with_uri(self, uri: Seq<char>) -> RequestView {
        RequestView { uris: self.uris.push(uri), ..self }
    }

    /// After `body`.
    pub open spec fn with_body(self, body: Body) -> RequestView {
        RequestView { body: Some(body), ..self }
    }

    /// After `content_length`: the first choice of how the length is
    /// announced stands, a later one changes nothing.
    pub open spec fn with_content_length(self, len: usize) -> RequestView {
        if self.body_type_set {
            self
        } else {
            RequestView {
                body_type_set: true,
                headers: appended(self.headers, "Content-Length"@, decimal_digits(len as nat)),
                ..self
            }
        }
    }

    /// After `chunked`: the first choice of how the length is announced
    /// stands, a later one changes nothing.
    pub open spec fn with_chunked(self) -> RequestView {
        if self.body_type_set {
            self
        } else {
            RequestView {
                body_type_set: true,
                headers: appended(self.headers, "Transfer-Encoding"@, "chunked"@),
                ..self
            }
        }
    }

    /// After `expect_continue`.
    pub open spec fn with_expect_continue(self) -> RequestView {
        RequestView { expect_continue: true, ..self }
    }

    /// After `header`: the value is appended, and a `Content-Type` header
    /// counts as the caller's choice of content type.
    pub open spec fn with_header(self, name: Seq<char>, value: Seq<char>) -> RequestView {
        RequestView {
            headers: appended(self.headers, name, value),
            content_type_set: self.content_type_set || name == "Content-Type"@,
            ..self
        }
    }

    /// After `headers`: each pair appended in turn.
    pub open spec fn with_headers(self, pairs: Seq<(Seq<char>, Seq<char>)>) -> RequestView
        decreases pairs.len(),
    {
        if pairs.len() == 0 {
            self
        } else {
            self.with_headers(pairs.drop_last()).with_header(pairs.last().0, pairs.last().1)
        }
    }

    /// After `progress`.
    pub open spec fn with_progress(self) -> RequestView {
        RequestView { progress: true, ..self }
    }

    /// After `follow_redirects`.
    pub open spec fn with_follow_redirects(self, follow: bool) -> RequestView {
        RequestView { follow_redirects: follow, ..self }
    }

    /// The headers after the announcement of the body's length has been
    /// settled: a body of unknown length, for which the caller has made no
    /// choice, is sent chunked.
    pub open spec fn with_length_settled(self) -> HeaderSeq {
        match self.body {
            Some(body) if !self.body_type_set && body.size is None => appended(
                self.headers,
                "Transfer-Encoding"@,
                "chunked"@,
            ),
            _ => self.headers,
        }
    }

    /// The headers after the content type has been settled as well: a body
    /// for which the caller has named none goes as
    /// `application/octet-stream`.
    pub open spec fn with_type_settled(self) -> HeaderSeq {
        if self.body is Some && !self.content_type_set {
            appended(self.with_length_settled(), "Content-Type"@, "application/octet-stream"@)
        } else {
            self.with_length_settled()
        }
    }

    /// The headers that go to the engine. Beyond the two defaults above, a
    /// request with a body carries an `Expect` header without a value, which
    /// keeps the engine from waiting for `100 Continue`, unless the caller
    /// has asked for that handshake. A request without a body gets nothing
    /// added.
    pub open spec fn negotiated_headers(self) -> HeaderSeq {
        if self.body is Some && !self.expect_continue {
            appended(self.with_type_settled(), "Expect"@, ""@)
        } else {
            self.with_type_settled()
        }
    }

    /// The calls that assign the target: one per `uri` call.
    pub open spec fn target_calls(self) -> Seq<OptView> {
        Seq::new(self.uris.len(), |i: int| OptView::Url(self.uris[i]))
    }

    /// The call that switches redirects on, where they are followed.
    pub open spec fn redirect_calls(self) -> Seq<OptView> {
        if self.follow_redirects {
            seq![OptView::FollowLocation]
        } else {
            Seq::empty()
        }
    }

    /// The calls that give the request its shape. `DELETE` alone depends on
    /// the body: with one, upload mode comes before the method name.
    pub open spec fn shape_calls(self) -> Seq<OptView> {
        match self.method {
            Method::Get => seq![OptView::HttpGet],
            Method::Head => seq![OptView::NoBody],
            Method::Post => seq![OptView::Post],
            Method::Put => seq![OptView::Upload],
            Method::Delete => if self.body is Some {
                seq![OptView::Upload, OptView::CustomRequest("DELETE"@)]
            } else {
                seq![OptView::CustomRequest("DELETE"@)]
            },
            _ => Seq::empty(),
        }
    }

    /// The call that announces the size of the body to the engine: made
    /// where the body has a known length and the caller has not fixed how
    /// the length is announced, and only for the methods that have such a
    /// call.
    pub open spec fn size_calls(self) -> Seq<OptView> {
        match self.body {
            Some(Body { size: Some(len) }) if !self.body_type_set => match self.method {
                Method::Post => seq![OptView::PostFieldSize(len)],
                Method::Put | Method::Delete => seq![OptView::InFileSize(len)],
                _ => Seq::empty(),
            },
            _ => Seq::empty(),
        }
    }

    /// The call that hands over the header lines: made where there is at
    /// least one header.
    pub open spec fn header_calls(self) -> Seq<OptView> {
        if self.negotiated_headers().len() > 0 {
            seq![OptView::HttpHeader(wire_lines(self.negotiated_headers()))]
        } else {
            Seq::empty()
        }
    }

    /// The calls that configure the transfer itself, in order: the header
    /// list of the session is dropped, the request gets its shape, the size
    /// of the body is announced, and the headers are handed over.
    pub open spec fn configuration(self) -> Seq<OptView> {
        seq![OptView::ResetHeaders] + self.shape_calls() + self.size_calls()
            + self.header_calls()
    }

    /// Every call that the engine receives for this request where it accepts
    /// each of them, in order: the settings of the session that are still
    /// due, the targets, the redirect switch, and the configuration.
    pub open spec fn script(self, settings: Seq<OptView>) -> Seq<OptView> {
        settings + self.target_calls() + self.redirect_calls() + self.configuration()
    }
}

/// The choice of how the length of the body is announced leaves a
/// well-formed request well formed.
pub proof fn lemma_length_choice_keeps_wf(request: RequestView, len: usize)
    requires
        request.wf(),
    ensures
        request.with_content_length(len).wf(),
        request.with_chunked().wf(),
{
    reveal_strlit("Content-Type");
    reveal_strlit("Content-Length");
    reveal_strlit("Transfer-Encoding");
    assert("Content-Length"@.len() != "Content-Type"@.len());
    assert("Transfer-Encoding"@.len() != "Content-Type"@.len());
    lemma_appended(request.headers, "Content-Length"@, decimal_digits(len as nat));
    lemma_appended(request.headers, "Transfer-Encoding"@, "chunked"@);
}

/// A header appended to a well-formed request leaves it well formed.
pub proof fn lemma_header_keeps_wf(request: RequestView, name: Seq<char>, value: Seq<char>)
    requires
        request.wf(),
    ensures
        request.with_header(name, value).wf(),
{
    lemma_appended(request.headers, name, value);
}

} // verus!
