//! The request builder, and the engine calls that a request is turned into.

use crate::body::Body;
use crate::decimal::decimal;
use crate::engine::{views, Opt, OptView};
use crate::handle::{Handle, HandleView};
use crate::headers::{append_header, lookup, strings, HeaderMultimap};
use crate::method::Method;
use crate::model::{lemma_header_keeps_wf, lemma_length_choice_keeps_wf, RequestView};
use crate::transfer::{Step, Transfer, TransferView};
use std::collections::VecDeque;
use vstd::prelude::*;
use vstd::string::StringExecFns;

verus! {

/// What has been said of a request so far.
pub struct Draft {
    method: Method,
    uris: Vec<String>,
    headers: HeaderMultimap,
    body: Option<Body>,
    body_type: bool,
    content_type: bool,
    expect_continue: bool,
    progress: bool,
    follow: bool,
}

impl View for Draft {
    type V = RequestView;

    closed spec fn view(&self) -> RequestView {
        RequestView {
            method: self.method,
            uris: strings(self.uris@),
            headers: self.headers@,
            body: self.body,
            body_type_set: self.body_type,
            content_type_set: self.content_type,
            expect_continue: self.expect_continue,
            progress: self.progress,
            follow_redirects: self.follow,
        }
    }
}

/// A request under construction on a session. It holds the handle of the
/// session borrowed for as long as it lives, and is used up by [`exec`].
///
/// [`exec`]: Request::exec
pub struct Request<'a> {
    /// The session that the request is made on.
    pub handle: &'a mut Handle,
    /// The description of the request.
    pub draft: Draft,
}

impl<'a> View for Request<'a> {
    type V = RequestView;

    open spec fn view(&self) -> RequestView {
        self.draft@
    }
}

impl<'a> Request<'a> {
    /// A request with the given method on the session of `handle`, with
    /// nothing else set.
    pub(crate) fn new(handle: &'a mut Handle, method: Method) -> (r: Request<'a>)
        ensures
            r@ == RequestView::fresh(method),
            r@.wf(),
            r.handle@ == old(handle)@,
            final(r.handle)@ == final(handle)@,
    {
        let draft = Draft {
            method: method,
            uris: Vec::new(),
            headers: HeaderMultimap::new(),
            body: None,
            body_type: false,
            content_type: false,
            expect_continue: false,
            progress: false,
            follow: false,
        };
        assert(draft@.uris =~= Seq::<Seq<char>>::empty());
        Request { handle: handle, draft: draft }
    }

    /// The method of the request.
    pub fn method(&self) -> (method: Method)
        ensures
            method == self@.method,
    {
        self.draft.method
    }

    /// Assigns the target of the request. The engine is given it when the
    /// request is executed; should it reject the target, the execution ends
    /// with that error before the transfer is configured.
    pub fn uri(self, uri: &str) -> (r: Request<'a>)
        ensures
            r@ == self@.with_uri(uri@),
            self@.wf() ==> r@.wf(),
            r.handle@ == old(self.handle)@,
            final(r.handle)@ == final(self.handle)@,
    {
        let mut r = self;
        r.draft.uris.push(String::from_str(uri));
        assert(r@.uris =~= self@.uris.push(uri@));
        r
    }

    /// Attaches a body, in place of any that the request had.
    pub fn body(self, body: Body) -> (r: Request<'a>)
        ensures
            r@ == self@.with_body(body),
            self@.wf() ==> r@.wf(),
            r.handle@ == old(self.handle)@,
            final(r.handle)@ == final(self.handle)@,
    {
        let mut r = self;
        r.draft.body = Some(body);
        r
    }

    /// Announces the length of the body in a `Content-Length` header,
    /// unless the caller has already fixed how the length is announced: the
    /// first choice stands.
    pub fn content_length(self, len: usize) -> (r: Request<'a>)
        requires
            self@.wf(),
        ensures
            r@ == self@.with_content_length(len),
            r@.wf(),
            r.handle@ == old(self.handle)@,
            final(r.handle)@ == final(self.handle)@,
    {
        proof {
            lemma_length_choice_keeps_wf(self@, len);
        }
        let mut r = self;
        if !r.draft.body_type {
            r.draft.body_type = true;
            let digits = decimal(len);
            append_header(&mut r.draft.headers, "Content-Length", digits.as_str());
        }
        r
    }

    /// Announces the body as chunked in a `Transfer-Encoding` header,
    /// unless the caller has already fixed how the length is announced: the
    /// first choice stands.
    pub fn chunked(self) -> (r: Request<'a>)
        requires
            self@.wf(),
        ensures
            r@ == self@.with_chunked(),
            r@.wf(),
            r.handle@ == old(self.handle)@,
            final(r.handle)@ == final(self.handle)@,
    {
        proof {
            lemma_length_choice_keeps_wf(self@, 0);
        }
        let mut r = self;
        if !r.draft.body_type {
            r.draft.body_type = true;
            append_header(&mut r.draft.headers, "Transfer-Encoding", "chunked");
        }
        r
    }

    /// Lets the `100 Continue` handshake take place: the request will not
    /// carry the empty `Expect` header that suppresses it.
    pub fn expect_continue(self) -> (r: Request<'a>)
        ensures
            r@ == self@.with_expect_continue(),
            self@.wf() ==> r@.wf(),
            r.handle@ == old(self.handle)@,
            final(r.handle)@ == final(self.handle)@,
    {
        let mut r = self;
        r.draft.expect_continue = true;
        r
    }

    /// Appends a header value. A value that the name already has stays:
    /// the new one comes behind it. A header named `Content-Type` is the
    /// caller's choice of content type.
    pub fn header(self, name: &str, val: &str) -> (r: Request<'a>)
        requires
            self@.wf(),
        ensures
            r@ == self@.with_header(name@, val@),
            r@.wf(),
            r.handle@ == old(self.handle)@,
            final(r.handle)@ == final(self.handle)@,
    {
        proof {
            lemma_header_keeps_wf(self@, name@, val@);
        }
        let mut r = self;
        append_header(&mut r.draft.headers, name, val);
        if String::from_str(name) == String::from_str("Content-Type") {
            r.draft.content_type = true;
        }
        r
    }

    /// The values given for the header `name`, in the order of the calls,
    /// or `None` where the request has no such header.
    pub fn get_header(&self, name: &str) -> (values: Option<&[String]>)
        requires
            self@.wf(),
        ensures
            match values {
                Some(values) => lookup(self@.headers, name@) == Some(strings(values@)),
                None => lookup(self@.headers, name@) is None,
            },
    {
        self.draft.headers.lookup(name)
    }

    /// Appends each of the given headers, in their order.
    pub fn headers(self, hdrs: &[(&str, &str)]) -> (r: Request<'a>)
        requires
            self@.wf(),
        ensures
            r@ == self@.with_headers(pairs(hdrs@)),
            r@.wf(),
            r.handle@ == old(self.handle)@,
            final(r.handle)@ == final(self.handle)@,
    {
        let mut r = self;
        let mut i: usize = 0;
        assert(pairs(hdrs@).take(0) =~= Seq::<(Seq<char>, Seq<char>)>::empty());
        while i < hdrs.len()
            invariant
                i <= hdrs@.len(),
                r@ == self@.with_headers(pairs(hdrs@).take(i as int)),
                r@.wf(),
                r.handle@ == old(self.handle)@,
                final(r.handle)@ == final(self.handle)@,
            decreases hdrs@.len() - i,
        {
            let name = hdrs[i].0;
            let val = hdrs[i].1;
            proof {
                let head = pairs(hdrs@).take(i + 1);
                assert(head.drop_last() =~= pairs(hdrs@).take(i as int));
                assert(head.last() == (name@, val@));
            }
            r = r.header(name, val);
            i += 1;
        }
        assert(pairs(hdrs@).take(i as int) =~= pairs(hdrs@));
        r
    }

    /// Attaches a progress callback: the engine is to report the progress
    /// of the transfer to the callback that the caller's driver holds.
    pub fn progress(self) -> (r: Request<'a>)
        ensures
            r@ == self@.with_progress(),
            self@.wf() ==> r@.wf(),
            r.handle@ == old(self.handle)@,
            final(r.handle)@ == final(self.handle)@,
    {
        let mut r = self;
        r.draft.progress = true;
        r
    }

    /// Says whether redirects are followed.
    pub fn follow_redirects(self, follow: bool) -> (r: Request<'a>)
        ensures
            r@ == self@.with_follow_redirects(follow),
            self@.wf() ==> r@.wf(),
            r.handle@ == old(self.handle)@,
            final(r.handle)@ == final(self.handle)@,
    {
        let mut r = self;
        r.draft.follow = follow;
        r
    }

    /// Executes the request: turns it into the calls that the engine
    /// is to receive, and decides the first of them.
    ///
    /// The calls are, in order: the settings that the session is still
    /// owed; the targets; the redirect switch, where redirects are
    /// followed; the reset of the session's header list, which is made
    /// whether or not the request has headers of its own, so that nothing
    /// of an earlier request stays behind; the shape of the request; the
    /// size of the body; and the header lines, with the defaults that a
    /// request with a body gets. The engine has to accept the settings. A
    /// rejected target ends the execution once the redirect switch is
    /// through, before any of the configuration; any other rejection ends
    /// it at once.
    ///
    /// Only `GET`, `HEAD`, `POST`, `PUT` and `DELETE` can be executed.
    pub fn exec(self) -> (step: Step<'a>)
        requires
            self@.wf(),
            self@.method.executable(),
        ensures
            step@ == TransferView::of(self@, old(self.handle)@.pending).advance(),
            step.wf(),
            final(self.handle)@ == (HandleView { pending: Seq::empty(), ..old(self.handle)@ }),
            step matches Step::Configure(_, transfer) ==> transfer.session()@ == final(self.handle)@,
    {
        let ghost request = self@;
        let ghost settings = self.handle@.pending;
        let handle = self.handle;
        let draft = self.draft;

        let mut queue = handle.take_pending();
        let owed = queue.len();
        draft.push_targets(&mut queue);
        draft.push_redirect(&mut queue);
        push_call(&mut queue, Opt::ResetHeaders);
        draft.push_shape(&mut queue);
        draft.push_size(&mut queue);

        let targets = draft.uris.len();
        let follow = draft.follow;
        let body = draft.body;
        let progress = draft.progress;
        let headers = draft.negotiate();
        if !headers.is_empty() {
            push_call(&mut queue, Opt::HttpHeader(headers.lines()));
        }
        assert(views(queue@) =~= request.script(settings));

        let session: &'a Handle = handle;
        Transfer::begin(session, queue, owed, targets, follow, body, progress).advance()
    }
}

/// The names and values of a sequence of header pairs.
pub open spec fn pairs(hdrs: Seq<(&str, &str)>) -> Seq<(Seq<char>, Seq<char>)> {
    hdrs.map_values(|pair: (&str, &str)| (pair.0@, pair.1@))
}

/// Puts one call at the end of the calls to make.
fn push_call(queue: &mut VecDeque<Opt>, opt: Opt)
    ensures
        views(final(queue)@) == views(old(queue)@).push(opt@),
{
    queue.push_back(opt);
    assert(views(queue@) =~= views(old(queue)@).push(opt@));
}

impl Draft {
    /// Adds the calls that assign the target.
    fn push_targets(&self, queue: &mut VecDeque<Opt>)
        ensures
            views(final(queue)@) == views(old(queue)@) + self@.target_calls(),
    {
        let mut i: usize = 0;
        assert(views(queue@) =~= views(old(queue)@) + self@.target_calls().take(0));
        while i < self.uris.len()
            invariant
                i <= self.uris@.len(),
                views(queue@) == views(old(queue)@) + self@.target_calls().take(i as int),
            decreases self.uris@.len() - i,
        {
            push_call(queue, Opt::Url(self.uris[i].clone()));
            assert(self@.target_calls().take(i + 1) =~= self@.target_calls().take(i as int).push(
                OptView::Url(self.uris@[i as int]@),
            ));
            i += 1;
        }
        assert(self@.target_calls().take(i as int) =~= self@.target_calls());
    }

    /// Adds the redirect switch, where redirects are followed.
    fn push_redirect(&self, queue: &mut VecDeque<Opt>)
        ensures
            views(final(queue)@) == views(old(queue)@) + self@.redirect_calls(),
    {
        if self.follow {
            push_call(queue, Opt::FollowLocation);
        }
        assert(views(queue@) =~= views(old(queue)@) + self@.redirect_calls());
    }

    /// Adds the calls that give the request its shape.
    fn push_shape(&self, queue: &mut VecDeque<Opt>)
        requires
            self@.method.executable(),
        ensures
            views(final(queue)@) == views(old(queue)@) + self@.shape_calls(),
    {
        match self.method {
            Method::Get => push_call(queue, Opt::HttpGet),
            Method::Head => push_call(queue, Opt::NoBody),
            Method::Post => push_call(queue, Opt::Post),
            Method::Put => push_call(queue, Opt::Upload),
            Method::Delete => {
                if self.body.is_some() {
                    push_call(queue, Opt::Upload);
                }
                push_call(queue, Opt::CustomRequest(String::from_str("DELETE")));
            },
            _ => {},
        }
        assert(views(queue@) =~= views(old(queue)@) + self@.shape_calls());
    }

    /// Adds the call that announces the size of the body.
    fn push_size(&self, queue: &mut VecDeque<Opt>)
        ensures
            views(final(queue)@) == views(old(queue)@) + self@.size_calls(),
    {
        if let Some(body) = self.body {
            if !self.body_type {
                if let Some(len) = body.get_size() {
                    match self.method {
                        Method::Post => push_call(queue, Opt::PostFieldSize(len)),
                        Method::Put | Method::Delete => push_call(queue, Opt::InFileSize(len)),
                        _ => {},
                    }
                }
            }
        }
        assert(views(queue@) =~= views(old(queue)@) + self@.size_calls());
    }

    /// Settles the headers that go with the body, and gives the headers of
    /// the request as the engine is to get them.
    fn negotiate(self) -> (headers: HeaderMultimap)
        requires
            self@.wf(),
        ensures
            headers@ == self@.negotiated_headers(),
    {
        let mut headers = self.headers;
        if let Some(body) = self.body {
            if !self.body_type && body.get_size().is_none() {
                append_header(&mut headers, "Transfer-Encoding", "chunked");
            }
            if !self.content_type {
                append_header(&mut headers, "Content-Type", "application/octet-stream");
            }
            if !self.expect_continue {
                append_header(&mut headers, "Expect", "");
            }
        }
        headers
    }
}

} // verus!
