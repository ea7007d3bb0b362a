//! The session handle: the settings that outlive a request, and the
//! requests that are made from it.

use crate::body::Body;
use crate::engine::{views, Opt, OptView};
use crate::method::Method;
use crate::model::RequestView;
use crate::request::Request;
use std::collections::VecDeque;
use vstd::prelude::*;

verus! {

/// The timeout that a new handle starts with, for the whole transfer and
/// for the connection phase alike, in milliseconds.
pub const DEFAULT_TIMEOUT_MS: usize = 30_000;

/// One session of the transport engine, seen from the library: the two
/// timeouts in force, and the option calls that set them and are still to
/// reach the engine. The next transfer on the handle delivers those calls
/// before anything else.
pub struct Handle {
    timeout_ms: usize,
    connect_timeout_ms: usize,
    pending: VecDeque<Opt>,
}

/// The value of a [`Handle`].
pub struct HandleView {
    /// Limit of a whole transfer, in milliseconds.
    pub timeout_ms: usize,
    /// Limit of the connection phase, in milliseconds.
    pub connect_timeout_ms: usize,
    /// The calls that the engine has not been given yet, oldest first.
    pub pending: Seq<OptView>,
}

impl View for Handle {
    type V = HandleView;

    closed spec fn view(&self) -> HandleView {
        HandleView {
            timeout_ms: self.timeout_ms,
            connect_timeout_ms: self.connect_timeout_ms,
            pending: views(self.pending@),
        }
    }
}

impl Handle {
    /// A handle with both timeouts at their default, each still to be
    /// applied.
    pub fn new() -> (h: Handle)
        ensures
            h@ == (HandleView {
                timeout_ms: DEFAULT_TIMEOUT_MS,
                connect_timeout_ms: DEFAULT_TIMEOUT_MS,
                pending: seq![
                    OptView::Timeout(DEFAULT_TIMEOUT_MS),
                    OptView::ConnectTimeout(DEFAULT_TIMEOUT_MS),
                ],
            }),
    {
        let h = Handle {
            timeout_ms: DEFAULT_TIMEOUT_MS,
            connect_timeout_ms: DEFAULT_TIMEOUT_MS,
            pending: VecDeque::new(),
        };
        assert(h@.pending =~= Seq::<OptView>::empty());
        let h = h.timeout(DEFAULT_TIMEOUT_MS).connect_timeout(DEFAULT_TIMEOUT_MS);
        assert(h@.pending =~= seq![
            OptView::Timeout(DEFAULT_TIMEOUT_MS),
            OptView::ConnectTimeout(DEFAULT_TIMEOUT_MS),
        ]);
        h
    }

    /// Sets the limit of a whole transfer.
    pub fn timeout(self, ms: usize) -> (h: Handle)
        ensures
            h@ == (HandleView {
                timeout_ms: ms,
                pending: self@.pending.push(OptView::Timeout(ms)),
                ..self@
            }),
    {
        let mut h = self;
        h.timeout_ms = ms;
        h.pending.push_back(Opt::Timeout(ms));
        assert(views(h.pending@) =~= views(self.pending@).push(OptView::Timeout(ms)));
        h
    }

    /// Sets the limit of the connection phase.
    pub fn connect_timeout(self, ms: usize) -> (h: Handle)
        ensures
            h@ == (HandleView {
                connect_timeout_ms: ms,
                pending: self@.pending.push(OptView::ConnectTimeout(ms)),
                ..self@
            }),
    {
        let mut h = self;
        h.connect_timeout_ms = ms;
        h.pending.push_back(Opt::ConnectTimeout(ms));
        assert(views(h.pending@) =~= views(self.pending@).push(OptView::ConnectTimeout(ms)));
        h
    }

    /// The limit of a whole transfer, in milliseconds.
    pub fn timeout_ms(&self) -> (ms: usize)
        ensures
            ms == self@.timeout_ms,
    {
        self.timeout_ms
    }

    /// The limit of the connection phase, in milliseconds.
    pub fn connect_timeout_ms(&self) -> (ms: usize)
        ensures
            ms == self@.connect_timeout_ms,
    {
        self.connect_timeout_ms
    }

    /// Starts a `GET` request for `uri`.
    pub fn get<'a>(&'a mut self, uri: &str) -> (r: Request<'a>)
        ensures
            r@ == RequestView::fresh(Method::Get).with_uri(uri@),
            r@.wf(),
            r.handle@ == old(self)@,
            final(r.handle)@ == final(self)@,
    {
        Request::new(self, Method::Get).uri(uri)
    }

    /// Starts a `HEAD` request for `uri`.
    pub fn head<'a>(&'a mut self, uri: &str) -> (r: Request<'a>)
        ensures
            r@ == RequestView::fresh(Method::Head).with_uri(uri@),
            r@.wf(),
            r.handle@ == old(self)@,
            final(r.handle)@ == final(self)@,
    {
        Request::new(self, Method::Head).uri(uri)
    }

    /// Starts a `POST` request for `uri` that sends `body`.
    pub fn post<'a>(&'a mut self, uri: &str, body: Body) -> (r: Request<'a>)
        ensures
            r@ == RequestView::fresh(Method::Post).with_uri(uri@).with_body(body),
            r@.wf(),
            r.handle@ == old(self)@,
            final(r.handle)@ == final(self)@,
    {
        Request::new(self, Method::Post).uri(uri).body(body)
    }

    /// Starts a `PUT` request for `uri` that sends `body`.
    pub fn put<'a>(&'a mut self, uri: &str, body: Body) -> (r: Request<'a>)
        ensures
            r@ == RequestView::fresh(Method::Put).with_uri(uri@).with_body(body),
            r@.wf(),
            r.handle@ == old(self)@,
            final(r.handle)@ == final(self)@,
    {
        Request::new(self, Method::Put).uri(uri).body(body)
    }

    /// Starts a `DELETE` request for `uri`.
    pub fn delete<'a>(&'a mut self, uri: &str) -> (r: Request<'a>)
        ensures
            r@ == RequestView::fresh(Method::Delete).with_uri(uri@),
            r@.wf(),
            r.handle@ == old(self)@,
            final(r.handle)@ == final(self)@,
    {
        Request::new(self, Method::Delete).uri(uri)
    }

    /// Takes the calls that are still due out of the handle, oldest first.
    /// A driver that wants the engine to have a setting as soon as it is
    /// made calls this after each change and makes the calls itself; what
    /// it leaves here, the next transfer delivers.
    pub fn take_pending(&mut self) -> (calls: VecDeque<Opt>)
        ensures
            views(calls@) == old(self)@.pending,
            final(self)@ == (HandleView { pending: Seq::empty(), ..old(self)@ }),
    {
        let mut calls: VecDeque<Opt> = VecDeque::new();
        calls.append(&mut self.pending);
        assert(calls@ =~= old(self).pending@);
        assert(views(self.pending@) =~= Seq::<OptView>::empty());
        calls
    }
}

} // verus!
