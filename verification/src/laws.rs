//! What holds of every request: of its headers, whatever the order of the
//! builder calls, and of the calls that it is turned into.

use crate::body::Body;
use crate::decimal::decimal_digits;
use crate::engine::{ErrCode, OptView, Outcome};
use crate::headers::{
    lemma_appended, lemma_lookup_appended, lemma_lookup_appended_other, lookup, values_of,
    well_formed, wire_lines,
};
use crate::method::Method;
use crate::model::{lemma_header_keeps_wf, RequestView};
use crate::transfer::{first_rejection, run, End, Run, StepView, TransferView};
use vstd::prelude::*;

verus! {

/// Two values given for one header are both held afterwards, behind the
/// values that the name had before, in the order of the two calls.
pub proof fn law_header_appends(
    request: RequestView,
    name: Seq<char>,
    first: Seq<char>,
    second: Seq<char>,
)
    requires
        request.wf(),
    ensures
        lookup(request.with_header(name, first).with_header(name, second).headers, name) == Some(
            values_of(request.headers, name).push(first).push(second),
        ),
        lookup(request.headers, name) is None ==> lookup(
            request.with_header(name, first).with_header(name, second).headers,
            name,
        ) == Some(seq![first, second]),
{
    let once = request.with_header(name, first);
    lemma_header_keeps_wf(request, name, first);
    lemma_lookup_appended(request.headers, name, first);
    lemma_lookup_appended(once.headers, name, second);
    assert(Seq::<Seq<char>>::empty().push(first).push(second) =~= seq![first, second]);
}

/// A header given for one name changes nothing of what another name holds.
pub proof fn law_header_leaves_others(
    request: RequestView,
    name: Seq<char>,
    value: Seq<char>,
    other: Seq<char>,
)
    requires
        request.wf(),
        other != name,
    ensures
        lookup(request.with_header(name, value).headers, other) == lookup(request.headers, other),
{
    lemma_lookup_appended_other(request.headers, name, value, other);
}

/// The first choice of how the length of the body is announced stands: an
/// explicit length followed by `chunked` is the explicit length alone, and
/// `chunked` followed by an explicit length is `chunked` alone.
pub proof fn law_first_length_choice_stands(request: RequestView, len: usize)
    ensures
        request.with_content_length(len).with_chunked() == request.with_content_length(len),
        request.with_chunked().with_content_length(len) == request.with_chunked(),
        request.body_type_set ==> request.with_content_length(len) == request
            && request.with_chunked() == request,
{
}

/// Whether every choice that stands in `before` still stands in `after`:
/// that the announcement of the length has been fixed, and that a content
/// type has been named.
pub open spec fn choices_kept(before: RequestView, after: RequestView) -> bool {
    &&& before.body_type_set ==> after.body_type_set
    &&& before.content_type_set ==> after.content_type_set
}

/// What the caller has chosen stays chosen: no builder call takes a choice
/// back.
pub proof fn law_choices_are_kept(
    request: RequestView,
    uri: Seq<char>,
    body: Body,
    len: usize,
    name: Seq<char>,
    value: Seq<char>,
    follow: bool,
)
    ensures
        choices_kept(request, request.with_uri(uri)),
        choices_kept(request, request.with_body(body)),
        choices_kept(request, request.with_content_length(len)),
        choices_kept(request, request.with_chunked()),
        choices_kept(request, request.with_expect_continue()),
        choices_kept(request, request.with_header(name, value)),
        choices_kept(request, request.with_progress()),
        choices_kept(request, request.with_follow_redirects(follow)),
{
}

/// On a request for which no choice has been made, an explicit length
/// followed by `chunked` adds the length to `Content-Length` and nothing to
/// `Transfer-Encoding`; in the other order `Transfer-Encoding` gains
/// `chunked` and `Content-Length` gains nothing.
pub proof fn law_length_choice_headers(request: RequestView, len: usize)
    requires
        request.wf(),
        !request.body_type_set,
    ensures
        lookup(request.with_content_length(len).with_chunked().headers, "Content-Length"@)
            == Some(values_of(request.headers, "Content-Length"@).push(decimal_digits(len as nat))),
        lookup(request.with_content_length(len).with_chunked().headers, "Transfer-Encoding"@)
            == lookup(request.headers, "Transfer-Encoding"@),
        lookup(request.with_chunked().with_content_length(len).headers, "Transfer-Encoding"@)
            == Some(values_of(request.headers, "Transfer-Encoding"@).push("chunked"@)),
        lookup(request.with_chunked().with_content_length(len).headers, "Content-Length"@)
            == lookup(request.headers, "Content-Length"@),
{
    lemma_names_differ();
    lemma_lookup_appended(request.headers, "Content-Length"@, decimal_digits(len as nat));
    lemma_lookup_appended_other(
        request.headers,
        "Content-Length"@,
        decimal_digits(len as nat),
        "Transfer-Encoding"@,
    );
    lemma_lookup_appended(request.headers, "Transfer-Encoding"@, "chunked"@);
    lemma_lookup_appended_other(
        request.headers,
        "Transfer-Encoding"@,
        "chunked"@,
        "Content-Length"@,
    );
}

/// The names of the headers that the library writes are pairwise
/// different.
proof fn lemma_names_differ()
    ensures
        "Content-Length"@ != "Transfer-Encoding"@,
        "Content-Length"@ != "Content-Type"@,
        "Content-Length"@ != "Expect"@,
        "Transfer-Encoding"@ != "Content-Type"@,
        "Transfer-Encoding"@ != "Expect"@,
        "Content-Type"@ != "Expect"@,
{
    reveal_strlit("Content-Length");
    reveal_strlit("Transfer-Encoding");
    reveal_strlit("Content-Type");
    reveal_strlit("Expect");
    assert("Content-Length"@.len() == 14);
    assert("Transfer-Encoding"@.len() == 17);
    assert("Content-Type"@.len() == 12);
    assert("Expect"@.len() == 6);
}

/// The headers of a well-formed request stay well formed through each
/// stage of the negotiation.
proof fn lemma_negotiation_keeps_wf(request: RequestView)
    requires
        request.wf(),
    ensures
        well_formed(request.with_length_settled()),
        well_formed(request.with_type_settled()),
        well_formed(request.negotiated_headers()),
{
    lemma_appended(request.headers, "Transfer-Encoding"@, "chunked"@);
    lemma_appended(request.with_length_settled(), "Content-Type"@, "application/octet-stream"@);
    lemma_appended(request.with_type_settled(), "Expect"@, ""@);
}

/// A body of unknown length, on a request for which the caller has not
/// fixed how the length is announced, is sent chunked: the execution adds
/// `chunked` to `Transfer-Encoding`, once, adds nothing to `Content-Length`,
/// and announces no size to the engine. Where the caller has given neither
/// header, the request goes out with the one `Transfer-Encoding: chunked`
/// and without `Content-Length`.
pub proof fn law_unsized_body_goes_chunked(request: RequestView)
    requires
        request.wf(),
        request.body is Some,
        request.body->0.size is None,
        !request.body_type_set,
    ensures
        lookup(request.negotiated_headers(), "Transfer-Encoding"@) == Some(
            values_of(request.headers, "Transfer-Encoding"@).push("chunked"@),
        ),
        lookup(request.negotiated_headers(), "Content-Length"@) == lookup(
            request.headers,
            "Content-Length"@,
        ),
        request.size_calls() == Seq::<OptView>::empty(),
        lookup(request.headers, "Transfer-Encoding"@) is None ==> lookup(
            request.negotiated_headers(),
            "Transfer-Encoding"@,
        ) == Some(seq!["chunked"@]),
        lookup(request.headers, "Content-Length"@) is None ==> lookup(
            request.negotiated_headers(),
            "Content-Length"@,
        ) is None,
{
    lemma_names_differ();
    lemma_negotiation_keeps_wf(request);
    let settled = request.with_length_settled();
    let typed = request.with_type_settled();
    lemma_lookup_appended(request.headers, "Transfer-Encoding"@, "chunked"@);
    lemma_lookup_appended_other(
        request.headers,
        "Transfer-Encoding"@,
        "chunked"@,
        "Content-Length"@,
    );
    lemma_lookup_appended_other(
        settled,
        "Content-Type"@,
        "application/octet-stream"@,
        "Transfer-Encoding"@,
    );
    lemma_lookup_appended_other(
        settled,
        "Content-Type"@,
        "application/octet-stream"@,
        "Content-Length"@,
    );
    lemma_lookup_appended_other(typed, "Expect"@, ""@, "Transfer-Encoding"@);
    lemma_lookup_appended_other(typed, "Expect"@, ""@, "Content-Length"@);
    assert(Seq::<Seq<char>>::empty().push("chunked"@) =~= seq!["chunked"@]);
}

/// A request without a body goes out with the headers that the caller
/// gave it, and no others: no default is added.
pub proof fn law_no_body_no_defaults(request: RequestView)
    requires
        request.body is None,
    ensures
        request.negotiated_headers() == request.headers,
        request.size_calls() == Seq::<OptView>::empty(),
{
}

/// A request with a body, for which the caller has named no content type,
/// goes out with exactly one `Content-Type`: `application/octet-stream`.
/// Where the caller has named one, the execution adds none.
pub proof fn law_default_content_type(request: RequestView)
    requires
        request.wf(),
        request.body is Some,
    ensures
        !request.content_type_set ==> lookup(request.negotiated_headers(), "Content-Type"@)
            == Some(seq!["application/octet-stream"@]),
        request.content_type_set ==> lookup(request.negotiated_headers(), "Content-Type"@)
            == lookup(request.headers, "Content-Type"@),
{
    lemma_names_differ();
    lemma_negotiation_keeps_wf(request);
    let settled = request.with_length_settled();
    let typed = request.with_type_settled();
    lemma_lookup_appended_other(
        request.headers,
        "Transfer-Encoding"@,
        "chunked"@,
        "Content-Type"@,
    );
    lemma_lookup_appended(settled, "Content-Type"@, "application/octet-stream"@);
    lemma_lookup_appended_other(typed, "Expect"@, ""@, "Content-Type"@);
    assert(Seq::<Seq<char>>::empty().push("application/octet-stream"@)
        =~= seq!["application/octet-stream"@]);
}

/// A request with a body gains an `Expect` header without a value, behind
/// whatever the caller gave for that name, unless the caller has asked for
/// the `100 Continue` handshake: then it gains none.
pub proof fn law_expect_header(request: RequestView)
    requires
        request.wf(),
        request.body is Some,
    ensures
        request.expect_continue ==> lookup(request.negotiated_headers(), "Expect"@) == lookup(
            request.headers,
            "Expect"@,
        ),
        !request.expect_continue ==> lookup(request.negotiated_headers(), "Expect"@) == Some(
            values_of(request.headers, "Expect"@).push(""@),
        ),
        !request.expect_continue && lookup(request.headers, "Expect"@) is None ==> lookup(
            request.negotiated_headers(),
            "Expect"@,
        ) == Some(seq![""@]),
{
    lemma_names_differ();
    lemma_negotiation_keeps_wf(request);
    let settled = request.with_length_settled();
    let typed = request.with_type_settled();
    lemma_lookup_appended_other(request.headers, "Transfer-Encoding"@, "chunked"@, "Expect"@);
    lemma_lookup_appended_other(
        settled,
        "Content-Type"@,
        "application/octet-stream"@,
        "Expect"@,
    );
    lemma_lookup_appended(typed, "Expect"@, ""@);
    assert(Seq::<Seq<char>>::empty().push(""@) =~= seq![""@]);
}

/// `DELETE` with a body switches upload mode on and then names the method;
/// without a body it names the method and does not touch upload mode. In
/// both cases the calls stand right behind the reset of the header list.
pub proof fn law_delete_shape(request: RequestView)
    requires
        request.method == Method::Delete,
    ensures
        request.body is Some ==> request.configuration().subrange(0, 3) == seq![
            OptView::ResetHeaders,
            OptView::Upload,
            OptView::CustomRequest("DELETE"@),
        ],
        request.body is None ==> request.configuration().subrange(0, 2) == seq![
            OptView::ResetHeaders,
            OptView::CustomRequest("DELETE"@),
        ],
        request.body is None ==> !request.configuration().contains(OptView::Upload),
{
    if request.body is Some {
        assert(request.configuration().subrange(0, 3) =~= seq![
            OptView::ResetHeaders,
            OptView::Upload,
            OptView::CustomRequest("DELETE"@),
        ]);
    } else {
        assert(request.configuration().subrange(0, 2) =~= seq![
            OptView::ResetHeaders,
            OptView::CustomRequest("DELETE"@),
        ]);
        assert(request.size_calls() =~= Seq::<OptView>::empty());
        let calls = request.configuration();
        assert forall|i: int| 0 <= i < calls.len() implies calls[i] != OptView::Upload by {}
    }
}

/// The header list that a session holds after it has accepted `calls`: the
/// lines of the last call that handed a list over, unless the list has
/// been reset since.
pub open spec fn headers_in_force(calls: Seq<OptView>) -> Seq<Seq<u8>>
    decreases calls.len(),
{
    if calls.len() == 0 {
        Seq::empty()
    } else {
        match calls.last() {
            OptView::ResetHeaders => Seq::empty(),
            OptView::HttpHeader(lines) => lines,
            _ => headers_in_force(calls.drop_last()),
        }
    }
}

/// Nothing of an earlier request stays behind: whatever calls the session
/// has accepted before, once it has accepted the configuration of a
/// request, the header list in force is that of this request, and it is
/// empty where the request has no headers.
pub proof fn law_headers_do_not_leak(before: Seq<OptView>, request: RequestView)
    ensures
        headers_in_force(before + request.configuration()) == wire_lines(
            request.negotiated_headers(),
        ),
        request.negotiated_headers().len() == 0 ==> headers_in_force(
            before + request.configuration(),
        ) == Seq::<Seq<u8>>::empty(),
{
    let reset = before + seq![OptView::ResetHeaders];
    assert(reset.last() == OptView::ResetHeaders);
    lemma_in_force_through(reset, request.shape_calls());
    lemma_in_force_through(reset + request.shape_calls(), request.size_calls());
    let shaped = reset + request.shape_calls() + request.size_calls();
    assert(before + request.configuration() =~= shaped + request.header_calls());
    if request.negotiated_headers().len() > 0 {
        assert((shaped + request.header_calls()).last() == OptView::HttpHeader(
            wire_lines(request.negotiated_headers()),
        ));
    } else {
        assert(shaped + request.header_calls() =~= shaped);
    }
}

/// Of two requests executed one after the other on one session, each
/// accepted call by call, the second goes out with its own headers only:
/// the header list in force at its end is that of the second request,
/// whatever the first one carried.
pub proof fn law_second_request_headers(
    first: RequestView,
    first_settings: Seq<OptView>,
    second: RequestView,
    second_settings: Seq<OptView>,
)
    ensures
        headers_in_force(first.script(first_settings) + second.script(second_settings))
            == wire_lines(second.negotiated_headers()),
{
    let before = first.script(first_settings) + second_settings + second.target_calls()
        + second.redirect_calls();
    assert(first.script(first_settings) + second.script(second_settings) =~= before
        + second.configuration());
    law_headers_do_not_leak(before, second);
}

/// Calls that neither reset the header list nor hand one over leave the
/// list in force as it is.
proof fn lemma_in_force_through(calls: Seq<OptView>, more: Seq<OptView>)
    requires
        forall|i: int|
            0 <= i < more.len() ==> !(#[trigger] more[i] is ResetHeaders) && !(more[i]
                is HttpHeader),
    ensures
        headers_in_force(calls + more) == headers_in_force(calls),
    decreases more.len(),
{
    if more.len() == 0 {
        assert(calls + more =~= calls);
    } else {
        let all = calls + more;
        assert(all.last() == more.last());
        assert(all.drop_last() =~= calls + more.drop_last());
        lemma_in_force_through(calls, more.drop_last());
    }
}

/// The execution of a request is well formed before its first step.
proof fn lemma_initial_wf(request: RequestView, settings: Seq<OptView>)
    ensures
        TransferView::of(request, settings).wf(),
        TransferView::of(request, settings).script.subrange(
            0,
            TransferView::of(request, settings).opening() as int,
        ) == settings + request.target_calls() + request.redirect_calls(),
{
    let t = TransferView::of(request, settings);
    assert(t.script.subrange(0, t.opening() as int) =~= settings + request.target_calls()
        + request.redirect_calls());
}

/// Where the engine accepts every call that is left, the run gives it the
/// rest of the script, call by call, and ends with the transfer.
proof fn lemma_run_accepted(t: TransferView, answers: Seq<Outcome>)
    requires
        t.wf(),
        t.deferred is None,
        forall|i: int|
            t.issued <= i < t.script.len() ==> i < answers.len() && (#[trigger] answers[i]) is Ok,
    ensures
        run(t.advance(), answers) == (Run {
            calls: t.script.subrange(t.issued as int, t.script.len() as int),
            end: End::Performed(t.body, t.progress),
        }),
    decreases t.script.len() - t.issued,
{
    if t.issued < t.script.len() {
        let next = TransferView { issued: t.issued + 1, ..t };
        assert(answers[t.issued as int] is Ok);
        assert(next.resume(answers[t.issued as int]) == next.advance());
        lemma_run_accepted(next, answers);
        assert(seq![t.script[t.issued as int]] + next.script.subrange(
            next.issued as int,
            t.script.len() as int,
        ) =~= t.script.subrange(t.issued as int, t.script.len() as int));
    } else {
        assert(t.script.subrange(t.issued as int, t.script.len() as int) =~= Seq::<
            OptView,
        >::empty());
    }
}

/// Where the engine accepts every call, it is given exactly the script of
/// the request, in order, and is then told to perform the transfer, with
/// the body and the progress callback of the request.
pub proof fn law_accepted_run(request: RequestView, settings: Seq<OptView>, answers: Seq<Outcome>)
    requires
        forall|i: int|
            0 <= i < request.script(settings).len() ==> i < answers.len() && (
            #[trigger] answers[i]) is Ok,
    ensures
        run(TransferView::of(request, settings).advance(), answers) == (Run {
            calls: request.script(settings),
            end: End::Performed(request.body, request.progress),
        }),
{
    let t = TransferView::of(request, settings);
    lemma_initial_wf(request, settings);
    lemma_run_accepted(t, answers);
    assert(t.script.subrange(0, t.script.len() as int) =~= t.script);
}

/// Whatever the engine answers, the calls that it is given are the script
/// from the next call on, without a gap, as far as the run gets.
proof fn lemma_run_follows_script(t: TransferView, answers: Seq<Outcome>)
    requires
        t.wf(),
    ensures
        t.issued + run(t.advance(), answers).calls.len() <= t.script.len(),
        run(t.advance(), answers).calls == t.script.subrange(
            t.issued as int,
            (t.issued + run(t.advance(), answers).calls.len()) as int,
        ),
    decreases t.script.len() - t.issued,
{
    let r = run(t.advance(), answers);
    if t.advance() is Configure {
        let next = TransferView { issued: t.issued + 1, ..t };
        if next.issued <= answers.len() {
            match next.absorb(answers[next.issued - 1]) {
                Ok(after) => {
                    lemma_run_follows_script(after, answers);
                    let rest = run(after.advance(), answers);
                    assert(r.calls =~= seq![t.script[t.issued as int]] + rest.calls);
                    assert(r.calls =~= t.script.subrange(
                        t.issued as int,
                        (t.issued + r.calls.len()) as int,
                    ));
                },
                Err(e) => {
                    lemma_run_ended(StepView::Fail(e), answers);
                    assert(r.calls =~= seq![t.script[t.issued as int]]);
                    assert(r.calls =~= t.script.subrange(t.issued as int, t.issued + 1 as int));
                },
            }
        } else {
            assert(r.calls =~= t.script.subrange(t.issued as int, t.issued + 1 as int));
        }
    } else {
        assert(r.calls =~= t.script.subrange(t.issued as int, t.issued as int));
    }
}

/// Whatever the engine answers, it is given the calls of the script in
/// their order, from the first one on and without a gap, as far as the
/// execution gets.
pub proof fn law_run_follows_script(
    request: RequestView,
    settings: Seq<OptView>,
    answers: Seq<Outcome>,
)
    ensures
        run(TransferView::of(request, settings).advance(), answers).calls.len()
            <= request.script(settings).len(),
        run(TransferView::of(request, settings).advance(), answers).calls == request.script(
            settings,
        ).subrange(
            0,
            run(TransferView::of(request, settings).advance(), answers).calls.len() as int,
        ),
{
    lemma_initial_wf(request, settings);
    lemma_run_follows_script(TransferView::of(request, settings), answers);
}

/// A step that ends the execution ends the run, with no call made.
proof fn lemma_run_ended(step: StepView, answers: Seq<Outcome>)
    requires
        !(step is Configure),
    ensures
        run(step, answers).calls == Seq::<OptView>::empty(),
        step matches StepView::Fail(e) ==> run(step, answers).end
            == End::Failed(e),
        step matches StepView::Perform(body, progress) ==> run(
            step,
            answers,
        ).end == End::Performed(body, progress),
{
}

/// The error that an execution with a rejected target ends with: that of
/// the redirect switch where the engine has rejected it, otherwise the
/// first rejection of a target.
pub open spec fn rejection(t: TransferView, answers: Seq<Outcome>) -> ErrCode {
    if t.redirect && t.issued < t.opening() && answers[t.opening() - 1] is Err {
        answers[t.opening() - 1]->Err_0
    } else if t.deferred is Some {
        t.deferred->0
    } else {
        first_rejection(
            answers,
            if t.issued > t.settings {
                t.issued as int
            } else {
                t.settings as int
            },
            (t.settings + t.targets) as int,
        )->0
    }
}

/// Among answers that hold a rejection, the first rejection is one.
proof fn lemma_first_rejection(answers: Seq<Outcome>, from: int, to: int, k: int)
    requires
        0 <= from <= k < to,
        k < answers.len(),
        answers[k] is Err,
    ensures
        first_rejection(answers, from, to) is Some,
        answers[from] is Ok ==> first_rejection(answers, from, to) == first_rejection(
            answers,
            from + 1,
            to,
        ),
        answers[from] is Err ==> first_rejection(answers, from, to) == Some(
            answers[from]->Err_0,
        ),
    decreases k - from,
{
    if answers[from] is Ok {
        lemma_first_rejection(answers, from + 1, to, k);
    }
}

/// A state in which a target has been rejected, or is going to be.
spec fn target_rejected(t: TransferView, answers: Seq<Outcome>) -> bool {
    t.deferred is Some || exists|k: int|
        t.issued <= k && t.settings <= k < t.settings + t.targets && k < answers.len() && (
        #[trigger] answers[k]) is Err
}

/// With a rejected target the run does not get past the opening calls.
proof fn lemma_run_rejected(t: TransferView, answers: Seq<Outcome>)
    requires
        t.wf(),
        t.issued <= t.opening(),
        target_rejected(t, answers),
        forall|i: int|
            t.issued <= i < t.settings && i < answers.len() ==> (#[trigger] answers[i]) is Ok,
    ensures
        t.issued + run(t.advance(), answers).calls.len() <= t.opening(),
        !(run(t.advance(), answers).end is Performed),
        answers.len() >= t.opening() ==> run(t.advance(), answers).end == End::Failed(
            rejection(t, answers),
        ),
    decreases t.opening() - t.issued,
{
    let r = run(t.advance(), answers);
    if t.issued < t.opening() {
        let next = TransferView { issued: t.issued + 1, ..t };
        assert(t.advance() == StepView::Configure(
            t.script[t.issued as int],
            next,
        ));
        if next.issued <= answers.len() {
            let answer = answers[t.issued as int];
            let rest = run(next.resume(answer), answers);
            assert(r.calls =~= seq![t.script[t.issued as int]] + rest.calls);
            assert(r.end == rest.end);
            if t.issued < t.settings {
                assert(answer is Ok);
                assert(next.absorb(answer) == Ok::<TransferView, ErrCode>(next));
                assert(target_rejected(next, answers)) by {
                    if t.deferred is None {
                        let k = choose|k: int|
                            t.issued <= k && t.settings <= k < t.settings + t.targets && k
                                < answers.len() && (#[trigger] answers[k]) is Err;
                        assert(next.issued <= k && answers[k] is Err);
                    }
                }
                lemma_run_rejected(next, answers);
                assert(rejection(next, answers) == rejection(t, answers));
            } else if t.issued < t.settings + t.targets {
                let after = next.absorb(answer)->Ok_0;
                assert(next.absorb(answer) is Ok);
                assert(target_rejected(after, answers)) by {
                    if t.deferred is None && answer is Ok {
                        let k = choose|k: int|
                            t.issued <= k && t.settings <= k < t.settings + t.targets && k
                                < answers.len() && (#[trigger] answers[k]) is Err;
                        assert(after.issued <= k && answers[k] is Err);
                    }
                }
                lemma_run_rejected(after, answers);
                if t.deferred is None {
                    let k = choose|k: int|
                        t.issued <= k && t.settings <= k < t.settings + t.targets && k
                            < answers.len() && (#[trigger] answers[k]) is Err;
                    lemma_first_rejection(
                        answers,
                        t.issued as int,
                        (t.settings + t.targets) as int,
                        k,
                    );
                }
                assert(answers.len() >= t.opening() ==> rejection(after, answers) == rejection(
                    t,
                    answers,
                ));
            } else {
                assert(t.redirect && t.issued == t.opening() - 1);
                assert(t.deferred is Some);
                match answer {
                    Ok(_) => {
                        assert(next.absorb(answer) == Ok::<TransferView, ErrCode>(next));
                        assert(next.advance() == StepView::Fail(
                            t.deferred->0,
                        ));
                    },
                    Err(e) => {
                        assert(next.absorb(answer) == Err::<TransferView, ErrCode>(e));
                    },
                }
                lemma_run_ended(next.resume(answer), answers);
            }
        } else {
            assert(r.calls =~= seq![t.script[t.issued as int]]);
        }
    } else {
        lemma_run_ended(t.advance(), answers);
    }
}

/// A rejected target ends the execution before the transfer is
/// configured. Where the engine accepts the settings of the session and
/// rejects a target, it is given no call beyond the settings, the targets
/// and the redirect switch: none that resets or hands over headers, gives
/// the request its shape or announces a size; and it is never told to
/// perform the transfer. Once the engine has answered all of those calls,
/// the execution has ended with an error: that of the redirect switch where
/// that was rejected too, otherwise that of the first target that was
/// rejected.
pub proof fn law_rejected_target_ends_early(
    request: RequestView,
    settings: Seq<OptView>,
    answers: Seq<Outcome>,
)
    requires
        forall|i: int| 0 <= i < settings.len() && i < answers.len() ==> (#[trigger] answers[i]) is Ok,
        exists|k: int|
            settings.len() <= k < settings.len() + request.uris.len() && k < answers.len() && (
            #[trigger] answers[k]) is Err,
    ensures
        ({
            let t = TransferView::of(request, settings);
            let r = run(t.advance(), answers);
            &&& r.calls.len() <= t.opening()
            &&& r.calls == (settings + request.target_calls() + request.redirect_calls()).subrange(
                0,
                r.calls.len() as int,
            )
            &&& !(r.end is Performed)
            &&& answers.len() >= t.opening() ==> r.end == End::Failed(rejection(t, answers))
        }),
{
    let t = TransferView::of(request, settings);
    let r = run(t.advance(), answers);
    lemma_initial_wf(request, settings);
    let k = choose|k: int|
        settings.len() <= k < settings.len() + request.uris.len() && k < answers.len() && (
        #[trigger] answers[k]) is Err;
    assert(t.issued <= k && answers[k] is Err);
    assert(target_rejected(t, answers));
    lemma_run_rejected(t, answers);
    lemma_run_follows_script(t, answers);
    assert(r.calls =~= t.script.subrange(0, t.opening() as int).subrange(0, r.calls.len() as int));
}

} // verus!
