use http_handle::{Body, ErrCode, Handle, Opt, Outcome, Step};

/// How a driven execution ended.
#[derive(Debug, PartialEq, Eq)]
enum End {
    Performed(Option<Body>, bool),
    Failed(ErrCode),
}

/// Drives an execution to its end against an engine that answers the call
/// at position `i` with `answer(i, call)`, and records the calls.
fn drive(first: Step, answer: &dyn Fn(usize, &Opt) -> Outcome) -> (Vec<Opt>, End) {
    let mut calls = Vec::new();
    let mut step = first;
    loop {
        match step {
            Step::Configure(opt, transfer) => {
                let outcome = answer(calls.len(), &opt);
                if outcome.is_err() && transfer.awaits_setting() {
                    panic!("the engine rejected a setting of the session");
                }
                calls.push(opt);
                step = transfer.resume(outcome);
            }
            Step::Perform(body, progress) => return (calls, End::Performed(body, progress)),
            Step::Fail(e) => return (calls, End::Failed(e)),
        }
    }
}

fn accept(_: usize, _: &Opt) -> Outcome {
    Ok(())
}

fn line(text: &str) -> Vec<u8> {
    let mut bytes = text.as_bytes().to_vec();
    bytes.push(0);
    bytes
}

fn defaults() -> Vec<Opt> {
    vec![Opt::Timeout(30_000), Opt::ConnectTimeout(30_000)]
}

fn strings(values: &[&str]) -> Vec<String> {
    values.iter().map(|v| v.to_string()).collect()
}

#[test]
fn get_header() {
    let mut h = Handle::new();
    let r = h.get("/foo").header("foo", "bar");
    assert_eq!(r.get_header("foo"), Some(&["bar".to_string()][..]));
}

#[test]
fn get_header_of_an_absent_name_is_none() {
    let mut h = Handle::new();
    let r = h.get("/foo").header("foo", "bar");
    assert_eq!(r.get_header("Foo"), None);
    assert_eq!(r.get_header("fo"), None);
}

#[test]
fn header_appends_in_call_order() {
    let mut h = Handle::new();
    let r = h.get("/").header("Accept", "text/html").header("Accept", "text/plain");
    assert_eq!(r.get_header("Accept"), Some(&strings(&["text/html", "text/plain"])[..]));
}

#[test]
fn header_leaves_other_names_alone() {
    let mut h = Handle::new();
    let r = h.get("/").header("A", "1").header("B", "2").header("A", "3");
    assert_eq!(r.get_header("A"), Some(&strings(&["1", "3"])[..]));
    assert_eq!(r.get_header("B"), Some(&strings(&["2"])[..]));
}

#[test]
fn headers_appends_each_pair_in_order() {
    let mut h = Handle::new();
    let r = h.get("/").header("A", "0").headers(&[("A", "1"), ("B", "2"), ("A", "3")]);
    assert_eq!(r.get_header("A"), Some(&strings(&["0", "1", "3"])[..]));
    assert_eq!(r.get_header("B"), Some(&strings(&["2"])[..]));
    let (calls, _) = drive(r.exec(), &accept);
    assert_eq!(
        calls.last(),
        Some(&Opt::HttpHeader(vec![line("A: 0"), line("A: 1"), line("A: 3"), line("B: 2")]))
    );
}

#[test]
fn content_length_then_chunked_keeps_the_length() {
    let mut h = Handle::new();
    let r = h.put("/f", Body::streamed()).content_length(100).chunked();
    assert_eq!(r.get_header("Content-Length"), Some(&strings(&["100"])[..]));
    assert_eq!(r.get_header("Transfer-Encoding"), None);
}

#[test]
fn chunked_then_content_length_keeps_chunked() {
    let mut h = Handle::new();
    let r = h.put("/f", Body::streamed()).chunked().content_length(100);
    assert_eq!(r.get_header("Transfer-Encoding"), Some(&strings(&["chunked"])[..]));
    assert_eq!(r.get_header("Content-Length"), None);
}

#[test]
fn content_length_twice_keeps_the_first() {
    let mut h = Handle::new();
    let r = h.put("/f", Body::fixed(7)).content_length(7).content_length(9);
    assert_eq!(r.get_header("Content-Length"), Some(&strings(&["7"])[..]));
}

#[test]
fn content_length_is_written_in_decimal() {
    let mut h = Handle::new();
    let r = h.put("/f", Body::streamed()).content_length(0);
    assert_eq!(r.get_header("Content-Length"), Some(&strings(&["0"])[..]));
    let mut h = Handle::new();
    let r = h.put("/f", Body::streamed()).content_length(1_234_567_890);
    assert_eq!(r.get_header("Content-Length"), Some(&strings(&["1234567890"])[..]));
    let mut h = Handle::new();
    let r = h.put("/f", Body::streamed()).content_length(usize::MAX);
    assert_eq!(r.get_header("Content-Length"), Some(&[usize::MAX.to_string()][..]));
}

#[test]
fn unsized_body_goes_chunked() {
    let mut h = Handle::new();
    let (calls, end) = drive(h.post("/up", Body::streamed()).exec(), &accept);
    assert_eq!(
        calls,
        vec![
            Opt::Timeout(30_000),
            Opt::ConnectTimeout(30_000),
            Opt::Url("/up".to_string()),
            Opt::ResetHeaders,
            Opt::Post,
            Opt::HttpHeader(vec![
                line("Transfer-Encoding: chunked"),
                line("Content-Type: application/octet-stream"),
                line("Expect: "),
            ]),
        ]
    );
    assert_eq!(end, End::Performed(Some(Body::streamed()), false));
}

#[test]
fn explicit_length_suppresses_the_size_hint_and_the_chunked_default() {
    let mut h = Handle::new();
    let (calls, _) = drive(h.put("/up", Body::streamed()).content_length(12).exec(), &accept);
    assert_eq!(
        calls[3..],
        [
            Opt::ResetHeaders,
            Opt::Upload,
            Opt::HttpHeader(vec![
                line("Content-Length: 12"),
                line("Content-Type: application/octet-stream"),
                line("Expect: "),
            ]),
        ]
    );
    let mut h = Handle::new();
    let (calls, _) = drive(h.put("/up", Body::fixed(12)).chunked().exec(), &accept);
    assert_eq!(
        calls[3..],
        [
            Opt::ResetHeaders,
            Opt::Upload,
            Opt::HttpHeader(vec![
                line("Transfer-Encoding: chunked"),
                line("Content-Type: application/octet-stream"),
                line("Expect: "),
            ]),
        ]
    );
}

#[test]
fn request_without_body_gains_no_header() {
    let mut h = Handle::new();
    let (calls, end) = drive(h.get("/").exec(), &accept);
    assert_eq!(
        calls,
        vec![
            Opt::Timeout(30_000),
            Opt::ConnectTimeout(30_000),
            Opt::Url("/".to_string()),
            Opt::ResetHeaders,
            Opt::HttpGet,
        ]
    );
    assert_eq!(end, End::Performed(None, false));

    let mut h = Handle::new();
    let (calls, _) = drive(h.get("/").header("X", "1").exec(), &accept);
    assert_eq!(calls.last(), Some(&Opt::HttpHeader(vec![line("X: 1")])));
}

#[test]
fn body_without_content_type_gets_the_default() {
    let mut h = Handle::new();
    let (calls, _) = drive(h.put("/f", Body::fixed(3)).exec(), &accept);
    assert_eq!(
        calls.last(),
        Some(&Opt::HttpHeader(vec![
            line("Content-Type: application/octet-stream"),
            line("Expect: "),
        ]))
    );
}

#[test]
fn content_type_of_the_caller_stands_alone() {
    let mut h = Handle::new();
    let r = h.put("/f", Body::fixed(3)).header("Content-Type", "text/plain");
    let (calls, _) = drive(r.exec(), &accept);
    assert_eq!(
        calls.last(),
        Some(&Opt::HttpHeader(vec![line("Content-Type: text/plain"), line("Expect: ")]))
    );
}

#[test]
fn header_names_are_compared_as_given() {
    let mut h = Handle::new();
    let r = h.put("/f", Body::fixed(3)).header("content-type", "text/plain");
    let (calls, _) = drive(r.exec(), &accept);
    assert_eq!(
        calls.last(),
        Some(&Opt::HttpHeader(vec![
            line("content-type: text/plain"),
            line("Content-Type: application/octet-stream"),
            line("Expect: "),
        ]))
    );
}

#[test]
fn expect_continue_leaves_the_expect_header_out() {
    let mut h = Handle::new();
    let (calls, _) = drive(h.put("/f", Body::fixed(3)).expect_continue().exec(), &accept);
    assert_eq!(
        calls.last(),
        Some(&Opt::HttpHeader(vec![line("Content-Type: application/octet-stream")]))
    );
}

#[test]
fn expect_header_is_empty_without_expect_continue() {
    let mut h = Handle::new();
    let (calls, _) = drive(h.put("/f", Body::fixed(3)).exec(), &accept);
    match calls.last() {
        Some(Opt::HttpHeader(lines)) => assert_eq!(lines[1], b"Expect: \0".to_vec()),
        other => panic!("no header list: {:?}", other),
    }
}

#[test]
fn delete_with_body_uploads_before_the_method_name() {
    let mut h = Handle::new();
    let (calls, _) = drive(h.delete("/x").body(Body::fixed(4)).exec(), &accept);
    assert_eq!(
        calls[3..7],
        [
            Opt::ResetHeaders,
            Opt::Upload,
            Opt::CustomRequest("DELETE".to_string()),
            Opt::InFileSize(4),
        ]
    );
}

#[test]
fn delete_without_body_names_the_method_only() {
    let mut h = Handle::new();
    let (calls, end) = drive(h.delete("/x").exec(), &accept);
    assert_eq!(
        calls[2..],
        [
            Opt::Url("/x".to_string()),
            Opt::ResetHeaders,
            Opt::CustomRequest("DELETE".to_string()),
        ]
    );
    assert!(!calls.contains(&Opt::Upload));
    assert_eq!(end, End::Performed(None, false));
}

#[test]
fn head_expects_no_response_body() {
    let mut h = Handle::new();
    let (calls, _) = drive(h.head("/x").exec(), &accept);
    assert_eq!(calls[3..], [Opt::ResetHeaders, Opt::NoBody]);
}

#[test]
fn put_announces_the_upload_size() {
    let mut h = Handle::new();
    let (calls, end) = drive(h.put("/x", Body::fixed(42)).exec(), &accept);
    assert_eq!(calls[3..6], [Opt::ResetHeaders, Opt::Upload, Opt::InFileSize(42)]);
    assert_eq!(end, End::Performed(Some(Body::fixed(42)), false));
}

#[test]
fn get_with_body_announces_no_size() {
    let mut h = Handle::new();
    let (calls, _) = drive(h.get("/x").body(Body::fixed(42)).exec(), &accept);
    assert_eq!(
        calls[3..],
        [
            Opt::ResetHeaders,
            Opt::HttpGet,
            Opt::HttpHeader(vec![
                line("Content-Type: application/octet-stream"),
                line("Expect: "),
            ]),
        ]
    );
}

#[test]
fn body_replaces_an_earlier_body() {
    let mut h = Handle::new();
    let (calls, end) = drive(h.post("/x", Body::streamed()).body(Body::fixed(9)).exec(), &accept);
    assert_eq!(calls[4..6], [Opt::Post, Opt::PostFieldSize(9)]);
    assert_eq!(end, End::Performed(Some(Body::fixed(9)), false));
}

#[test]
fn second_request_carries_no_header_of_the_first() {
    let mut h = Handle::new();
    let (first, _) = drive(h.get("/a").header("X", "1").exec(), &accept);
    assert_eq!(
        first,
        vec![
            Opt::Timeout(30_000),
            Opt::ConnectTimeout(30_000),
            Opt::Url("/a".to_string()),
            Opt::ResetHeaders,
            Opt::HttpGet,
            Opt::HttpHeader(vec![line("X: 1")]),
        ]
    );
    let (second, end) = drive(h.get("/b").exec(), &accept);
    assert_eq!(second, vec![Opt::Url("/b".to_string()), Opt::ResetHeaders, Opt::HttpGet]);
    assert_eq!(end, End::Performed(None, false));

    // The header list that the session holds after both transfers.
    let mut in_force: Vec<Vec<u8>> = Vec::new();
    for call in first.iter().chain(second.iter()) {
        match call {
            Opt::ResetHeaders => in_force.clear(),
            Opt::HttpHeader(lines) => in_force = lines.clone(),
            _ => {}
        }
    }
    assert!(in_force.is_empty());
}

#[test]
fn rejected_uri_ends_before_the_configuration() {
    let mut h = Handle::new();
    let r = h.post("not a uri", Body::fixed(3)).header("X", "1");
    let reject_url = |_: usize, call: &Opt| match call {
        Opt::Url(_) => Err(ErrCode(3)),
        _ => Ok(()),
    };
    let (calls, end) = drive(r.exec(), &reject_url);
    assert_eq!(calls, vec![
        Opt::Timeout(30_000),
        Opt::ConnectTimeout(30_000),
        Opt::Url("not a uri".to_string()),
    ]);
    assert_eq!(end, End::Failed(ErrCode(3)));
}

#[test]
fn rejected_uri_is_returned_behind_the_redirect_switch() {
    let mut h = Handle::new();
    let r = h.get("not a uri").follow_redirects(true);
    let reject_url = |_: usize, call: &Opt| match call {
        Opt::Url(_) => Err(ErrCode(3)),
        _ => Ok(()),
    };
    let (calls, end) = drive(r.exec(), &reject_url);
    assert_eq!(calls[2..], [Opt::Url("not a uri".to_string()), Opt::FollowLocation]);
    assert_eq!(end, End::Failed(ErrCode(3)));
}

#[test]
fn rejected_redirect_switch_comes_before_a_rejected_uri() {
    let mut h = Handle::new();
    let r = h.get("not a uri").follow_redirects(true);
    let reject = |_: usize, call: &Opt| match call {
        Opt::Url(_) => Err(ErrCode(3)),
        Opt::FollowLocation => Err(ErrCode(48)),
        _ => Ok(()),
    };
    let (calls, end) = drive(r.exec(), &reject);
    assert_eq!(calls.len(), 4);
    assert_eq!(end, End::Failed(ErrCode(48)));
}

#[test]
fn first_rejected_uri_wins() {
    let mut h = Handle::new();
    let r = h.get("one").uri("two").uri("three");
    let reject = |at: usize, call: &Opt| match call {
        Opt::Url(_) if at >= 3 => Err(ErrCode(at as i32)),
        _ => Ok(()),
    };
    let (calls, end) = drive(r.exec(), &reject);
    assert_eq!(
        calls[2..],
        [
            Opt::Url("one".to_string()),
            Opt::Url("two".to_string()),
            Opt::Url("three".to_string()),
        ]
    );
    assert_eq!(end, End::Failed(ErrCode(3)));
}

#[test]
fn rejected_configuration_call_ends_at_once() {
    let mut h = Handle::new();
    let r = h.post("/x", Body::fixed(3));
    let reject = |_: usize, call: &Opt| match call {
        Opt::Post => Err(ErrCode(4)),
        _ => Ok(()),
    };
    let (calls, end) = drive(r.exec(), &reject);
    assert_eq!(calls.last(), Some(&Opt::Post));
    assert_eq!(calls.len(), 5);
    assert_eq!(end, End::Failed(ErrCode(4)));

    let mut h = Handle::new();
    let r = h.post("/x", Body::fixed(3));
    let reject = |_: usize, call: &Opt| match call {
        Opt::HttpHeader(_) => Err(ErrCode(27)),
        _ => Ok(()),
    };
    let (_, end) = drive(r.exec(), &reject);
    assert_eq!(end, End::Failed(ErrCode(27)));
}

#[test]
fn follow_redirects_switches_before_the_reset() {
    let mut h = Handle::new();
    let (calls, _) = drive(h.get("/x").follow_redirects(true).exec(), &accept);
    assert_eq!(
        calls[2..],
        [Opt::Url("/x".to_string()), Opt::FollowLocation, Opt::ResetHeaders, Opt::HttpGet]
    );
    let mut h = Handle::new();
    let (calls, _) =
        drive(h.get("/x").follow_redirects(true).follow_redirects(false).exec(), &accept);
    assert!(!calls.contains(&Opt::FollowLocation));
}

#[test]
fn post_with_known_length_end_to_end() {
    let body_bytes = b"{\"name\":\"x\"}";
    let mut h = Handle::new();
    let r = h.post("/items", Body::fixed(body_bytes.len())).header("X-Trace", "abc");
    let (calls, end) = drive(r.exec(), &accept);
    assert_eq!(
        calls,
        vec![
            Opt::Timeout(30_000),
            Opt::ConnectTimeout(30_000),
            Opt::Url("/items".to_string()),
            Opt::ResetHeaders,
            Opt::Post,
            Opt::PostFieldSize(12),
            Opt::HttpHeader(vec![
                b"X-Trace: abc\0".to_vec(),
                b"Content-Type: application/octet-stream\0".to_vec(),
                b"Expect: \0".to_vec(),
            ]),
        ]
    );
    assert_eq!(end, End::Performed(Some(Body::fixed(12)), false));
}

#[test]
fn progress_goes_with_the_transfer() {
    let mut h = Handle::new();
    let (_, end) = drive(h.get("/x").progress().exec(), &accept);
    assert_eq!(end, End::Performed(None, true));
}

#[test]
fn new_handle_has_the_default_timeouts() {
    let mut h = Handle::new();
    assert_eq!(h.timeout_ms(), 30_000);
    assert_eq!(h.connect_timeout_ms(), 30_000);
    let (calls, _) = drive(h.get("/").exec(), &accept);
    assert_eq!(calls[..2], defaults()[..]);
}

#[test]
fn timeouts_are_delivered_once_in_call_order() {
    let mut h = Handle::new().timeout(5_000).connect_timeout(250);
    assert_eq!(h.timeout_ms(), 5_000);
    assert_eq!(h.connect_timeout_ms(), 250);
    let (calls, _) = drive(h.get("/").exec(), &accept);
    assert_eq!(
        calls[..4],
        [
            Opt::Timeout(30_000),
            Opt::ConnectTimeout(30_000),
            Opt::Timeout(5_000),
            Opt::ConnectTimeout(250),
        ]
    );
    let (calls, _) = drive(h.get("/").exec(), &accept);
    assert_eq!(calls[0], Opt::Url("/".to_string()));
    assert_eq!(h.timeout_ms(), 5_000);
}

#[test]
fn dropped_request_leaves_the_settings_with_the_handle() {
    let mut h = Handle::new();
    {
        let r = h.get("/never").header("X", "1");
        assert_eq!(r.get_header("X"), Some(&strings(&["1"])[..]));
    }
    let (calls, _) = drive(h.get("/").exec(), &accept);
    assert_eq!(
        calls,
        vec![
            Opt::Timeout(30_000),
            Opt::ConnectTimeout(30_000),
            Opt::Url("/".to_string()),
            Opt::ResetHeaders,
            Opt::HttpGet,
        ]
    );
}

#[test]
fn transfer_knows_when_a_setting_is_awaited() {
    let mut h = Handle::new();
    let mut step = h.get("/").exec();
    let mut awaited = Vec::new();
    loop {
        match step {
            Step::Configure(_, transfer) => {
                awaited.push(transfer.awaits_setting());
                assert_eq!(transfer.handle().timeout_ms(), 30_000);
                step = transfer.resume(Ok(()));
            }
            _ => break,
        }
    }
    assert_eq!(awaited, vec![true, true, false, false, false]);
}

#[test]
fn factories_fix_the_method() {
    let mut h = Handle::new();
    assert_eq!(h.get("/").method(), http_handle::Method::Get);
    assert_eq!(h.head("/").method(), http_handle::Method::Head);
    assert_eq!(h.post("/", Body::streamed()).method(), http_handle::Method::Post);
    assert_eq!(h.put("/", Body::streamed()).method(), http_handle::Method::Put);
    assert_eq!(h.delete("/").method(), http_handle::Method::Delete);
}

#[test]
fn take_pending_hands_the_settings_over_once() {
    let mut h = Handle::new().timeout(1);
    let due: Vec<Opt> = h.take_pending().into_iter().collect();
    assert_eq!(due, vec![Opt::Timeout(30_000), Opt::ConnectTimeout(30_000), Opt::Timeout(1)]);
    assert!(h.take_pending().is_empty());
    assert_eq!(h.timeout_ms(), 1);
    let (calls, _) = drive(h.get("/").exec(), &accept);
    assert_eq!(calls[0], Opt::Url("/".to_string()));
}
