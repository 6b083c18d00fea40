//! The failover of a proxy job.

use bytes::Bytes;
use llm_hub::config::{Backend, Config, Resolver};
use llm_hub::http::header_to_str;
use llm_hub::proxy::{classify_status, Action, Class, Event, Run, UpstreamRequest};
use llm_hub::worker::{ProxyEvent, ProxyJob};
use std::sync::Arc;

fn backend(name: &str, url: &str, keys: &[&str]) -> Backend {
    Backend {
        name: name.into(),
        base_url: url.into(),
        keys: keys.iter().map(|s| (*s).into()).collect(),
        models: vec!["m".into()],
    }
}

fn resolver() -> Resolver {
    Resolver::new(Arc::new(Config {
        backends: vec![
            backend("first", "https://a/", &["a0", "a1"]),
            backend("second", "https://b", &["b0"]),
        ],
    }))
}

fn job(model: &str) -> ProxyJob {
    ProxyJob {
        path: "/v1/chat/completions".to_string(),
        body: Bytes::from_static(b"{\"model\":\"m\"}"),
        model: model.to_string(),
    }
}

fn posted(action: Action) -> UpstreamRequest {
    match action {
        Action::Post(request) => request,
        _ => panic!("expected a request"),
    }
}

fn failed(action: Action) -> String {
    match action {
        Action::Send(ProxyEvent::Failed(message)) => message,
        _ => panic!("expected a failure"),
    }
}

fn response(status: u16) -> Event {
    Event::Response {
        status,
        content_type: Some(b"text/plain".to_vec()),
    }
}

#[test]
fn classify_status_maps_all_categories() {
    // Success: 2xx.
    assert_eq!(classify_status(200), Class::Success);
    assert_eq!(classify_status(204), Class::Success);
    assert_eq!(classify_status(299), Class::Success);
    // Key-exhausted.
    for s in [401, 402, 403, 429] {
        assert_eq!(classify_status(s), Class::KeyExhausted, "status {s}");
    }
    // Backend-unreachable: 5xx.
    for s in [500, 502, 503, 599] {
        assert_eq!(classify_status(s), Class::BackendUnreachable, "status {s}");
    }
    // Client error: any other 4xx.
    for s in [400, 404, 405, 408, 413, 422] {
        assert_eq!(classify_status(s), Class::ClientError, "status {s}");
    }
    // Boundary: 300/399 are "other", neither 2xx nor classified.
    assert_eq!(classify_status(300), Class::ClientError);
    assert_eq!(classify_status(399), Class::ClientError);
}

#[test]
fn classes_of_unusual_statuses() {
    assert_eq!(classify_status(0), Class::ClientError);
    assert_eq!(classify_status(199), Class::ClientError);
    assert_eq!(classify_status(499), Class::ClientError);
    assert_eq!(classify_status(600), Class::BackendUnreachable);
    assert_eq!(classify_status(u16::MAX), Class::BackendUnreachable);
}

#[test]
fn request_carries_path_key_and_body() {
    let r = resolver();
    let (_, action) = Run::start(job("m"), &r);
    let request = posted(action);
    assert_eq!(request.url, "https://a/v1/chat/completions");
    assert_eq!(request.authorization, "Bearer a0");
    assert_eq!(request.content_type, "application/json");
    assert_eq!(request.body.as_ref(), b"{\"model\":\"m\"}");
}

#[test]
fn unserved_model_fails_at_once() {
    let mut r = resolver();
    let (mut run, action) = Run::start(job("nope"), &r);
    assert_eq!(failed(action), "no backend available for model 'nope'");
    assert!(matches!(run.step(&mut r, Event::Delivered), Action::Stop));
}

#[test]
fn job_without_backends_fails_at_once() {
    let (_, action) = Run::start_with(job("m"), Vec::new());
    assert_eq!(failed(action), "no backend available for model 'm'");
}

#[test]
fn success_is_streamed_to_the_end() {
    let mut r = resolver();
    let (mut run, action) = Run::start(job("m"), &r);
    posted(action);
    match run.step(&mut r, response(201)) {
        Action::Send(ProxyEvent::Respond { status, content_type }) => {
            assert_eq!(status, 201);
            assert_eq!(content_type, "text/plain");
        }
        _ => panic!("expected a status"),
    }
    assert!(matches!(run.step(&mut r, Event::Delivered), Action::ReadChunk));
    for part in [&b"one"[..], &b"two"[..]] {
        match run.step(&mut r, Event::Chunk(Bytes::copy_from_slice(part))) {
            Action::Send(ProxyEvent::Chunk(bytes)) => assert_eq!(bytes.as_ref(), part),
            _ => panic!("expected a part of the body"),
        }
        assert!(matches!(run.step(&mut r, Event::Delivered), Action::ReadChunk));
    }
    assert!(matches!(run.step(&mut r, Event::StreamEnd), Action::Stop));
}

#[test]
fn broken_stream_ends_without_a_retry() {
    let mut r = resolver();
    let (mut run, _) = Run::start(job("m"), &r);
    run.step(&mut r, response(200));
    run.step(&mut r, Event::Delivered);
    assert!(matches!(run.step(&mut r, Event::StreamError), Action::Stop));
    assert_eq!(r.resolve("m").len(), 2);
}

#[test]
fn client_that_is_gone_ends_the_job() {
    let mut r = resolver();
    let (mut run, _) = Run::start(job("m"), &r);
    run.step(&mut r, response(200));
    assert!(matches!(run.step(&mut r, Event::Disconnected), Action::Stop));

    let (mut run, _) = Run::start(job("m"), &r);
    run.step(&mut r, response(200));
    run.step(&mut r, Event::Delivered);
    run.step(&mut r, Event::Chunk(Bytes::from_static(b"x")));
    assert!(matches!(run.step(&mut r, Event::Disconnected), Action::Stop));

    let (mut run, _) = Run::start(job("m"), &r);
    run.step(&mut r, response(404));
    run.step(&mut r, Event::Body(Bytes::from_static(b"gone")));
    assert!(matches!(run.step(&mut r, Event::Disconnected), Action::Stop));
}

#[test]
fn content_type_defaults_to_an_event_stream() {
    for header in [None, Some(vec![0xff, b'a']), Some(vec![b'a', 0x7f])] {
        let mut r = resolver();
        let (mut run, _) = Run::start(job("m"), &r);
        let event = Event::Response {
            status: 200,
            content_type: header,
        };
        match run.step(&mut r, event) {
            Action::Send(ProxyEvent::Respond { content_type, .. }) => {
                assert_eq!(content_type, "text/event-stream");
            }
            _ => panic!("expected a status"),
        }
    }
}

#[test]
fn header_values_are_read_as_the_http_crate_reads_them() {
    for b in 0..=255u8 {
        let bytes = vec![b'a', b];
        let mine = header_to_str(&bytes);
        if let Ok(value) = axum::http::HeaderValue::from_bytes(&bytes) {
            assert_eq!(mine, value.to_str().ok().map(str::to_string), "byte {b}");
        }
    }
    assert_eq!(header_to_str(&Vec::new()), Some(String::new()));
}

#[test]
fn spent_key_hands_over_to_the_next_key() {
    for status in [401, 402, 403, 429] {
        let mut r = resolver();
        let (mut run, _) = Run::start(job("m"), &r);
        let request = posted(run.step(&mut r, response(status)));
        assert_eq!(request.url, "https://a/v1/chat/completions");
        assert_eq!(request.authorization, "Bearer a1");
        // The key is set aside, and the other one is preferred.
        let keys: Vec<String> = r.resolve("m")[0].keys.iter().map(|k| k.key.clone()).collect();
        assert_eq!(keys, vec!["a1"]);
    }
}

#[test]
fn last_spent_key_hands_over_to_the_next_backend() {
    let mut r = resolver();
    let (mut run, _) = Run::start(job("m"), &r);
    run.step(&mut r, response(429));
    let request = posted(run.step(&mut r, response(429)));
    assert_eq!(request.url, "https://b/v1/chat/completions");
    assert_eq!(request.authorization, "Bearer b0");
}

#[test]
fn unreachable_backend_is_skipped_with_its_keys() {
    for event in [response(500), response(503), Event::TransportError] {
        let mut r = resolver();
        let (mut run, _) = Run::start(job("m"), &r);
        let request = posted(run.step(&mut r, event));
        assert_eq!(request.url, "https://b/v1/chat/completions");
        let groups = r.resolve("m");
        assert_eq!(groups.len(), 1);
        assert_eq!(groups[0].backend_name, "second");
    }
}

#[test]
fn failure_gives_one_reason_for_each_backend() {
    let mut r = resolver();
    let (mut run, _) = Run::start(job("m"), &r);
    run.step(&mut r, response(429));
    run.step(&mut r, response(401));
    let message = failed(run.step(&mut r, Event::TransportError));
    assert_eq!(
        message,
        "all configured backends failed for model 'm': first: all keys exhausted; second: unreachable"
    );
    assert!(matches!(run.step(&mut r, Event::Delivered), Action::Stop));
}

#[test]
fn unreachable_reason_does_not_count_the_other_keys() {
    let mut r = resolver();
    let (mut run, _) = Run::start(job("m"), &r);
    run.step(&mut r, response(429));
    run.step(&mut r, response(502));
    let message = failed(run.step(&mut r, response(403)));
    assert_eq!(
        message,
        "all configured backends failed for model 'm': first: unreachable; second: all keys exhausted"
    );
}

#[test]
fn client_error_is_passed_on_as_it_came() {
    let mut r = resolver();
    let (mut run, _) = Run::start(job("m"), &r);
    assert!(matches!(run.step(&mut r, response(422)), Action::ReadBody));
    // The body goes through byte by byte, also where it is not UTF-8.
    let body = Bytes::from_static(b"{\"error\":\"\xff\xfe\"}");
    match run.step(&mut r, Event::Body(body.clone())) {
        Action::Send(ProxyEvent::Respond { status, content_type }) => {
            assert_eq!(status, 422);
            assert_eq!(content_type, "application/json");
        }
        _ => panic!("expected a status"),
    }
    match run.step(&mut r, Event::Delivered) {
        Action::Send(ProxyEvent::Chunk(bytes)) => {
            assert_eq!(bytes, body);
        }
        _ => panic!("expected the body"),
    }
    assert!(matches!(run.step(&mut r, Event::Delivered), Action::Stop));
    // Neither the key nor the backend is blamed.
    let groups = r.resolve("m");
    assert_eq!(groups.len(), 2);
    assert_eq!(groups[0].keys[0].key, "a0");
}

#[test]
fn success_with_the_second_key_keeps_it_preferred() {
    let mut r = resolver();
    let (mut run, _) = Run::start(job("m"), &r);
    run.step(&mut r, response(429));
    run.step(&mut r, response(200));
    let (_, action) = Run::start(job("m"), &r);
    assert_eq!(posted(action).authorization, "Bearer a1");
}

#[test]
fn each_key_is_tried_at_most_once() {
    let mut r = resolver();
    let (mut run, mut action) = Run::start(job("m"), &r);
    let mut tried = Vec::new();
    while let Action::Post(request) = action {
        tried.push(request.authorization);
        action = run.step(&mut r, response(429));
    }
    assert_eq!(tried, vec!["Bearer a0", "Bearer a1", "Bearer b0"]);
}

#[test]
fn no_request_goes_out_once_the_client_has_a_status() {
    let mut r = resolver();
    let (mut run, _) = Run::start(job("m"), &r);
    run.step(&mut r, response(200));
    assert!(matches!(run.step(&mut r, response(500)), Action::Stop));
    assert!(matches!(run.step(&mut r, Event::TransportError), Action::Stop));
    assert_eq!(r.resolve("m").len(), 2);
}

#[test]
fn steps_take_the_time_that_they_are_given() {
    let mut r = resolver();
    let (mut run, _) = Run::start(job("m"), &r);
    run.step_at(&mut r, response(500), 1_000_000_000);
    assert_eq!(r.resolve_at("m", 10_999_999_999).len(), 1);
    assert_eq!(r.resolve_at("m", 11_000_000_000).len(), 2);
}

#[test]
fn requests_go_to_backends_that_serve_the_model() {
    let mut other = backend("other", "https://o", &["o0"]);
    other.models = vec!["n".to_string()];
    let mut r = Resolver::new(Arc::new(Config {
        backends: vec![
            other,
            backend("first", "https://a", &["", "a0"]),
            backend("bare", "https://c", &[" "]),
            backend("second", "https://b//", &["b0"]),
        ],
    }));
    let (mut run, mut action) = Run::start(job("m"), &r);
    let mut seen = Vec::new();
    while let Action::Post(request) = action {
        seen.push((request.url, request.authorization));
        action = run.step(&mut r, Event::TransportError);
    }
    let path = "/v1/chat/completions";
    assert_eq!(
        seen,
        vec![
            (format!("https://a{path}"), "Bearer a0".to_string()),
            (format!("https://b{path}"), "Bearer b0".to_string()),
        ]
    );
}

#[test]
fn success_sticks_to_its_key() {
    let second: u128 = 1_000_000_000;
    let mut r = Resolver::new(Arc::new(Config {
        backends: vec![backend("b0", "https://x", &["k0", "k1", "k2"])],
    }));
    r.mark_key_exhausted_at(0, 1, 0);
    r.mark_key_exhausted_at(0, 0, 0);
    // Key 1 is preferred but set aside, so key 2 is the one to succeed.
    let groups = r.resolve_at("m", second);
    let (mut run, action) = Run::start_with(job("m"), groups);
    assert_eq!(posted(action).authorization, "Bearer k2");
    run.step_at(&mut r, response(200), second);

    // All keys are back, and the one that succeeded is still the first.
    let groups = r.resolve_at("m", 61 * second);
    assert_eq!(groups[0].keys.len(), 3);
    let (mut run, action) = Run::start_with(job("m"), groups.clone());
    assert_eq!(posted(action).authorization, "Bearer k2");
    run.step_at(&mut r, response(503), 61 * second);
    assert_eq!(r.resolve_at("m", 72 * second)[0].keys[0].key, "k2");

    // Until it signals exhaustion.
    let (mut run, _) = Run::start_with(job("m"), groups);
    run.step_at(&mut r, response(429), 72 * second);
    assert_eq!(r.resolve_at("m", 73 * second)[0].keys[0].key, "k0");
}

#[test]
fn job_that_is_over_has_sent_one_answer_or_one_failure() {
    for statuses in [vec![429, 500, 503], vec![429, 429, 401], vec![500, 404], vec![403, 200]] {
        let mut r = resolver();
        let (mut run, mut action) = Run::start(job("m"), &r);
        let mut left = statuses.clone().into_iter();
        let mut statuses_sent = 0;
        let mut failures_sent = 0;
        loop {
            let event = match action {
                Action::Post(_) => response(left.next().unwrap_or(500)),
                Action::ReadBody => Event::Body(Bytes::from_static(b"no")),
                Action::Send(ProxyEvent::Respond { .. }) => {
                    statuses_sent += 1;
                    Event::Delivered
                }
                Action::Send(ProxyEvent::Failed(_)) => {
                    failures_sent += 1;
                    Event::Delivered
                }
                Action::Send(ProxyEvent::Chunk(_)) => Event::Delivered,
                Action::ReadChunk => Event::StreamEnd,
                Action::Stop => break,
            };
            action = run.step(&mut r, event);
        }
        let answered = statuses.contains(&404) || statuses.contains(&200);
        assert_eq!((statuses_sent, failures_sent), if answered { (1, 0) } else { (0, 1) });
    }
}
