//! Requests, responses and lists of models.

use bytes::Bytes;
use llm_hub::catalog::{listed_ids, offered, parse_model_ids};
use llm_hub::config::{Backend, Config};
use llm_hub::fetch::{Fetch, FetchAction, FetchEvent};
use llm_hub::http::status_from_u16;
use llm_hub::json::{error_body, parse_bytes, parse_text, Json, Member};
use llm_hub::server;
use llm_hub::server::{Opening, Reply};
use llm_hub::worker::ProxyEvent;

fn backend(name: &str, models: &[&str]) -> Backend {
    Backend {
        name: name.into(),
        base_url: "https://x".into(),
        keys: vec!["k".into()],
        models: models.iter().map(|s| (*s).into()).collect(),
    }
}

fn error_of(body: &Json) -> String {
    body.text_at("error").expect("an error message").clone()
}

fn whole(opening: Opening) -> Reply {
    match opening {
        Opening::Whole(reply) => reply,
        Opening::Stream { .. } => panic!("expected a complete response"),
    }
}

fn asked(action: FetchAction) -> (String, String) {
    match action {
        FetchAction::Get { url, key } => (url, key),
        _ => panic!("expected a request"),
    }
}

fn outcome(action: FetchAction) -> Result<Vec<String>, String> {
    match action {
        FetchAction::Finish(outcome) => outcome,
        _ => panic!("expected the outcome"),
    }
}

#[test]
fn parse_model_ids_dedupes_and_drops_empty() {
    let body = r#"{"object":"list","data":[{"id":"gpt-4o"},{"id":"gpt-4o"},{"id":""},{"id":"text-embedding-3-small"}]}"#;
    let ids = parse_model_ids(body);
    assert_eq!(
        ids,
        vec!["gpt-4o".to_string(), "text-embedding-3-small".to_string()]
    );
}

#[test]
fn parse_model_ids_malformed_json_is_empty() {
    assert_eq!(parse_model_ids("not json"), Vec::<String>::new());
    assert_eq!(parse_model_ids("{ broken"), Vec::<String>::new());
    assert_eq!(parse_model_ids(""), Vec::<String>::new());
}

#[test]
fn parse_model_ids_missing_data_is_empty() {
    assert_eq!(
        parse_model_ids(r#"{"object":"list"}"#),
        Vec::<String>::new()
    );
    assert_eq!(
        parse_model_ids(r#"{"data":"not-an-array"}"#),
        Vec::<String>::new()
    );
    assert_eq!(parse_model_ids(r#"{"data":[]}"#), Vec::<String>::new());
}

#[test]
fn parse_model_ids_keeps_first_occurrence_order() {
    let body = r#"{"data":[{"id":"b"},{"id":"a"},{"id":"b"},{"id":"c"},{"id":"a"}]}"#;
    assert_eq!(
        parse_model_ids(body),
        vec!["b".to_string(), "a".to_string(), "c".to_string()]
    );
}

#[test]
fn parse_model_ids_skips_entries_without_a_text_id() {
    let body = r#"{"data":[{"id":7},{},"x",null,[1],{"id":null},{"id":"ok","id2":true}]}"#;
    assert_eq!(parse_model_ids(body), vec!["ok".to_string()]);
    assert_eq!(parse_model_ids("[{\"id\":\"a\"}]"), Vec::<String>::new());
    assert_eq!(parse_model_ids("3.5"), Vec::<String>::new());
}

#[test]
fn listed_ids_of_a_value() {
    let entry = |id: &str| {
        Json::Object(vec![Member {
            name: "id".to_string(),
            value: Json::Text(id.to_string()),
        }])
    };
    let document = Json::Object(vec![Member {
        name: "data".to_string(),
        value: Json::Array(vec![entry("x"), Json::Bool(true), entry("y"), entry("x")]),
    }]);
    assert_eq!(listed_ids(&document), vec!["x", "y"]);
    assert!(listed_ids(&Json::Null).is_empty());
}

#[test]
fn status_from_u16_maps_known_and_falls_back() {
    assert_eq!(status_from_u16(200), axum::http::StatusCode::OK.as_u16());
    assert_eq!(status_from_u16(404), axum::http::StatusCode::NOT_FOUND.as_u16());
    // Any code of three digits is accepted.
    assert_eq!(status_from_u16(999), 999);
    // Codes out of range fall back to 502 Bad Gateway.
    assert_eq!(status_from_u16(99), axum::http::StatusCode::BAD_GATEWAY.as_u16());
    assert_eq!(status_from_u16(1000), axum::http::StatusCode::BAD_GATEWAY.as_u16());
}

#[test]
fn status_range_is_that_of_the_http_crate() {
    for code in 0..=u16::MAX {
        let expected = match axum::http::StatusCode::from_u16(code) {
            Ok(status) => status.as_u16(),
            Err(_) => 502,
        };
        assert_eq!(status_from_u16(code), expected);
    }
}

#[test]
fn request_becomes_a_job() {
    let body = Bytes::from_static(b" {\"x\":1,\"model\":\"deepseek-chat\",\"stream\":true} ");
    match server::proxy("/v1/chat/completions".to_string(), Ok(body.clone())) {
        Ok(job) => {
            assert_eq!(job.path, "/v1/chat/completions");
            assert_eq!(job.body, body);
            assert_eq!(job.model, "deepseek-chat");
        }
        Err(_) => panic!("expected a job"),
    }
}

#[test]
fn request_without_a_model_is_refused() {
    for body in ["{}", "{\"model\":7}", "[\"model\"]", "\"model\"", "{\"Model\":\"m\"}"] {
        match server::proxy("/v1/x".to_string(), Ok(Bytes::copy_from_slice(body.as_bytes()))) {
            Ok(_) => panic!("expected a refusal of {body}"),
            Err(reply) => {
                assert_eq!(reply.status, 400);
                assert_eq!(error_of(&reply.body), "missing 'model' field");
            }
        }
    }
}

#[test]
fn request_that_is_not_json_is_refused() {
    let body = Bytes::from_static(b"{ broken");
    let expected = serde_json::from_slice::<serde_json::Value>(&body)
        .expect_err("not JSON")
        .to_string();
    match server::proxy("/v1/x".to_string(), Ok(body)) {
        Ok(_) => panic!("expected a refusal"),
        Err(reply) => {
            assert_eq!(reply.status, 400);
            assert_eq!(error_of(&reply.body), format!("invalid JSON body: {expected}"));
        }
    }
}

#[test]
fn request_that_cannot_be_read_is_refused() {
    match server::proxy("/v1/x".to_string(), Err("length limit exceeded".to_string())) {
        Ok(_) => panic!("expected a refusal"),
        Err(reply) => {
            assert_eq!(reply.status, 400);
            assert_eq!(
                error_of(&reply.body),
                "failed to read request body: length limit exceeded"
            );
        }
    }
}

#[test]
fn parsed_request_is_decided_on_its_value() {
    let value = Json::Object(vec![Member {
        name: "model".to_string(),
        value: Json::Text("m".to_string()),
    }]);
    match server::proxy_parsed("/p".to_string(), Bytes::from_static(b"raw"), Ok(value)) {
        Ok(job) => {
            assert_eq!(job.body.as_ref(), b"raw");
            assert_eq!(job.model, "m");
        }
        Err(_) => panic!("expected a job"),
    }
    match server::proxy_parsed("/p".to_string(), Bytes::new(), Err("why".to_string())) {
        Ok(_) => panic!("expected a refusal"),
        Err(reply) => assert_eq!(error_of(&reply.body), "invalid JSON body: why"),
    }
}

#[test]
fn first_event_opens_the_response() {
    let first = ProxyEvent::Respond {
        status: 207,
        content_type: "text/plain".to_string(),
    };
    match server::translate_response(Some(first)) {
        Opening::Stream { status, content_type } => {
            assert_eq!(status, 207);
            assert_eq!(content_type, "text/plain");
        }
        Opening::Whole(_) => panic!("expected a stream"),
    }
    let odd = ProxyEvent::Respond {
        status: 42,
        content_type: String::new(),
    };
    match server::translate_response(Some(odd)) {
        Opening::Stream { status, .. } => assert_eq!(status, 502),
        Opening::Whole(_) => panic!("expected a stream"),
    }
}

#[test]
fn failure_is_answered_with_502() {
    let reply = whole(server::translate_response(Some(ProxyEvent::Failed("why".to_string()))));
    assert_eq!(reply.status, 502);
    assert_eq!(error_of(&reply.body), "why");
}

#[test]
fn silent_worker_is_answered_with_502() {
    for first in [None, Some(ProxyEvent::Chunk(Bytes::from_static(b"early")))] {
        let reply = whole(server::translate_response(first));
        assert_eq!(reply.status, 502);
        assert_eq!(error_of(&reply.body), "proxy worker closed unexpectedly");
    }
}

#[test]
fn only_chunks_are_parts_of_the_body() {
    let part = Bytes::from_static(b"part");
    assert_eq!(server::body_part(ProxyEvent::Chunk(part.clone())), Some(part));
    assert_eq!(server::body_part(ProxyEvent::Failed("x".to_string())), None);
}

#[test]
fn request_bodies_are_limited_to_16_mib() {
    assert_eq!(server::MAX_BODY_BYTES, 16 * 1024 * 1024);
}

#[test]
fn replies_carry_their_status_and_message() {
    let reply = server::bad_request("a".to_string());
    assert_eq!((reply.status, error_of(&reply.body).as_str()), (400, "a"));
    let reply = server::internal_error("b".to_string());
    assert_eq!((reply.status, error_of(&reply.body).as_str()), (500, "b"));
    let reply = server::unbuildable("c");
    assert_eq!(
        (reply.status, error_of(&reply.body).as_str()),
        (500, "failed to build response: c")
    );
    let reply = server::worker_unavailable();
    assert_eq!(
        (reply.status, error_of(&reply.body).as_str()),
        (503, "proxy worker is not available")
    );
    assert_eq!(server::health(), "llm-hub ok");
}

#[test]
fn error_body_has_one_member() {
    match error_body("e".to_string()) {
        Json::Object(fields) => {
            assert_eq!(fields.len(), 1);
            assert_eq!(fields[0].name, "error");
        }
        _ => panic!("expected an object"),
    }
}

#[test]
fn models_are_the_union_under_their_first_backend() {
    let config = Config {
        backends: vec![backend("a", &["x", "y", "x"]), backend("b", &["y", "z"])],
    };
    let entries = offered(&config);
    let shown: Vec<(&str, &str)> = entries
        .iter()
        .map(|e| (e.id.as_str(), e.owned_by.as_str()))
        .collect();
    assert_eq!(shown, vec![("x", "a"), ("y", "a"), ("z", "b")]);

    let document = server::models(&config);
    assert_eq!(document.text_at("object").map(String::as_str), Some("list"));
    assert_eq!(listed_ids(&document), vec!["x", "y", "z"]);
    let data = document.get("data").and_then(|d| d.as_array()).expect("data");
    assert_eq!(data.len(), 3);
    assert_eq!(data[1].text_at("object").map(String::as_str), Some("model"));
    assert_eq!(data[1].text_at("owned_by").map(String::as_str), Some("a"));
    assert_eq!(data[2].text_at("owned_by").map(String::as_str), Some("b"));
}

#[test]
fn empty_configuration_offers_no_models() {
    let document = server::models(&Config::default());
    let data = document.get("data").and_then(|d| d.as_array()).expect("data");
    assert!(data.is_empty());
}

#[test]
fn documents_are_parsed_whole() {
    let text = r#"{"b":[null,true,-1.5e3,{"x":"模型"},[]],"a":7}"#;
    for parsed in [parse_text(text), parse_bytes(text.as_bytes())] {
        let document = parsed.expect("a document");
        assert!(matches!(document.get("a"), Some(Json::Number(n)) if n == "7"));
        let items = document.get("b").and_then(|b| b.as_array()).expect("an array");
        assert_eq!(items.len(), 5);
        assert!(matches!(items[0], Json::Null));
        assert!(matches!(items[1], Json::Bool(true)));
        assert!(matches!(&items[2], Json::Number(n) if n == "-1500.0"));
        assert_eq!(items[3].text_at("x").map(String::as_str), Some("模型"));
        assert!(matches!(&items[4], Json::Array(inner) if inner.is_empty()));
        match document {
            Json::Object(fields) => assert_eq!(fields.len(), 2),
            _ => panic!("expected an object"),
        }
    }
}

#[test]
fn parse_errors_carry_the_message_of_the_parser() {
    for text in ["", "{", "[1,]", "nul"] {
        let expected = serde_json::from_str::<serde_json::Value>(text)
            .expect_err("not JSON")
            .to_string();
        match parse_text(text) {
            Ok(_) => panic!("expected an error"),
            Err(message) => assert_eq!(message, expected),
        }
        match parse_bytes(text.as_bytes()) {
            Ok(_) => panic!("expected an error"),
            Err(message) => assert_eq!(message, expected),
        }
    }
    assert!(parse_bytes(&[b'"', 0xff, b'"']).is_err());
}

#[test]
fn members_are_found_by_name() {
    let value = Json::Object(vec![
        Member {
            name: "a".to_string(),
            value: Json::Number("1".to_string()),
        },
        Member {
            name: "b".to_string(),
            value: Json::Text("t".to_string()),
        },
    ]);
    assert!(matches!(value.get("a"), Some(Json::Number(_))));
    assert!(value.get("c").is_none());
    assert!(value.text_at("a").is_none());
    assert_eq!(value.text_at("b").map(String::as_str), Some("t"));
    assert!(value.as_array().is_none());
    assert!(Json::Null.get("a").is_none());
    assert!(Json::Bool(false).as_str().is_none());
}

#[test]
fn fetch_asks_the_first_address() {
    let (mut fetch, action) = Fetch::start("http://h//", "test-key");
    assert_eq!(
        asked(action),
        ("http://h/v1/models".to_string(), "test-key".to_string())
    );
    assert!(matches!(fetch.step(FetchEvent::Status(200)), FetchAction::ReadText));
    let body = r#"{"object":"list","data":[{"id":"gpt-4o"},{"id":"text-embedding-3-small"}]}"#;
    let models = outcome(fetch.step(FetchEvent::Text(body.to_string())));
    assert_eq!(
        models,
        Ok(vec!["gpt-4o".to_string(), "text-embedding-3-small".to_string()])
    );
}

#[test]
fn fetch_falls_back_to_the_second_address() {
    let failures = [
        FetchEvent::Status(404),
        FetchEvent::Status(302),
        FetchEvent::Failed("connection refused".to_string()),
    ];
    for failure in failures {
        let (mut fetch, _) = Fetch::start("http://h", "k");
        let again = asked(fetch.step(failure));
        assert_eq!(again, ("http://h/models".to_string(), "k".to_string()));
        assert!(matches!(fetch.step(FetchEvent::Status(204)), FetchAction::ReadText));
        let body = r#"{"data":[{"id":"llama-3.1-70b"},{"id":"qwen2.5-72b"}]}"#;
        let models = outcome(fetch.step(FetchEvent::Text(body.to_string())));
        assert_eq!(
            models,
            Ok(vec!["llama-3.1-70b".to_string(), "qwen2.5-72b".to_string()])
        );
    }
}

#[test]
fn fetch_falls_back_when_the_body_cannot_be_read() {
    let (mut fetch, _) = Fetch::start("http://h", "k");
    fetch.step(FetchEvent::Status(200));
    let again = asked(fetch.step(FetchEvent::Unreadable("cut off".to_string())));
    assert_eq!(again.0, "http://h/models");
    fetch.step(FetchEvent::Status(200));
    let end = outcome(fetch.step(FetchEvent::Unreadable("cut off again".to_string())));
    assert_eq!(end, Err("cut off again".to_string()));
}

#[test]
fn fetch_reports_the_last_reason() {
    let (mut fetch, _) = Fetch::start("http://h", "k");
    fetch.step(FetchEvent::Failed("refused".to_string()));
    let end = outcome(fetch.step(FetchEvent::Status(404)));
    assert_eq!(end, Err("HTTP 404 Not Found".to_string()));

    let (mut fetch, _) = Fetch::start("http://h", "k");
    fetch.step(FetchEvent::Status(500));
    let end = outcome(fetch.step(FetchEvent::Failed("refused".to_string())));
    assert_eq!(end, Err("refused".to_string()));
}

#[test]
fn fetch_reason_shows_the_status_as_the_http_crate_does() {
    for code in [100u16, 300, 401, 418, 503, 599, 799] {
        let (mut fetch, _) = Fetch::start("http://h", "k");
        fetch.step(FetchEvent::Status(code));
        let status = axum::http::StatusCode::from_u16(code).expect("a status");
        assert_eq!(
            outcome(fetch.step(FetchEvent::Status(code))),
            Err(format!("HTTP {status}"))
        );
    }
}

#[test]
fn fetch_accepts_an_empty_list() {
    let (mut fetch, _) = Fetch::start("http://h", "k");
    fetch.step(FetchEvent::Status(200));
    assert_eq!(outcome(fetch.step(FetchEvent::Text("oops".to_string()))), Ok(Vec::new()));
}

#[test]
fn fetch_ends_on_an_event_that_answers_nothing() {
    let (mut fetch, _) = Fetch::start("http://h", "k");
    assert_eq!(
        outcome(fetch.step(FetchEvent::Text("{}".to_string()))),
        Err("两个端点均不可用".to_string())
    );
}
