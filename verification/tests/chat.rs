//! Preparing chat requests and reading their replies.

use serde_json::Value;
use taskdeck::chat::{brief, TEMPERATURE_BITS, chat_reply, chat_request, status_hint, ChatFailure, ChatSetupError, StatusHint};
use taskdeck::json::{Json, Member, NumKind, Number};
use taskdeck::out::Out;

fn to_json(v: &Value) -> Json {
    match v {
        Value::Null => Json::Null,
        Value::Bool(b) => Json::Bool(*b),
        Value::Number(n) => {
            let bits = n.as_f64().unwrap_or(0.0).to_bits();
            let kind = if let Some(u) = n.as_u64() {
                NumKind::PosInt(u)
            } else if let Some(i) = n.as_i64() {
                NumKind::NegInt(i)
            } else {
                NumKind::Float(bits)
            };
            Json::Num(Number { kind, f64_bits: bits })
        }
        Value::String(s) => Json::Str(s.clone()),
        Value::Array(a) => Json::Arr(a.iter().map(to_json).collect()),
        Value::Object(m) => Json::Obj(
            m.iter()
                .map(|(k, x)| Member { key: k.clone(), value: to_json(x), text: x.to_string() })
                .collect(),
        ),
    }
}

fn reply(code: u16, text: &str) -> Result<String, ChatFailure> {
    let parsed = serde_json::from_str::<Value>(text).ok().map(|v| to_json(&v));
    chat_reply(code, text, parsed.as_ref())
}

#[test]
fn request_goes_to_the_completions_endpoint() {
    let r = chat_request(" https://api.example.com/v1/ ", " sk-1 ", "gpt", "你是助手", "总结\"本周\"").ok().unwrap();
    assert_eq!(r.url, "https://api.example.com/v1/chat/completions");
    assert_eq!(r.bearer, Some("sk-1".to_string()));
    assert_eq!(body_text(&r.body), r#"{"messages":[{"content":"你是助手","role":"system"},{"content":"总结\"本周\"","role":"user"}],"model":"gpt","stream":false,"temperature":0.5}"#);

    let r = chat_request("http://localhost:11434/v1/chat/completions///", "", "llama", "", "").ok().unwrap();
    assert_eq!(r.url, "http://localhost:11434/v1/chat/completions");
    assert_eq!(r.bearer, None);
}

fn body_value(o: &Out) -> Value {
    match o {
        Out::Bool(b) => Value::Bool(*b),
        Out::Int(i) => Value::from(*i),
        Out::Real(b) => Value::from(f64::from_bits(*b)),
        Out::Str(s) => Value::String(s.clone()),
        Out::Json(_) => Value::Null,
        Out::List(v) => Value::Array(v.iter().map(body_value).collect()),
        Out::Obj(fs) => {
            let mut m = serde_json::Map::new();
            for f in fs {
                m.insert(f.key.clone(), body_value(&f.value));
            }
            Value::Object(m)
        }
    }
}

fn body_text(o: &Out) -> String {
    body_value(o).to_string()
}

#[test]
fn request_body_carries_the_messages() {
    assert_eq!(f64::from_bits(TEMPERATURE_BITS), 0.5);
    let r = chat_request("http://x/v1", "", " m ", "sys", "").ok().unwrap();
    let v = body_value(&r.body);
    assert_eq!(v["model"].as_str(), Some(" m "));
    assert_eq!(v["messages"][0]["role"].as_str(), Some("system"));
    assert_eq!(v["messages"][0]["content"].as_str(), Some("sys"));
    assert_eq!(v["messages"][1]["role"].as_str(), Some("user"));
    assert_eq!(v["messages"][1]["content"].as_str(), Some(""));
    assert_eq!(v["temperature"].as_f64(), Some(0.5));
    assert_eq!(v["stream"].as_bool(), Some(false));
}

#[test]
fn request_needs_an_address_and_a_model() {
    assert!(matches!(chat_request("  ", "k", "m", "s", "u"), Err(ChatSetupError::NoEndpoint)));
    assert!(matches!(chat_request("///", "k", "m", "s", "u"), Err(ChatSetupError::NoEndpoint)));
    assert!(matches!(chat_request("", "k", "", "s", "u"), Err(ChatSetupError::NoEndpoint)));
    assert!(matches!(chat_request("http://x", "k", " \t", "s", "u"), Err(ChatSetupError::NoModel)));
}

#[test]
fn status_hints() {
    assert_eq!(status_hint(401), StatusHint::BadKey);
    assert_eq!(status_hint(403), StatusHint::BadKey);
    assert_eq!(status_hint(404), StatusHint::BadAddress);
    assert_eq!(status_hint(429), StatusHint::RateLimited);
    assert_eq!(status_hint(500), StatusHint::Unknown);
}

#[test]
fn brief_quotes_at_most_300_characters() {
    let long: String = "任".repeat(301);
    assert_eq!(brief(&long).chars().count(), 300);
    assert_eq!(brief("short"), "short");
    assert_eq!(brief(""), "");
}

#[test]
fn reply_gives_the_trimmed_content() {
    let ok = reply(200, r##"{"choices":[{"message":{"content":"  总结 \n"}}]}"##);
    assert_eq!(ok.ok(), Some("总结".to_string()));
}

#[test]
fn reply_falls_back_to_reasoning_content() {
    let ok = reply(200, r##"{"choices":[{"message":{"content":null,"reasoning_content":" 想法 "}}]}"##);
    assert_eq!(ok.ok(), Some("想法".to_string()));
}

#[test]
fn reply_reports_a_failed_status() {
    match reply(401, "denied") {
        Err(ChatFailure::Status { code, hint, brief }) => {
            assert_eq!(code, 401);
            assert_eq!(hint, StatusHint::BadKey);
            assert_eq!(brief, "denied");
        }
        _ => panic!("expected a status failure"),
    }
    // A 2xx status other than 200 is a success.
    assert_eq!(reply(201, r##"{"choices":[{"message":{"content":"x"}}]}"##).ok(), Some("x".to_string()));
    assert!(matches!(reply(302, "{}"), Err(ChatFailure::Status { code: 302, .. })));
}

#[test]
fn reply_that_is_not_json() {
    match reply(200, "<html>") {
        Err(ChatFailure::NotJson { brief }) => assert_eq!(brief, "<html>"),
        _ => panic!("expected a parse failure"),
    }
}

#[test]
fn reply_with_a_service_error() {
    match reply(200, r##"{"error":{"message":"quota"}}"##) {
        Err(ChatFailure::Service { message }) => assert_eq!(message, "quota"),
        _ => panic!("expected a service error"),
    }
}

#[test]
fn reply_without_an_answer() {
    match reply(200, r##"{"choices":[]}"##) {
        Err(ChatFailure::NoAnswer { brief }) => assert_eq!(brief, r##"{"choices":[]}"##),
        _ => panic!("expected no answer"),
    }
    assert!(matches!(reply(200, r##"{"choices":[{"message":{"content":3}}]}"##), Err(ChatFailure::NoAnswer { .. })));
}
