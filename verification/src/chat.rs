//! The AI summary: which endpoint a chat request goes to, and what its
//! reply gives back.
//!
//! The request itself goes over the network; these functions decide what
//! is sent before it and what the caller gets after it.

use vstd::prelude::*;
use crate::json::{Json, JsonV, at, json_views};
use crate::out::{Out, OutField, OutFieldV, OutV, field_views, list, object, out_views};
use crate::text::{append_str, owned, chars_of, ends_with, has_suffix, string_of, strip_suffix_copies, strip_suffixes, trim, trim_spec};

verus! {

/// The suffix of an OpenAI-compatible chat completions endpoint.
pub open spec fn completions_path() -> Seq<char> {
    "/chat/completions"@
}

/// The configured address, trimmed, without trailing slashes.
pub open spec fn base_of(base_url: Seq<char>) -> Seq<char> {
    strip_suffixes(trim_spec(base_url), "/"@)
}

/// The endpoint the request goes to: the address itself when it already
/// names the completions endpoint, else the address with that path.
pub open spec fn endpoint_of(base: Seq<char>) -> Seq<char> {
    if has_suffix(base, completions_path()) {
        base
    } else {
        base + completions_path()
    }
}

/// Why a chat request cannot be made.
#[derive(Clone, Copy, PartialEq, Eq, Structural, Debug)]
pub enum ChatSetupError {
    /// No endpoint address is configured.
    NoEndpoint,
    /// No model name is configured.
    NoModel,
}

/// The sampling temperature of a request, 0.5, by its IEEE-754 bits.
pub const TEMPERATURE_BITS: u64 = 0x3FE0000000000000;

/// One chat message: its role and its content.
pub open spec fn message_of(role: Seq<char>, content: Seq<char>) -> OutV {
    OutV::Obj(
        seq![
            OutFieldV { key: "role"@, value: OutV::Str(role) },
            OutFieldV { key: "content"@, value: OutV::Str(content) },
        ],
    )
}

/// The body of a chat request: the model as configured, the system and
/// user messages, temperature 0.5, and no streaming.
pub open spec fn body_of(model: Seq<char>, system: Seq<char>, user: Seq<char>) -> OutV {
    OutV::Obj(
        seq![
            OutFieldV { key: "model"@, value: OutV::Str(model) },
            OutFieldV {
                key: "messages"@,
                value: OutV::List(seq![message_of("system"@, system), message_of("user"@, user)]),
            },
            OutFieldV { key: "temperature"@, value: OutV::Real(TEMPERATURE_BITS) },
            OutFieldV { key: "stream"@, value: OutV::Bool(false) },
        ],
    )
}

/// Where a chat request goes, the bearer token it carries (none when no
/// key is configured, as for a local server), and the JSON body it posts.
pub struct ChatRequest {
    pub url: String,
    pub bearer: Option<String>,
    pub body: Out,
}

fn message(role: &str, content: &str) -> (r: Out)
    ensures
        r@ == message_of(role@, content@),
{
    let mut fs: Vec<OutField> = Vec::new();
    fs.push(OutField { key: owned("role"), value: Out::Str(owned(role)) });
    fs.push(OutField { key: owned("content"), value: Out::Str(owned(content)) });
    let r = object(fs);
    assert(field_views(fs@) =~= seq![
        OutFieldV { key: "role"@, value: OutV::Str(role@) },
        OutFieldV { key: "content"@, value: OutV::Str(content@) },
    ]);
    r
}

/// The body of a chat request (see [`body_of`]).
fn request_body(model: &str, system: &str, user: &str) -> (r: Out)
    ensures
        r@ == body_of(model@, system@, user@),
{
    let mut ms: Vec<Out> = Vec::new();
    ms.push(message("system", system));
    ms.push(message("user", user));
    let msgs = list(ms);
    assert(out_views(ms@) =~= seq![message_of("system"@, system@), message_of("user"@, user@)]);
    let mut fs: Vec<OutField> = Vec::new();
    fs.push(OutField { key: owned("model"), value: Out::Str(owned(model)) });
    fs.push(OutField { key: owned("messages"), value: msgs });
    fs.push(OutField { key: owned("temperature"), value: Out::Real(TEMPERATURE_BITS) });
    fs.push(OutField { key: owned("stream"), value: Out::Bool(false) });
    let r = object(fs);
    assert(field_views(fs@) =~= seq![
        OutFieldV { key: "model"@, value: OutV::Str(model@) },
        OutFieldV {
            key: "messages"@,
            value: OutV::List(seq![message_of("system"@, system@), message_of("user"@, user@)]),
        },
        OutFieldV { key: "temperature"@, value: OutV::Real(TEMPERATURE_BITS) },
        OutFieldV { key: "stream"@, value: OutV::Bool(false) },
    ]);
    r
}

/// Prepares a chat request from the configured address, key and model.
pub fn chat_request(
    base_url: &str,
    api_key: &str,
    model: &str,
    system: &str,
    user: &str,
) -> (r: Result<ChatRequest, ChatSetupError>)
    ensures
        base_of(base_url@).len() == 0 <==> r == Err::<ChatRequest, _>(ChatSetupError::NoEndpoint),
        base_of(base_url@).len() > 0 && trim_spec(model@).len() == 0 <==> r == Err::<ChatRequest, _>(
            ChatSetupError::NoModel,
        ),
        r matches Ok(req) ==> {
            &&& req.url@ == endpoint_of(base_of(base_url@))
            &&& req.bearer matches Some(k) ==> k@ == trim_spec(api_key@) && k@.len() > 0
            &&& req.bearer is None ==> trim_spec(api_key@).len() == 0
            &&& req.body@ == body_of(model@, system@, user@)
        },
{
    let trimmed = trim(base_url);
    let tc = chars_of(trimmed.as_str());
    let end = strip_suffix_copies(&tc, "/");
    let base = string_of(&tc, 0, end);
    if base.as_str().is_empty() {
        return Err(ChatSetupError::NoEndpoint);
    }
    let m = trim(model);
    if m.as_str().is_empty() {
        return Err(ChatSetupError::NoModel);
    }
    let bc = chars_of(base.as_str());
    let url = if ends_with(&bc, "/chat/completions") {
        base
    } else {
        let mut u = base;
        append_str(&mut u, "/chat/completions");
        u
    };
    let key = trim(api_key);
    let bearer = if key.as_str().is_empty() {
        None
    } else {
        Some(key)
    };
    let body = request_body(model, system, user);
    Ok(ChatRequest { url, bearer, body })
}

/// What a failed status is most likely about.
#[derive(Clone, Copy, PartialEq, Eq, Structural, Debug)]
pub enum StatusHint {
    /// 401 or 403: the key is wrong or lacks permission.
    BadKey,
    /// 404: the address is wrong (most services want `/v1`).
    BadAddress,
    /// 429: too many requests, or no balance left.
    RateLimited,
    /// Any other status.
    Unknown,
}

pub open spec fn hint_of(code: u16) -> StatusHint {
    if code == 401 || code == 403 {
        StatusHint::BadKey
    } else if code == 404 {
        StatusHint::BadAddress
    } else if code == 429 {
        StatusHint::RateLimited
    } else {
        StatusHint::Unknown
    }
}

pub fn status_hint(code: u16) -> (r: StatusHint)
    ensures
        r == hint_of(code),
{
    if code == 401 || code == 403 {
        StatusHint::BadKey
    } else if code == 404 {
        StatusHint::BadAddress
    } else if code == 429 {
        StatusHint::RateLimited
    } else {
        StatusHint::Unknown
    }
}

/// How many characters of a reply an error message quotes.
pub const BRIEF_CHARS: usize = 300;

/// The first [`BRIEF_CHARS`] characters of `text`.
pub open spec fn brief_of(text: Seq<char>) -> Seq<char> {
    if text.len() <= BRIEF_CHARS {
        text
    } else {
        text.take(BRIEF_CHARS as int)
    }
}

/// The first [`BRIEF_CHARS`] characters of `text`.
pub fn brief(text: &str) -> (r: String)
    ensures
        r@ == brief_of(text@),
{
    let cs = chars_of(text);
    let n = if cs.len() <= BRIEF_CHARS {
        cs.len()
    } else {
        BRIEF_CHARS
    };
    let r = string_of(&cs, 0, n);
    assert(r@ =~= brief_of(text@));
    r
}

/// Why a chat reply gives no answer.
pub enum ChatFailure {
    /// The service answered with a status other than 2xx.
    Status { code: u16, hint: StatusHint, brief: String },
    /// The reply is not JSON.
    NotJson { brief: String },
    /// The service reported an error.
    Service { message: String },
    /// The reply holds no answer.
    NoAnswer { brief: String },
}

/// The element at position `i` of an array (`value[i]`), or null.
pub open spec fn elem(j: JsonV, i: int) -> JsonV {
    match j {
        JsonV::Arr(v) => if 0 <= i < v.len() {
            v[i]
        } else {
            JsonV::Null
        },
        _ => JsonV::Null,
    }
}

/// `v["choices"][0]["message"][field]`.
pub open spec fn choice_field(v: JsonV, field: Seq<char>) -> JsonV {
    at(at(elem(at(v, "choices"@), 0), "message"@), field)
}

/// What a reply gives back: for a 2xx status, the trimmed answer (its
/// `content`, else its `reasoning_content`), else the service's error
/// message; a failure otherwise.
pub open spec fn reply_of(code: u16, text: Seq<char>, parsed: Option<JsonV>) -> Result<Seq<char>, ChatFailureV> {
    if !(200 <= code < 300) {
        Err(ChatFailureV::Status { code, hint: hint_of(code), brief: brief_of(text) })
    } else {
        match parsed {
            None => Err(ChatFailureV::NotJson { brief: brief_of(text) }),
            Some(v) => match choice_field(v, "content"@) {
                JsonV::Str(c) => Ok(trim_spec(c)),
                _ => match choice_field(v, "reasoning_content"@) {
                    JsonV::Str(c) => Ok(trim_spec(c)),
                    _ => match at(at(v, "error"@), "message"@) {
                        JsonV::Str(m) => Err(ChatFailureV::Service { message: m }),
                        _ => Err(ChatFailureV::NoAnswer { brief: brief_of(text) }),
                    },
                },
            },
        }
    }
}

pub enum ChatFailureV {
    Status { code: u16, hint: StatusHint, brief: Seq<char> },
    NotJson { brief: Seq<char> },
    Service { message: Seq<char> },
    NoAnswer { brief: Seq<char> },
}

impl View for ChatFailure {
    type V = ChatFailureV;

    open spec fn view(&self) -> ChatFailureV {
        match self {
            ChatFailure::Status { code, hint, brief } => ChatFailureV::Status { code: *code, hint: *hint, brief: brief@ },
            ChatFailure::NotJson { brief } => ChatFailureV::NotJson { brief: brief@ },
            ChatFailure::Service { message } => ChatFailureV::Service { message: message@ },
            ChatFailure::NoAnswer { brief } => ChatFailureV::NoAnswer { brief: brief@ },
        }
    }
}

fn first_choice_field<'a>(v: &'a Json, field: &str) -> (r: Option<&'a String>)
    ensures
        r matches Some(s) ==> choice_field(v@, field@) == JsonV::Str(s@),
        r is None ==> !(choice_field(v@, field@) is Str),
{
    match v.array_at("choices") {
        Some(cs) => {
            if cs.len() == 0 {
                return None;
            }
            assert(json_views(cs@)[0] == cs@[0]@);
            match cs[0].get("message") {
                Some(m) => match m.value.get(field) {
                    Some(f) => match &f.value {
                        Json::Str(s) => Some(s),
                        _ => None,
                    },
                    None => None,
                },
                None => None,
            }
        },
        None => None,
    }
}

pub open spec fn parsed_view(p: Option<&Json>) -> Option<JsonV> {
    match p {
        Some(v) => Some(v@),
        None => None,
    }
}

/// What the reply with status `code`, body `text` and (when the body is
/// JSON) parse `parsed` gives back (see [`reply_of`]).
pub fn chat_reply(code: u16, text: &str, parsed: Option<&Json>) -> (r: Result<String, ChatFailure>)
    ensures
        match r {
            Ok(s) => reply_of(code, text@, parsed_view(parsed)) == Ok::<Seq<char>, ChatFailureV>(s@),
            Err(f) => reply_of(code, text@, parsed_view(parsed)) == Err::<Seq<char>, ChatFailureV>(f@),
        },
{
    if !(200 <= code && code < 300) {
        return Err(ChatFailure::Status { code, hint: status_hint(code), brief: brief(text) });
    }
    match parsed {
        None => Err(ChatFailure::NotJson { brief: brief(text) }),
        Some(v) => {
            match first_choice_field(v, "content") {
                Some(c) => {
                    return Ok(trim(c.as_str()));
                },
                None => {},
            }
            match first_choice_field(v, "reasoning_content") {
                Some(c) => {
                    return Ok(trim(c.as_str()));
                },
                None => {},
            }
            match v.get("error") {
                Some(e) => match e.value.get("message") {
                    Some(m) => match &m.value {
                        Json::Str(s) => {
                            return Err(ChatFailure::Service { message: s.clone() });
                        },
                        _ => {},
                    },
                    None => {},
                },
                None => {},
            }
            Err(ChatFailure::NoAnswer { brief: brief(text) })
        },
    }
}


/// What a reply gives, whatever the rest of its body holds:
/// - a status outside 2xx is a failure reporting that status, its hint and
///   the start of the body;
/// - for a 2xx status, when the first choice's message has a string
///   `content`, the answer is that content trimmed (even when the message
///   also has a `reasoning_content`);
/// - when it has no string `content` but a string `reasoning_content`, the
///   answer is that trimmed;
/// - a body that is no JSON is a failure.
pub proof fn law_reply_gives_the_answer(code: u16, text: Seq<char>, v: JsonV)
    ensures
        !(200 <= code < 300) ==> reply_of(code, text, Some(v)) == Err::<Seq<char>, ChatFailureV>(
            ChatFailureV::Status { code, hint: hint_of(code), brief: brief_of(text) },
        ),
        at(at(elem(at(v, "choices"@), 0), "message"@), "content"@) matches JsonV::Str(c) ==> (200 <= code < 300
            ==> reply_of(code, text, Some(v)) == Ok::<Seq<char>, ChatFailureV>(trim_spec(c))),
        at(at(elem(at(v, "choices"@), 0), "message"@), "reasoning_content"@) matches JsonV::Str(c) ==> (200 <= code
            < 300 && !(at(at(elem(at(v, "choices"@), 0), "message"@), "content"@) is Str) ==> reply_of(code, text, Some(v))
            == Ok::<Seq<char>, ChatFailureV>(trim_spec(c))),
        200 <= code < 300 ==> reply_of(code, text, None) == Err::<Seq<char>, ChatFailureV>(
            ChatFailureV::NotJson { brief: brief_of(text) },
        ),
{
}

} // verus!
