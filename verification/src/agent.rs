//! Checking that a running server answers an OpenAI-compatible agent: the checks on what the
//! user entered and the reading of the server's answers. The HTTP requests happen outside the
//! library.
use vstd::prelude::*;

use crate::error::{kept_details, opt_text, AppError, AppResult, ErrorCode};
use crate::text::{chars_equal, chars_of, concat_text, decimal_text, string_of, texts, trim, trim_end_char, trim_end_char_exec, trimmed, utf8_len, utf8_len_upto};

verus! {

/// The longest API key accepted, in bytes.
pub const MAX_API_KEY_BYTES: usize = 4096;

/// The longest model identifier accepted, in bytes.
pub const MAX_MODEL_BYTES: usize = 1024;

#[derive(Debug, Clone)]
pub struct AgentConnectionTestRequest {
    pub api_key: Option<String>,
    pub model: Option<String>,
}

/// An optional text, trimmed, with blank text treated as absent.
pub open spec fn normalized_spec(value: Option<String>) -> Option<Seq<char>> {
    match value {
        Some(v) => if trim(v@).len() == 0 {
            None
        } else {
            Some(trim(v@))
        },
        None => None,
    }
}

fn normalized(value: Option<String>, limit: usize, message: &str) -> (r: AppResult<Option<String>>)
    requires
        limit < usize::MAX - 4,
    ensures
        match r {
            Ok(v) => opt_text(v) == normalized_spec(value) && (normalized_spec(value) matches Some(t) ==> utf8_len(t) <= limit),
            Err(e) => (normalized_spec(value) matches Some(t) && utf8_len(t) > limit)
                && e.code == ErrorCode::AgentConnectionFailed && e.message@ == message@
                && e.hint is None && e.details is None,
        },
{
    match value {
        Some(v) => {
            let t = trimmed(chars_of(v.as_str()).as_slice());
            if t.len() == 0 {
                return Ok(None);
            }
            let bytes = utf8_len_upto(t.as_slice(), 0, t.len(), limit);
            assert(t@.subrange(0, t@.len() as int) =~= t@);
            if bytes > limit {
                return Err(AppError::new(ErrorCode::AgentConnectionFailed, message));
            }
            Ok(Some(string_of(t.as_slice())))
        },
        None => Ok(None),
    }
}

/// The API key, trimmed; blank means none. Keys over 4096 bytes are refused.
pub fn normalized_api_key(api_key: Option<String>) -> (r: AppResult<Option<String>>)
    ensures
        match r {
            Ok(v) => opt_text(v) == normalized_spec(api_key),
            Err(e) => (normalized_spec(api_key) matches Some(t) && utf8_len(t) > 4096)
                && e.code == ErrorCode::AgentConnectionFailed && e.message@
                == "The API key is too long."@,
        },
        r is Ok <==> !(normalized_spec(api_key) matches Some(t) && utf8_len(t) > 4096),
{
    normalized(api_key, MAX_API_KEY_BYTES, "The API key is too long.")
}

/// The requested model, trimmed; blank means none. Identifiers over 1024 bytes are refused.
pub fn normalized_model(model: Option<String>) -> (r: AppResult<Option<String>>)
    ensures
        match r {
            Ok(v) => opt_text(v) == normalized_spec(model),
            Err(e) => (normalized_spec(model) matches Some(t) && utf8_len(t) > 1024)
                && e.code == ErrorCode::AgentConnectionFailed && e.message@
                == "The requested model identifier is too long."@,
        },
        r is Ok <==> !(normalized_spec(model) matches Some(t) && utf8_len(t) > 1024),
{
    normalized(model, MAX_MODEL_BYTES, "The requested model identifier is too long.")
}

/// The OpenAI-compatible API root of a server: its base URL without trailing slashes, then
/// `/v1`.
pub fn api_base_url(server_base_url: &str) -> (r: String)
    ensures
        r@ == trim_end_char(server_base_url@, '/') + "/v1"@,
{
    let base = trim_end_char_exec(chars_of(server_base_url).as_slice(), '/');
    concat_text(string_of(base.as_slice()).as_str(), "/v1")
}

/// The model ids of the first `n` listed models, trimmed, skipping blank ones.
pub open spec fn model_ids_upto(ids: Seq<Seq<char>>, n: int) -> Seq<Seq<char>>
    decreases n,
{
    if n <= 0 {
        seq![]
    } else if trim(ids[n - 1]).len() == 0 {
        model_ids_upto(ids, n - 1)
    } else {
        model_ids_upto(ids, n - 1).push(trim(ids[n - 1]))
    }
}

/// The ids of the models a server lists.
pub fn model_ids(listed: &Vec<String>) -> (r: Vec<String>)
    ensures
        texts(r@) == model_ids_upto(texts(listed@), listed@.len() as int),
{
    let mut out: Vec<String> = Vec::new();
    let mut i: usize = 0;
    while i < listed.len()
        invariant
            i <= listed@.len(),
            texts(out@) == model_ids_upto(texts(listed@), i as int),
        decreases listed.len() - i,
    {
        let t = trimmed(chars_of(listed[i].as_str()).as_slice());
        assert(texts(listed@)[i as int] == listed@[i as int]@);
        if t.len() > 0 {
            let s = string_of(t.as_slice());
            let ghost before = out@;
            out.push(s);
            proof {
                crate::text::lemma_texts_push(before, s);
            }
        }
        i += 1;
    }
    out
}

/// The model the connection test talks to: the requested one when the server lists it, else
/// the first listed; and whether the request was matched. A server listing no model fails.
pub fn select_model(model_ids: &Vec<String>, requested: Option<&str>) -> (r: AppResult<(String, bool)>)
    ensures
        match r {
            Ok((selected, matched)) => model_ids@.len() > 0 && matched == (requested matches Some(q)
                && texts(model_ids@).contains(q@)) && selected@ == if matched {
                requested.unwrap()@
            } else {
                model_ids@[0]@
            },
            Err(e) => model_ids@.len() == 0 && e.code == ErrorCode::AgentConnectionFailed
                && e.message@ == "llama-server returned no models from /v1/models."@ && opt_text(
                e.hint,
            ) == Some("Wait for the selected profile to become Ready, then retry."@),
        },
{
    if model_ids.len() == 0 {
        return Err(
            AppError::new(
                ErrorCode::AgentConnectionFailed,
                "llama-server returned no models from /v1/models.",
            ).with_hint("Wait for the selected profile to become Ready, then retry."),
        );
    }
    let matched = match requested {
        Some(q) => {
            let want = chars_of(q);
            let mut found = false;
            let mut i: usize = 0;
            while i < model_ids.len()
                invariant
                    i <= model_ids@.len(),
                    want@ == q@,
                    found == exists|j: int| 0 <= j < i && #[trigger] texts(model_ids@)[j] == q@,
                decreases model_ids.len() - i,
            {
                assert(texts(model_ids@)[i as int] == model_ids@[i as int]@);
                if chars_equal(chars_of(model_ids[i].as_str()).as_slice(), want.as_slice()) {
                    found = true;
                }
                i += 1;
            }
            found
        },
        None => false,
    };
    let selected = if matched {
        requested.unwrap().to_string()
    } else {
        model_ids[0].clone()
    };
    Ok((selected, matched))
}

/// Index of the first choice at or after `i` that carries content.
pub open spec fn first_content(contents: Seq<Option<String>>, i: int) -> int
    decreases contents.len() - i,
{
    if i < 0 || i >= contents.len() {
        contents.len() as int
    } else if contents[i] is Some {
        i
    } else {
        first_content(contents, i + 1)
    }
}

/// The assistant's reply: the first choice with content, trimmed, which must not be blank.
pub fn assistant_text(contents: &Vec<Option<String>>) -> (r: AppResult<String>)
    ensures
        ({
            let k = first_content(contents@, 0);
            match r {
                Ok(text) => k < contents@.len() && text@ == trim(contents@[k].unwrap()@) && text@.len() > 0,
                Err(e) => (k >= contents@.len() || trim(contents@[k].unwrap()@).len() == 0)
                    && e.code == ErrorCode::AgentConnectionFailed && e.message@
                    == "The OpenAI-compatible response contained no assistant message."@
                    && opt_text(e.hint) == Some(
                    "Check that the model has a compatible chat template and retry the test."@,
                ),
            }
        }),
{
    let mut i: usize = 0;
    while i < contents.len() && contents[i].is_none()
        invariant
            i <= contents@.len(),
            first_content(contents@, 0) == first_content(contents@, i as int),
        decreases contents.len() - i,
    {
        i += 1;
    }
    if i < contents.len() {
        if let Some(content) = &contents[i] {
            let t = trimmed(chars_of(content.as_str()).as_slice());
            if t.len() > 0 {
                return Ok(string_of(t.as_slice()));
            }
        }
    }
    Err(
        AppError::new(
            ErrorCode::AgentConnectionFailed,
            "The OpenAI-compatible response contained no assistant message.",
        ).with_hint("Check that the model has a compatible chat template and retry the test."),
    )
}

/// A response with a failing HTTP status: the action and status in the message, the body in
/// the details, and, for 401 and 403, a hint about the API key.
pub fn http_failure(action: &str, status: u16, body: &str) -> (e: AppError)
    ensures
        e.code == ErrorCode::AgentConnectionFailed,
        e.message@ == "llama-server could not "@ + action@ + " (HTTP "@ + decimal_text(status as nat) + ")."@,
        opt_text(e.hint) == if status == 401 || status == 403 {
            Some("Enter the API key configured for this server profile."@)
        } else {
            None
        },
        opt_text(e.details) == kept_details(None, body@),
{
    let mut v = chars_of("llama-server could not ");
    crate::text::append_chars(&mut v, chars_of(action).as_slice());
    crate::text::append_chars(&mut v, chars_of(" (HTTP ").as_slice());
    crate::text::push_decimal(&mut v, status as u64);
    crate::text::append_chars(&mut v, chars_of(").").as_slice());
    let message = string_of(v.as_slice());
    let error = AppError::new(ErrorCode::AgentConnectionFailed, message.as_str()).with_details(body);
    if status == 401 || status == 403 {
        error.with_hint("Enter the API key configured for this server profile.")
    } else {
        error
    }
}

/// A body that is not OpenAI-compatible JSON: the parser's error and the body in the details.
pub fn incompatible_response(parse_error: &str, body: &str) -> (e: AppError)
    ensures
        e.code == ErrorCode::AgentConnectionFailed,
        e.message@ == "llama-server returned a response that was not OpenAI-compatible."@,
        e.hint is None,
        opt_text(e.details) == kept_details(None, parse_error@ + "\n\n"@ + body@),
{
    let details = concat_text(concat_text(parse_error, "\n\n").as_str(), body);
    AppError::new(
        ErrorCode::AgentConnectionFailed,
        "llama-server returned a response that was not OpenAI-compatible.",
    ).with_details(details.as_str())
}

/// A request that did not complete.
pub fn connection_error(message: &str, error: &str) -> (e: AppError)
    ensures
        e.code == ErrorCode::AgentConnectionFailed,
        e.message@ == message@,
        opt_text(e.hint) == Some("Keep the selected profile Ready and verify its API key."@),
        opt_text(e.details) == kept_details(None, error@),
{
    AppError::new(ErrorCode::AgentConnectionFailed, message).with_hint(
        "Keep the selected profile Ready and verify its API key.",
    ).with_details(error)
}

} // verus!
