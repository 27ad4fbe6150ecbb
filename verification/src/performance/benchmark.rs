//! The fixed benchmark request and the local address it is sent to.
use vstd::prelude::*;

use crate::text::{append_chars, chars_equal, chars_of, contains_exec, lit, push_decimal, decimal_text, starts_with_exec, string_of, contains, starts_with};

verus! {

/// The address a server bound to `host` answers local requests on: wildcard binds are reached
/// through the loopback address of their family, and bare IPv6 addresses are bracketed.
pub open spec fn local_host_spec(host: Seq<char>) -> Seq<char> {
    if host == "0.0.0.0"@ || host == "*"@ {
        "127.0.0.1"@
    } else if host == "::"@ || host == "[::]"@ {
        "[::1]"@
    } else if contains(host, ":"@) && !starts_with(host, "["@) {
        "["@ + host + "]"@
    } else {
        host
    }
}

pub open spec fn local_base_url_spec(host: Seq<char>, port: u16) -> Seq<char> {
    "http://"@ + local_host_spec(host) + ":"@ + decimal_text(port as nat)
}

/// The base URL for benchmark requests to a server bound to `host` and `port`.
pub fn local_base_url(host: &str, port: u16) -> (r: String)
    ensures
        r@ == local_base_url_spec(host@, port),
{
    let h = chars_of(host);
    let local: Vec<char> = if chars_equal(h.as_slice(), lit("0.0.0.0").as_slice()) || chars_equal(
        h.as_slice(),
        lit("*").as_slice(),
    ) {
        lit("127.0.0.1")
    } else if chars_equal(h.as_slice(), lit("::").as_slice()) || chars_equal(
        h.as_slice(),
        lit("[::]").as_slice(),
    ) {
        lit("[::1]")
    } else if contains_exec(h.as_slice(), lit(":").as_slice()) && !starts_with_exec(
        h.as_slice(),
        lit("[").as_slice(),
    ) {
        let mut v = lit("[");
        append_chars(&mut v, h.as_slice());
        let close = lit("]");
        append_chars(&mut v, close.as_slice());
        v
    } else {
        h
    };
    let mut url = lit("http://");
    append_chars(&mut url, local.as_slice());
    url.push(':');
    push_decimal(&mut url, port as u64);
    proof {
        reveal_strlit(":");
        assert(":"@ =~= seq![':']);
    }
    assert(url@ =~= local_base_url_spec(host@, port));
    string_of(url.as_slice())
}

/// The repeated block of the benchmark prompt.
pub const SAMPLE: &'static str = "\nfn aggregate_requests(requests: &[Request]) -> Summary {\n    let mut completed = 0usize;\n    let mut failed = 0usize;\n    let mut elapsed_ms = 0u64;\n    for request in requests {\n        match request.status {\n            Status::Completed { duration_ms } => {\n                completed += 1;\n                elapsed_ms += duration_ms;\n            }\n            Status::Failed => failed += 1,\n            Status::Pending => {}\n        }\n    }\n    Summary { completed, failed, elapsed_ms }\n}\n";

pub const PROMPT_INTRO: &'static str = "You are reviewing a Rust service. Analyze the repeated sample below, identify performance and correctness risks, then propose a concise refactor.\n";

pub const PROMPT_OUTRO: &'static str = "\nReturn the review as five numbered findings followed by revised Rust code.\n";

/// How many times the sample repeats.
pub const SAMPLE_REPEATS: usize = 24;

/// `s` repeated `n` times.
pub open spec fn repeated(s: Seq<char>, n: nat) -> Seq<char>
    decreases n,
{
    if n == 0 {
        seq![]
    } else {
        repeated(s, (n - 1) as nat) + s
    }
}

/// A long, deterministic coding prompt, so prompt processing is measured on real work.
pub fn coding_prompt() -> (r: String)
    ensures
        r@ == PROMPT_INTRO@ + repeated(SAMPLE@, SAMPLE_REPEATS as nat) + PROMPT_OUTRO@,
{
    let mut prompt = lit(PROMPT_INTRO);
    let sample = lit(SAMPLE);
    let ghost intro = prompt@;
    let mut i: usize = 0;
    while i < SAMPLE_REPEATS
        invariant
            i <= SAMPLE_REPEATS,
            sample@ == SAMPLE@,
            prompt@ == intro + repeated(SAMPLE@, i as nat),
        decreases SAMPLE_REPEATS - i,
    {
        append_chars(&mut prompt, sample.as_slice());
        i += 1;
        assert(prompt@ =~= intro + repeated(SAMPLE@, i as nat));
    }
    let outro = lit(PROMPT_OUTRO);
    append_chars(&mut prompt, outro.as_slice());
    string_of(prompt.as_slice())
}

} // verus!
