//! Telling what a GGUF file is: a drafter or a main model, and which name a model and its
//! multimodal projector share.
use vstd::prelude::*;

use crate::gguf::reader::MetadataModel;
use crate::text::{
    ascii_lower, chars_equal, chars_of, contains, contains_exec, copy_range, ends_with,
    ends_with_exec, is_alnum, is_ascii_alphanumeric, is_ascii_digit, is_digit, lit, lower_all,
    rfind_char, rfind_char_before, starts_with, starts_with_exec, string_of,
};

verus! {

/// Whether a GGUF model is a main model or a drafter for speculative decoding.
#[derive(Debug, Clone, Copy, PartialEq, Eq, Structural)]
pub enum ModelRole {
    Main,
    Drafter,
}

// ---------------------------------------------------------------------------------------------
// File stems
// ---------------------------------------------------------------------------------------------

/// `Path::file_stem` of a path whose file name is `name`: the name before its last `.`; the
/// whole name when it has no `.`, when its only `.` leads, or when it is `..`.
pub open spec fn stem_of_name(name: Seq<char>) -> Seq<char> {
    let dot = rfind_char(name, '.', name.len() as int);
    if name == ".."@ || dot <= 0 {
        name
    } else {
        name.take(dot)
    }
}

pub fn stem_of(name: &str) -> (r: String)
    ensures
        r@ == stem_of_name(name@),
{
    let n = chars_of(name);
    if chars_equal(n.as_slice(), lit("..").as_slice()) {
        return name.to_string();
    }
    match rfind_char_before(n.as_slice(), '.', n.len()) {
        Some(k) => if k == 0 {
            name.to_string()
        } else {
            let r = copy_range(n.as_slice(), 0, k);
            assert(r@ =~= n@.take(k as int));
            string_of(r.as_slice())
        },
        None => name.to_string(),
    }
}

// ---------------------------------------------------------------------------------------------
// Roles
// ---------------------------------------------------------------------------------------------

/// An architecture named `...-assistant` or `..._assistant` belongs to a drafter.
pub open spec fn assistant_architecture(m: MetadataModel) -> bool {
    m.architecture matches Some(a) && (ends_with(ascii_lower(a), "-assistant"@) || ends_with(
        ascii_lower(a),
        "_assistant"@,
    ))
}

/// File names that drafters are published under, compared in ASCII lowercase.
pub open spec fn drafter_name(filename: Seq<char>) -> bool {
    let f = ascii_lower(filename);
    starts_with(f, "mtp-"@) || starts_with(f, "draft-"@) || starts_with(f, "drafter-"@)
        || contains(f, "-drafter-"@) || contains(f, "dflash"@) || contains(f, "dspark"@)
        || contains(f, "eagle3"@) || contains(f, "eagle-3"@)
}

pub open spec fn model_role_spec(m: MetadataModel, filename: Seq<char>) -> ModelRole {
    if assistant_architecture(m) || drafter_name(filename) {
        ModelRole::Drafter
    } else {
        ModelRole::Main
    }
}

fn has_prefix(s: &[char], p: &str) -> (r: bool)
    ensures
        r == starts_with(s@, p@),
{
    starts_with_exec(s, lit(p).as_slice())
}

fn has_suffix(s: &[char], p: &str) -> (r: bool)
    ensures
        r == ends_with(s@, p@),
{
    ends_with_exec(s, lit(p).as_slice())
}

fn has_part(s: &[char], p: &str) -> (r: bool)
    ensures
        r == contains(s@, p@),
{
    contains_exec(s, lit(p).as_slice())
}

/// A drafter either declares an assistant architecture or carries a drafter's file name.
pub fn classify_model_role(metadata: &crate::gguf::reader::GgufMetadata, filename: &str) -> (r:
    ModelRole)
    ensures
        r == model_role_spec(metadata@, filename@),
{
    match &metadata.architecture {
        Some(a) => {
            let lowered = lower_all(chars_of(a.as_str()).as_slice());
            if has_suffix(lowered.as_slice(), "-assistant") || has_suffix(
                lowered.as_slice(),
                "_assistant",
            ) {
                return ModelRole::Drafter;
            }
        },
        None => {},
    }
    let f = lower_all(chars_of(filename).as_slice());
    let f = f.as_slice();
    if has_prefix(f, "mtp-") || has_prefix(f, "draft-") || has_prefix(f, "drafter-") || has_part(
        f,
        "-drafter-",
    ) || has_part(f, "dflash") || has_part(f, "dspark") || has_part(f, "eagle3") || has_part(
        f,
        "eagle-3",
    ) {
        ModelRole::Drafter
    } else {
        ModelRole::Main
    }
}

// ---------------------------------------------------------------------------------------------
// Identities
// ---------------------------------------------------------------------------------------------

/// The maximal runs of ASCII letters and digits in `s`, in order.
pub open spec fn alnum_tokens(s: Seq<char>) -> Seq<Seq<char>>
    decreases s.len(),
{
    if s.len() == 0 {
        Seq::empty()
    } else {
        let t = alnum_tokens(s.drop_last());
        let c = s.last();
        if !is_alnum(c) {
            t
        } else if s.len() >= 2 && is_alnum(s[s.len() - 2]) {
            t.update(t.len() - 1, t.last().push(c))
        } else {
            t.push(seq![c])
        }
    }
}

/// Quantization and format tokens: `f16`, `f32`, `bf16`, `fp16`, `fp32`, `gguf`, and `q`,
/// `iq` or `tq` followed by a digit.
pub open spec fn is_quantization_token_spec(t: Seq<char>) -> bool {
    ||| t == "f16"@
    ||| t == "f32"@
    ||| t == "bf16"@
    ||| t == "fp16"@
    ||| t == "fp32"@
    ||| t == "gguf"@
    ||| (t.len() >= 2 && t[0] == 'q' && is_digit(t[1]))
    ||| (t.len() >= 3 && t[0] == 'i' && t[1] == 'q' && is_digit(t[2]))
    ||| (t.len() >= 3 && t[0] == 't' && t[1] == 'q' && is_digit(t[2]))
}

/// Five digits, as in `00001`.
pub open spec fn looks_like_shard_number_spec(t: Seq<char>) -> bool {
    t.len() == 5 && forall|k: int| 0 <= k < 5 ==> is_digit(#[trigger] t[k])
}

/// A lowercased token that names the model, not its packaging.
pub open spec fn identity_token(t: Seq<char>) -> bool {
    t != "mmproj"@ && !is_quantization_token_spec(t) && !looks_like_shard_number_spec(t)
}

/// The lowercased naming tokens, run together.
pub open spec fn identity_text(tokens: Seq<Seq<char>>) -> Seq<char>
    decreases tokens.len(),
{
    if tokens.len() == 0 {
        Seq::empty()
    } else {
        let rest = identity_text(tokens.drop_last());
        let t = ascii_lower(tokens.last());
        if identity_token(t) {
            rest + t
        } else {
            rest
        }
    }
}

pub open spec fn normalize_identity_spec(value: Seq<char>) -> Seq<char> {
    identity_text(alnum_tokens(value))
}

pub fn is_quantization_token(token: &[char]) -> (r: bool)
    ensures
        r == is_quantization_token_spec(token@),
{
    let t = token;
    if chars_equal(t, lit("f16").as_slice()) || chars_equal(t, lit("f32").as_slice())
        || chars_equal(t, lit("bf16").as_slice()) || chars_equal(t, lit("fp16").as_slice())
        || chars_equal(t, lit("fp32").as_slice()) || chars_equal(t, lit("gguf").as_slice()) {
        return true;
    }
    (t.len() >= 2 && t[0] == 'q' && is_ascii_digit(t[1])) || (t.len() >= 3 && t[0] == 'i' && t[1]
        == 'q' && is_ascii_digit(t[2])) || (t.len() >= 3 && t[0] == 't' && t[1] == 'q'
        && is_ascii_digit(t[2]))
}

pub fn looks_like_shard_number(token: &[char]) -> (r: bool)
    ensures
        r == looks_like_shard_number_spec(token@),
{
    token.len() == 5 && is_ascii_digit(token[0]) && is_ascii_digit(token[1]) && is_ascii_digit(
        token[2],
    ) && is_ascii_digit(token[3]) && is_ascii_digit(token[4])
}

fn identity_token_exec(t: &[char]) -> (r: bool)
    ensures
        r == identity_token(t@),
{
    !chars_equal(t, lit("mmproj").as_slice()) && !is_quantization_token(t)
        && !looks_like_shard_number(t)
}

/// Appends a finished token's contribution to the identity text.
fn finish_token(out: &mut Vec<char>, token: &[char])
    ensures
        final(out)@ == old(out)@ + (if identity_token(ascii_lower(token@)) {
            ascii_lower(token@)
        } else {
            Seq::empty()
        }),
{
    let lowered = lower_all(token);
    if identity_token_exec(lowered.as_slice()) {
        crate::text::append_chars(out, lowered.as_slice());
    } else {
        assert(old(out)@ + Seq::<char>::empty() =~= old(out)@);
    }
}

/// The identity a name gives: its ASCII letter-and-digit runs, lowercased, without `mmproj`,
/// quantization tokens and shard numbers, run together.
pub fn normalize_identity(value: &str) -> (r: String)
    ensures
        r@ == normalize_identity_spec(value@),
{
    let s = chars_of(value);
    let mut out: Vec<char> = Vec::new();
    let mut cur: Vec<char> = Vec::new();
    let ghost mut toks: Seq<Seq<char>> = Seq::empty();
    let mut i: usize = 0;
    assert(s@.take(0) =~= Seq::<char>::empty());
    while i < s.len()
        invariant
            i <= s@.len(),
            alnum_tokens(s@.take(i as int)) == if cur@.len() > 0 {
                toks.push(cur@)
            } else {
                toks
            },
            out@ == identity_text(toks),
            cur@.len() > 0 <==> (i > 0 && is_alnum(s@[i - 1])),
        decreases s.len() - i,
    {
        let c = s[i];
        let ghost pre = s@.take(i as int);
        assert(s@.take(i + 1).drop_last() =~= pre);
        assert(s@.take(i + 1).last() == c);
        if is_ascii_alphanumeric(c) {
            if cur.len() > 0 {
                let ghost old_cur = cur@;
                cur.push(c);
                assert(s@.take(i + 1)[i - 1] == s@[i - 1]);
                assert(toks.push(old_cur).update(toks.len() as int, old_cur.push(c)) =~= toks.push(
                    cur@,
                ));
            } else {
                cur.push(c);
                assert(cur@ =~= seq![c]);
                if i > 0 {
                    assert(s@.take(i + 1)[i - 1] == s@[i - 1]);
                }
            }
        } else {
            if cur.len() > 0 {
                let ghost finished = cur@;
                finish_token(&mut out, cur.as_slice());
                proof {
                    let next = toks.push(finished);
                    assert(next.drop_last() =~= toks);
                    toks = next;
                }
                cur = Vec::new();
            }
        }
        i += 1;
    }
    if cur.len() > 0 {
        let ghost finished = cur@;
        finish_token(&mut out, cur.as_slice());
        proof {
            let next = toks.push(finished);
            assert(next.drop_last() =~= toks);
            toks = next;
        }
    }
    assert(s@.take(s@.len() as int) =~= s@);
    string_of(out.as_slice())
}

/// The distinct non-empty identities of a basename, a name and a file stem, in that order.
pub open spec fn identities_spec(
    basename: Option<Seq<char>>,
    name: Option<Seq<char>>,
    stem: Option<Seq<char>>,
) -> Seq<Seq<char>> {
    add_identity(add_identity(add_identity(Seq::empty(), basename), name), stem)
}

pub open spec fn add_identity(values: Seq<Seq<char>>, raw: Option<Seq<char>>) -> Seq<Seq<char>> {
    match raw {
        Some(r) => {
            let n = normalize_identity_spec(r);
            if n.len() > 0 && !values.contains(n) {
                values.push(n)
            } else {
                values
            }
        },
        None => values,
    }
}

fn listed_text(values: &Vec<Vec<char>>, t: &[char]) -> (r: bool)
    ensures
        r == crate::text::views(values@).contains(t@),
{
    let ghost vs = crate::text::views(values@);
    let mut k: usize = 0;
    while k < values.len()
        invariant
            k <= values@.len(),
            vs == crate::text::views(values@),
            forall|q: int| 0 <= q < k ==> vs[q] != t@,
        decreases values.len() - k,
    {
        if chars_equal(values[k].as_slice(), t) {
            assert(vs[k as int] == t@);
            return true;
        }
        k += 1;
    }
    false
}

fn add_identity_exec(values: &mut Vec<Vec<char>>, raw: &Option<String>)
    ensures
        crate::text::views(final(values)@) == add_identity(crate::text::views(old(values)@), crate::error::opt_text(*raw)),
{
    match raw {
        Some(r) => {
            let n = normalize_identity(r.as_str());
            let nc = chars_of(n.as_str());
            if nc.len() > 0 {
                if listed_text(values, nc.as_slice()) {
                    return;
                }
                let ghost before = values@;
                values.push(nc);
                proof {
                    crate::text::lemma_views_push(before, values@.last());
                }
            }
        },
        None => {},
    }
}

pub fn identities(basename: &Option<String>, name: &Option<String>, stem: &Option<String>) -> (r:
    Vec<Vec<char>>)
    ensures
        crate::text::views(r@) == identities_spec(
            crate::error::opt_text(*basename),
            crate::error::opt_text(*name),
            crate::error::opt_text(*stem),
        ),
{
    let mut values: Vec<Vec<char>> = Vec::new();
    assert(crate::text::views(values@) =~= Seq::<Seq<char>>::empty());
    add_identity_exec(&mut values, basename);
    add_identity_exec(&mut values, name);
    add_identity_exec(&mut values, stem);
    values
}

/// Two identities match when equal, or when both have at least six characters and one holds
/// the other.
pub open spec fn identity_match(a: Seq<char>, b: Seq<char>) -> bool {
    a == b || (a.len() >= 6 && b.len() >= 6 && (contains(a, b) || contains(b, a)))
}

pub open spec fn any_identity_matches_spec(left: Seq<Seq<char>>, right: Seq<Seq<char>>) -> bool {
    exists|i: int, j: int|
        0 <= i < left.len() && 0 <= j < right.len() && identity_match(#[trigger] left[i], #[trigger] right[j])
}

pub fn any_identity_matches(left: &Vec<Vec<char>>, right: &Vec<Vec<char>>) -> (r: bool)
    ensures
        r == any_identity_matches_spec(crate::text::views(left@), crate::text::views(right@)),
{
    let ghost l = crate::text::views(left@);
    let ghost rt = crate::text::views(right@);
    let mut i: usize = 0;
    while i < left.len()
        invariant
            i <= left@.len(),
            l == crate::text::views(left@),
            rt == crate::text::views(right@),
            forall|a: int, b: int| 0 <= a < i && 0 <= b < rt.len() ==> !identity_match(#[trigger] l[a], #[trigger] rt[b]),
        decreases left.len() - i,
    {
        let mut j: usize = 0;
        while j < right.len()
            invariant
                i < left@.len(),
                j <= right@.len(),
                l == crate::text::views(left@),
                rt == crate::text::views(right@),
                forall|a: int, b: int| 0 <= a < i && 0 <= b < rt.len() ==> !identity_match(#[trigger] l[a], #[trigger] rt[b]),
                forall|b: int| 0 <= b < j ==> !identity_match(l[i as int], #[trigger] rt[b]),
            decreases right.len() - j,
        {
            let a = left[i].as_slice();
            let b = right[j].as_slice();
            assert(l[i as int] == a@);
            assert(rt[j as int] == b@);
            if chars_equal(a, b) || (a.len() >= 6 && b.len() >= 6 && (contains_exec(a, b)
                || contains_exec(b, a))) {
                return true;
            }
            j += 1;
        }
        i += 1;
    }
    false
}

} // verus!
