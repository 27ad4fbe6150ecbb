//! The `name-00001-of-00004.gguf` naming of a model split into shards.
use vstd::prelude::*;

use crate::text::{
    all_digits, chars_of, is_ascii_digit, lit, parse_u32, parse_u32_exec, rsplit_once,
    rsplit_once_exec, rsplit_once_seq, rsplit_once_seq_exec, string_of, strip_suffix,
    strip_suffix_exec,
};

verus! {

#[derive(Debug, Clone, PartialEq, Eq)]
pub struct SplitName {
    pub prefix: String,
    pub index: u32,
    pub count: u32,
}

/// The file name without its `.gguf` or `.GGUF` extension.
pub open spec fn gguf_stem(filename: Seq<char>) -> Option<Seq<char>> {
    match strip_suffix(filename, ".gguf"@) {
        Some(stem) => Some(stem),
        None => strip_suffix(filename, ".GGUF"@),
    }
}

/// The shard suffix: a non-empty prefix, then `-`, five digits, `-of-` and five more digits,
/// with a count above one and an index from one up to the count.
pub open spec fn split_spec(filename: Seq<char>) -> Option<(Seq<char>, u32, u32)> {
    match gguf_stem(filename) {
        Some(stem) => match rsplit_once_seq(stem, "-of-"@) {
            Some((before_count, count_text)) => match rsplit_once(before_count, '-') {
                Some((prefix, index_text)) => if prefix.len() > 0 && index_text.len() == 5
                    && count_text.len() == 5 && all_digits(index_text) && all_digits(count_text) {
                    match (parse_u32(index_text), parse_u32(count_text)) {
                        (Some(index), Some(count)) => if count > 1 && index > 0 && index
                            <= count {
                            Some((prefix, index, count))
                        } else {
                            None
                        },
                        _ => None,
                    }
                } else {
                    None
                },
                None => None,
            },
            None => None,
        },
        None => None,
    }
}

fn digits_only(s: &[char]) -> (r: bool)
    ensures
        r == all_digits(s@),
{
    let mut i: usize = 0;
    while i < s.len()
        invariant
            i <= s@.len(),
            forall|k: int| 0 <= k < i ==> crate::text::is_digit(s@[k]),
        decreases s.len() - i,
    {
        if !is_ascii_digit(s[i]) {
            return false;
        }
        i += 1;
    }
    true
}

/// Parses the conventional `name-00001-of-00004.gguf` shard suffix.
pub fn parse_split_filename(filename: &str) -> (r: Option<SplitName>)
    ensures
        match (r, split_spec(filename@)) {
            (Some(n), Some((prefix, index, count))) => n.prefix@ == prefix && n.index == index
                && n.count == count,
            (None, None) => true,
            _ => false,
        },
{
    let name = chars_of(filename);
    let stem = match strip_suffix_exec(name.as_slice(), lit(".gguf").as_slice()) {
        Some(stem) => stem,
        None => match strip_suffix_exec(name.as_slice(), lit(".GGUF").as_slice()) {
            Some(stem) => stem,
            None => return None,
        },
    };
    let (before_count, count_text) = match rsplit_once_seq_exec(
        stem.as_slice(),
        lit("-of-").as_slice(),
    ) {
        Some(parts) => parts,
        None => return None,
    };
    let (prefix, index_text) = match rsplit_once_exec(before_count.as_slice(), '-') {
        Some(parts) => parts,
        None => return None,
    };
    if prefix.len() == 0 || index_text.len() != 5 || count_text.len() != 5 || !digits_only(
        index_text.as_slice(),
    ) || !digits_only(count_text.as_slice()) {
        return None;
    }
    let index = match parse_u32_exec(index_text.as_slice()) {
        Some(v) => v,
        None => return None,
    };
    let count = match parse_u32_exec(count_text.as_slice()) {
        Some(v) => v,
        None => return None,
    };
    if count > 1 && index > 0 && index <= count {
        Some(SplitName { prefix: string_of(prefix.as_slice()), index, count })
    } else {
        None
    }
}

} // verus!
