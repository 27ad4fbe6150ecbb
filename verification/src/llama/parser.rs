//! Reading llama-server's `--version`, `--help` and `--list-devices` output.
use vstd::prelude::*;

use crate::error::{kept_details, opt_text, AppError, AppResult, ErrorCode};
use crate::text_map::TextMap;
use crate::llama::capabilities::LlamaDevice;
use crate::text::{all_in_class, all_in_class_exec, ascii_lower, chars_equal, chars_of, contains, contains_exec, copy_range, find_seq, find_seq_from, first_word, is_ws, lemma_run_end, lemma_views_push, lines, lines_exec, lit, lower_all, parse_u64, parse_u64_exec, rfind_seq, run_end, run_end_exec, skip_ws, skip_ws_from, split, split_exec, split_once, split_once_exec, split_once_seq, split_once_seq_exec, string_of, strip_suffix, strip_suffix_exec, texts, trim, trim_class, trim_class_exec, trimmed, utf8_len, utf8_len_upto, views, words, words_exec, CharClass, rsplit_once, rsplit_once_exec, starts_with, starts_with_exec};

verus! {

// ---------------------------------------------------------------------------------------------
// Version
// ---------------------------------------------------------------------------------------------

/// The non-blank lines, trimmed, of the first `n` lines.
pub open spec fn trimmed_lines_upto(ls: Seq<Seq<char>>, n: int) -> Seq<Seq<char>>
    decreases n,
{
    if n <= 0 {
        seq![]
    } else if trim(ls[n - 1]).len() == 0 {
        trimmed_lines_upto(ls, n - 1)
    } else {
        trimmed_lines_upto(ls, n - 1).push(trim(ls[n - 1]))
    }
}

pub open spec fn trimmed_lines(output: Seq<char>) -> Seq<Seq<char>> {
    trimmed_lines_upto(lines(output), lines(output).len() as int)
}

/// Index of the first line at or after `i` that starts with `version:` in any ASCII case.
pub open spec fn version_line_index(ls: Seq<Seq<char>>, i: int) -> int
    decreases ls.len() - i,
{
    if i < 0 || i >= ls.len() {
        ls.len() as int
    } else if starts_with(ascii_lower(ls[i]), "version:"@) {
        i
    } else {
        version_line_index(ls, i + 1)
    }
}

/// The line carrying the version: the first `version:` line, else the first line.
pub open spec fn version_line(ls: Seq<Seq<char>>) -> Option<Seq<char>> {
    let k = version_line_index(ls, 0);
    if k < ls.len() {
        Some(ls[k])
    } else if ls.len() > 0 {
        Some(ls[0])
    } else {
        None
    }
}

/// The text after a `version:` label, or the whole line when it has none.
pub open spec fn version_value(line: Seq<char>) -> Seq<char> {
    match split_once(line, ':') {
        Some((label, value)) => if ascii_lower(trim(label)) == "version"@ {
            trim(value)
        } else {
            line
        },
        None => line,
    }
}

/// The version proper: what precedes ` (build`, trimmed.
pub open spec fn version_text(value: Seq<char>) -> Seq<char> {
    trim(
        match split_once_seq(value, " (build"@) {
            Some((v, _)) => v,
            None => value,
        },
    )
}

/// The ASCII letters and digits after the word `commit`, past any separators.
pub open spec fn extract_commit_spec(line: Seq<char>) -> Option<Seq<char>> {
    let i = find_seq(ascii_lower(line), "commit"@, 0);
    if i < 0 {
        None
    } else {
        let a = run_end(line, CharClass::Separator, i + 6);
        let b = run_end(line, CharClass::AsciiAlphanumeric, a);
        if b > a {
            Some(line.subrange(a, b))
        } else {
            None
        }
    }
}

/// A version like `b4021-a1b2c3d4` carries its commit after the last `-`: at least seven hex
/// digits.
pub open spec fn commit_from_version_spec(version: Seq<char>) -> Option<Seq<char>> {
    match rsplit_once(version, '-') {
        Some((_, candidate)) => if candidate.len() >= 7 && forall|m: int|
            0 <= m < candidate.len() ==> crate::text::is_hex(#[trigger] candidate[m]) {
            Some(candidate)
        } else {
            None
        },
        None => None,
    }
}

/// The version and commit, from the current `version: … (build …, commit …)` output or an older
/// one-line build.
pub open spec fn parse_version_spec(output: Seq<char>) -> Option<(Seq<char>, Option<Seq<char>>)> {
    match version_line(trimmed_lines(output)) {
        None => None,
        Some(line) => {
            let version = version_text(version_value(line));
            if version.len() == 0 {
                None
            } else {
                Some(
                    (
                        version,
                        match extract_commit_spec(line) {
                            Some(c) => Some(c),
                            None => commit_from_version_spec(version),
                        },
                    ),
                )
            }
        },
    }
}

fn trimmed_lines_exec(output: &[char]) -> (r: Vec<Vec<char>>)
    ensures
        views(r@) == trimmed_lines(output@),
{
    let all = lines_exec(output);
    let ghost ls = lines(output@);
    let mut out: Vec<Vec<char>> = Vec::new();
    let mut i: usize = 0;
    while i < all.len()
        invariant
            i <= all@.len(),
            views(all@) == ls,
            views(out@) == trimmed_lines_upto(ls, i as int),
        decreases all.len() - i,
    {
        assert(all@[i as int]@ == ls[i as int]);
        let t = trimmed(all[i].as_slice());
        if t.len() > 0 {
            proof {
                lemma_views_push(out@, t);
            }
            out.push(t);
        }
        i += 1;
    }
    out
}

fn extract_commit(line: &[char]) -> (r: Option<Vec<char>>)
    ensures
        match r {
            Some(c) => extract_commit_spec(line@) == Some(c@),
            None => extract_commit_spec(line@) is None,
        },
{
    let lower = lower_all(line);
    match find_seq_from(lower.as_slice(), lit("commit").as_slice(), 0) {
        None => None,
        Some(i) => {
            proof {
                crate::text::lemma_find_seq(lower@, "commit"@, 0);
                reveal_strlit("commit");
            }
            assert(i + 6 <= lower@.len());
            assert(lower@.len() == line@.len());
            let n = line.len();
            let start: usize = i + 6;
            let a = run_end_exec(line, CharClass::Separator, start);
            let b = run_end_exec(line, CharClass::AsciiAlphanumeric, a);
            if b > a {
                Some(copy_range(line, a, b))
            } else {
                None
            }
        },
    }
}

fn commit_from_version(version: &[char]) -> (r: Option<Vec<char>>)
    ensures
        match r {
            Some(c) => commit_from_version_spec(version@) == Some(c@),
            None => commit_from_version_spec(version@) is None,
        },
{
    match rsplit_once_exec(version, '-') {
        Some((head, candidate)) => {
            if candidate.len() < 7 {
                return None;
            }
            let mut i: usize = 0;
            while i < candidate.len()
                invariant
                    i <= candidate@.len(),
                    candidate@.len() >= 7,
                    rsplit_once(version@, '-') == Some((head@, candidate@)),
                    forall|m: int| 0 <= m < i ==> crate::text::is_hex(#[trigger] candidate@[m]),
                decreases candidate.len() - i,
            {
                if !crate::text::is_ascii_hexdigit(candidate[i]) {
                    assert(!crate::text::is_hex(candidate@[i as int]));
                    return None;
                }
                i += 1;
            }
            Some(candidate)
        },
        None => None,
    }
}

fn is_version_line(line: &[char]) -> (r: bool)
    ensures
        r == starts_with(ascii_lower(line@), "version:"@),
{
    let lowered = lower_all(line);
    starts_with_exec(lowered.as_slice(), lit("version:").as_slice())
}

/// Supports both the current `version: … (build …, commit …)` output and older one-line builds.
pub fn parse_version(output: &str) -> (r: Option<(String, Option<String>)>)
    ensures
        match (r, parse_version_spec(output@)) {
            (Some((v, c)), Some((sv, sc))) => v@ == sv && opt_text(c) == sc,
            (None, None) => true,
            _ => false,
        },
{
    let text = chars_of(output);
    let ls = trimmed_lines_exec(text.as_slice());
    let ghost gl = trimmed_lines(output@);
    let mut k: usize = 0;
    while k < ls.len() && !is_version_line(ls[k].as_slice())
        invariant
            k <= ls@.len(),
            views(ls@) == gl,
            version_line_index(gl, 0) == version_line_index(gl, k as int),
        decreases ls.len() - k,
    {
        assert(ls@[k as int]@ == gl[k as int]);
        k += 1;
    }
    if k < ls.len() {
        assert(ls@[k as int]@ == gl[k as int]);
    } else if ls.len() > 0 {
        assert(ls@[0]@ == gl[0]);
    }
    let line: &Vec<char> = if k < ls.len() {
        &ls[k]
    } else if ls.len() > 0 {
        &ls[0]
    } else {
        return None;
    };
    assert(version_line(gl) == Some(line@));
    let value: Vec<char> = match split_once_exec(line.as_slice(), ':') {
        Some((label, rest)) => {
            let lowered = lower_all(trimmed(label.as_slice()).as_slice());
            if chars_equal(lowered.as_slice(), lit("version").as_slice()) {
                trimmed(rest.as_slice())
            } else {
                line.clone()
            }
        },
        None => line.clone(),
    };
    assert(value@ == version_value(line@));
    let version: Vec<char> = match split_once_seq_exec(value.as_slice(), lit(" (build").as_slice()) {
        Some((v, _)) => trimmed(v.as_slice()),
        None => trimmed(value.as_slice()),
    };
    if version.len() == 0 {
        return None;
    }
    let commit = match extract_commit(line.as_slice()) {
        Some(c) => Some(string_of(c.as_slice())),
        None => match commit_from_version(version.as_slice()) {
            Some(c) => Some(string_of(c.as_slice())),
            None => None,
        },
    };
    Some((string_of(version.as_slice()), commit))
}

// ---------------------------------------------------------------------------------------------
// Devices
// ---------------------------------------------------------------------------------------------

/// A device as plain values.
pub struct DeviceModel {
    pub id: Seq<char>,
    pub name: Seq<char>,
    pub backend: Option<Seq<char>>,
    pub memory_total_mib: Option<u64>,
    pub memory_free_mib: Option<u64>,
    pub raw: Seq<char>,
}

pub open spec fn device_model(d: LlamaDevice) -> DeviceModel {
    DeviceModel {
        id: d.id@,
        name: d.name@,
        backend: opt_text(d.backend),
        memory_total_mib: d.memory_total_mib,
        memory_free_mib: d.memory_free_mib,
        raw: d.raw@,
    }
}

pub open spec fn device_models(v: Seq<LlamaDevice>) -> Seq<DeviceModel> {
    Seq::new(v.len(), |i: int| device_model(v[i]))
}

/// The number at the start of a memory figure such as `24564 MiB`.
pub open spec fn mib_spec(value: Seq<char>) -> Option<u64> {
    match first_word(value) {
        Some(w) => parse_u64(w),
        None => None,
    }
}

/// The name and memory of a description like `NVIDIA RTX 4090 (24564 MiB, 22104 MiB free)`;
/// without a trailing parenthesised MiB figure the whole text is the name.
pub open spec fn device_description_spec(value: Seq<char>) -> (Seq<char>, Option<u64>, Option<u64>) {
    let open = rfind_seq(value, " ("@, value.len() - 2);
    if open < 0 {
        (value, None, None)
    } else {
        match strip_suffix(value.skip(open + 2), ")"@) {
            None => (value, None, None),
            Some(memory) => if !contains(memory, "MiB"@) {
                (value, None, None)
            } else {
                let parts = split(memory, ',');
                (
                    trim(value.take(open)),
                    mib_spec(parts[0]),
                    if parts.len() > 1 {
                        mib_spec(parts[1])
                    } else {
                        None
                    },
                )
            },
        }
    }
}

/// The backend a device id starts with, such as `CUDA` in `CUDA0`.
pub open spec fn device_backend_spec(id: Seq<char>) -> Option<Seq<char>> {
    let e = run_end(id, CharClass::AsciiAlphabeticOrUnderscore, 0);
    if e > 0 {
        Some(id.take(e))
    } else {
        None
    }
}

/// Bytes of leading whitespace on a line.
pub open spec fn leading_bytes(line: Seq<char>) -> int {
    utf8_len(line.take(skip_ws(line, 0)))
}

/// One line of `--list-devices`: whether the header has been seen after it, and the device it
/// lists. Device rows come after the `Available devices:` header and are indented by at least two
/// bytes, which keeps backend diagnostics from being mistaken for devices.
pub open spec fn device_line(raw: Seq<char>, after_header: bool) -> (bool, Option<DeviceModel>) {
    let line = trim(raw);
    if ascii_lower(line) == "available devices:"@ {
        (true, None)
    } else if !after_header || leading_bytes(raw) < 2 || line.len() == 0 || ascii_lower(line)
        == "(none)"@ {
        (after_header, None)
    } else {
        match split_once(line, ':') {
            None => (after_header, None),
            Some((id0, rest)) => {
                let id = trim(id0);
                if id.len() == 0 || exists|m: int| 0 <= m < id.len() && is_ws(#[trigger] id[m]) {
                    (after_header, None)
                } else {
                    let d = device_description_spec(trim(rest));
                    (
                        after_header,
                        Some(
                            DeviceModel {
                                id,
                                name: d.0,
                                backend: device_backend_spec(id),
                                memory_total_mib: d.1,
                                memory_free_mib: d.2,
                                raw: line,
                            },
                        ),
                    )
                }
            },
        }
    }
}

/// The devices of the first `n` lines, and whether the header was seen.
pub open spec fn devices_upto(ls: Seq<Seq<char>>, n: int) -> (bool, Seq<DeviceModel>)
    decreases n,
{
    if n <= 0 {
        (false, seq![])
    } else {
        let prev = devices_upto(ls, n - 1);
        let step = device_line(ls[n - 1], prev.0);
        (
            step.0,
            match step.1 {
                Some(d) => prev.1.push(d),
                None => prev.1,
            },
        )
    }
}

pub open spec fn parse_devices_spec(output: Seq<char>) -> Seq<DeviceModel> {
    devices_upto(lines(output), lines(output).len() as int).1
}

fn parse_mib(value: &[char]) -> (r: Option<u64>)
    ensures
        r == mib_spec(value@),
{
    let ws = words_exec(value);
    if ws.len() > 0 {
        assert(ws@[0]@ == words(value@)[0]);
        parse_u64_exec(ws[0].as_slice())
    } else {
        None
    }
}

fn parse_device_description(value: &[char]) -> (r: (Vec<char>, Option<u64>, Option<u64>))
    ensures
        (r.0@, r.1, r.2) == device_description_spec(value@),
{
    proof {
        reveal_strlit(" (");
    }
    match crate::text::rsplit_once_seq_exec(value, lit(" (").as_slice()) {
        None => {
            assert(rfind_seq(value@, " ("@, value@.len() - 2) < 0);
            (copy_range(value, 0, value.len()), None, None)
        },
        Some((before, after)) => {
            let ghost open = rfind_seq(value@, " ("@, value@.len() - 2);
            assert(open >= 0);
            assert(after@ == value@.skip(open + 2));
            assert(before@ == value@.take(open));
            match strip_suffix_exec(after.as_slice(), lit(")").as_slice()) {
                None => (copy_range(value, 0, value.len()), None, None),
                Some(memory) => {
                    if !contains_exec(memory.as_slice(), lit("MiB").as_slice()) {
                        return (copy_range(value, 0, value.len()), None, None);
                    }
                    let parts = split_exec(memory.as_slice(), ',');
                    proof {
                        crate::text::lemma_split_nonempty(memory@, ',');
                    }
                    assert(parts@[0]@ == split(memory@, ',')[0]);
                    let total = parse_mib(parts[0].as_slice());
                    let free = if parts.len() > 1 {
                        assert(parts@[1]@ == split(memory@, ',')[1]);
                        parse_mib(parts[1].as_slice())
                    } else {
                        None
                    };
                    (trimmed(before.as_slice()), total, free)
                },
            }
        },
    }
}

fn device_backend(id: &[char]) -> (r: Option<String>)
    ensures
        opt_text(r) == device_backend_spec(id@),
{
    let e = run_end_exec(id, CharClass::AsciiAlphabeticOrUnderscore, 0);
    if e > 0 {
        Some(crate::text::string_range(id, 0, e))
    } else {
        None
    }
}

fn has_whitespace(s: &[char]) -> (r: bool)
    ensures
        r == exists|m: int| 0 <= m < s@.len() && is_ws(#[trigger] s@[m]),
{
    let mut i: usize = 0;
    while i < s.len()
        invariant
            i <= s@.len(),
            forall|m: int| 0 <= m < i ==> !is_ws(#[trigger] s@[m]),
        decreases s.len() - i,
    {
        if crate::text::is_whitespace(s[i]) {
            return true;
        }
        i += 1;
    }
    false
}

fn device_line_exec(raw: &[char], after_header: bool) -> (r: (bool, Option<LlamaDevice>))
    ensures
        ({
            let s = device_line(raw@, after_header);
            &&& r.0 == s.0
            &&& match (r.1, s.1) {
                (Some(d), Some(m)) => device_model(d) == m,
                (None, None) => true,
                _ => false,
            }
        }),
{
    let line = trimmed(raw);
    let lowered = lower_all(line.as_slice());
    if chars_equal(lowered.as_slice(), lit("available devices:").as_slice()) {
        return (true, None);
    }
    let lead = skip_ws_from(raw, 0);
    let bytes = utf8_len_upto(raw, 0, lead, 8);
    assert(raw@.subrange(0, lead as int) =~= raw@.take(lead as int));
    if !after_header || bytes < 2 || line.len() == 0 || chars_equal(
        lowered.as_slice(),
        lit("(none)").as_slice(),
    ) {
        return (after_header, None);
    }
    match split_once_exec(line.as_slice(), ':') {
        None => (after_header, None),
        Some((id0, rest)) => {
            let id = trimmed(id0.as_slice());
            if id.len() == 0 || has_whitespace(id.as_slice()) {
                return (after_header, None);
            }
            let (name, total, free) = parse_device_description(trimmed(rest.as_slice()).as_slice());
            let device = LlamaDevice {
                id: string_of(id.as_slice()),
                name: string_of(name.as_slice()),
                backend: device_backend(id.as_slice()),
                memory_total_mib: total,
                memory_free_mib: free,
                raw: string_of(line.as_slice()),
            };
            (after_header, Some(device))
        },
    }
}

/// Reads the devices that `--list-devices` reports.
pub fn parse_devices(output: &str) -> (r: Vec<LlamaDevice>)
    ensures
        device_models(r@) == parse_devices_spec(output@),
{
    let text = chars_of(output);
    let all = lines_exec(text.as_slice());
    let ghost ls = lines(output@);
    let mut after = false;
    let mut out: Vec<LlamaDevice> = Vec::new();
    let mut i: usize = 0;
    while i < all.len()
        invariant
            i <= all@.len(),
            views(all@) == ls,
            after == devices_upto(ls, i as int).0,
            device_models(out@) == devices_upto(ls, i as int).1,
        decreases all.len() - i,
    {
        assert(all@[i as int]@ == ls[i as int]);
        let (next, found) = device_line_exec(all[i].as_slice(), after);
        after = next;
        if let Some(d) = found {
            let ghost before = out@;
            out.push(d);
            assert(device_models(out@) =~= device_models(before).push(device_model(d)));
        }
        i += 1;
    }
    out
}

// ---------------------------------------------------------------------------------------------
// Comma-separated value hints
// ---------------------------------------------------------------------------------------------

/// The values of the first `n` comma-separated parts, trimmed, keeping only non-empty
/// identifiers.
pub open spec fn comma_values_upto(parts: Seq<Seq<char>>, n: int) -> Seq<Seq<char>>
    decreases n,
{
    if n <= 0 {
        seq![]
    } else {
        let v = trim(parts[n - 1]);
        if v.len() > 0 && all_in_class(v, CharClass::Identifier) {
            comma_values_upto(parts, n - 1).push(v)
        } else {
            comma_values_upto(parts, n - 1)
        }
    }
}

/// The values of a hint such as `<none,draft-simple,ngram-cache>`.
pub open spec fn comma_values_spec(hint: Seq<char>) -> Seq<Seq<char>> {
    let parts = split(trim_class(hint, CharClass::AngleOrSquare), ',');
    comma_values_upto(parts, parts.len() as int)
}

pub fn parse_comma_values(value_hint: &str) -> (r: Vec<String>)
    ensures
        texts(r@) == comma_values_spec(value_hint@),
{
    let hint = chars_of(value_hint);
    let inner = trim_class_exec(hint.as_slice(), CharClass::AngleOrSquare);
    let parts = split_exec(inner.as_slice(), ',');
    let ghost ps = split(inner@, ',');
    let mut out: Vec<String> = Vec::new();
    let mut i: usize = 0;
    while i < parts.len()
        invariant
            i <= parts@.len(),
            views(parts@) == ps,
            texts(out@) == comma_values_upto(ps, i as int),
        decreases parts.len() - i,
    {
        assert(parts@[i as int]@ == ps[i as int]);
        let v = trimmed(parts[i].as_slice());
        if v.len() > 0 && all_in_class_exec(v.as_slice(), CharClass::Identifier) {
            let s = string_of(v.as_slice());
            let ghost before = out@;
            out.push(s);
            proof {
                crate::text::lemma_texts_push(before, s);
            }
        }
        i += 1;
    }
    out
}

// ---------------------------------------------------------------------------------------------
// Help
// ---------------------------------------------------------------------------------------------

/// An option's lines as read from `--help`, before its header is interpreted.
pub struct ParsedModel {
    pub section: Seq<char>,
    pub header: Seq<char>,
    pub description: Seq<Seq<char>>,
}

#[derive(Debug, Clone)]
pub struct ParsedOption {
    pub section: String,
    pub header: String,
    pub description: Vec<String>,
}

impl View for ParsedOption {
    type V = ParsedModel;

    open spec fn view(&self) -> ParsedModel {
        ParsedModel { section: self.section@, header: self.header@, description: texts(self.description@) }
    }
}

/// The name of a `----- name -----` section header.
pub open spec fn section_header_spec(line: Seq<char>) -> Option<Seq<char>> {
    match crate::text::strip_prefix(line, "-----"@) {
        Some(a) => match strip_suffix(a, "-----"@) {
            Some(b) => if trim(b).len() > 0 {
                Some(trim(b))
            } else {
                None
            },
            None => None,
        },
        None => None,
    }
}

/// An option starts on a line indented by at most eight bytes whose text starts with `-`.
pub open spec fn option_start_spec(line: Seq<char>) -> bool {
    leading_bytes(line) <= 8 && starts_with(line.skip(skip_ws(line, 0)), "-"@)
}

/// Splits a header line at the first run of two or more ASCII blanks that follows a `-` and is
/// not followed by another flag; with no such run the whole line is the header.
pub open spec fn split_header_from(line: Seq<char>, i: int) -> (Seq<char>, Seq<char>)
    decreases line.len() - i,
{
    if i < 0 || i >= line.len() {
        (trim(line), seq![])
    } else if !crate::text::is_ascii_ws(line[i]) {
        split_header_from(line, i + 1)
    } else {
        let end = run_end(line, CharClass::AsciiWhitespace, i);
        let suffix = line.skip(end).skip(skip_ws(line.skip(end), 0));
        if end <= i {
            (trim(line), seq![])
        } else if end - i >= 2 && !starts_with(suffix, "-"@) && contains(line.take(i), "-"@) {
            (crate::text::trim_end(line.take(i)), suffix)
        } else {
            proof {
                lemma_run_end(line, CharClass::AsciiWhitespace, i);
            }
            split_header_from(line, end)
        }
    }
}

/// What the help reader carries from line to line.
pub struct HelpState {
    pub section: Seq<char>,
    pub parsed: Seq<ParsedModel>,
    pub current: Option<ParsedModel>,
}

/// The options read so far, including the one still being read.
pub open spec fn flushed(st: HelpState) -> Seq<ParsedModel> {
    match st.current {
        Some(c) => st.parsed.push(c),
        None => st.parsed,
    }
}

/// One line of help: blank lines are skipped; a section header starts a section; an option
/// line starts an option; any other line continues the current option's description.
pub open spec fn help_step(st: HelpState, raw: Seq<char>) -> HelpState {
    let line = crate::text::trim_end(raw);
    let t = trim(line);
    if t.len() == 0 {
        st
    } else {
        match section_header_spec(t) {
            Some(name) => HelpState { section: name, parsed: flushed(st), current: None },
            None => if option_start_spec(line) {
                let hd = split_header_from(t, 0);
                HelpState {
                    section: st.section,
                    parsed: flushed(st),
                    current: Some(
                        ParsedModel {
                            section: st.section,
                            header: hd.0,
                            description: if hd.1.len() == 0 {
                                seq![]
                            } else {
                                seq![hd.1]
                            },
                        },
                    ),
                }
            } else {
                match st.current {
                    Some(c) => HelpState {
                        section: st.section,
                        parsed: st.parsed,
                        current: Some(
                            ParsedModel {
                                section: c.section,
                                header: c.header,
                                description: c.description.push(t),
                            },
                        ),
                    },
                    None => st,
                }
            },
        }
    }
}

pub open spec fn help_upto(ls: Seq<Seq<char>>, n: int) -> HelpState
    decreases n,
{
    if n <= 0 {
        HelpState { section: "common params"@, parsed: seq![], current: None }
    } else {
        help_step(help_upto(ls, n - 1), ls[n - 1])
    }
}

/// The options of a help text, in the order they appear.
pub open spec fn parsed_options_spec(output: Seq<char>) -> Seq<ParsedModel> {
    flushed(help_upto(lines(output), lines(output).len() as int))
}

fn section_header(line: &[char]) -> (r: Option<Vec<char>>)
    ensures
        match r {
            Some(v) => section_header_spec(line@) == Some(v@),
            None => section_header_spec(line@) is None,
        },
{
    match crate::text::strip_prefix_exec(line, lit("-----").as_slice()) {
        Some(a) => match strip_suffix_exec(a.as_slice(), lit("-----").as_slice()) {
            Some(b) => {
                let t = trimmed(b.as_slice());
                if t.len() > 0 {
                    Some(t)
                } else {
                    None
                }
            },
            None => None,
        },
        None => None,
    }
}

fn option_start(line: &[char]) -> (r: bool)
    ensures
        r == option_start_spec(line@),
{
    let lead = skip_ws_from(line, 0);
    let bytes = utf8_len_upto(line, 0, lead, 8);
    assert(line@.subrange(0, lead as int) =~= line@.take(lead as int));
    if bytes > 8 {
        return false;
    }
    let rest = copy_range(line, lead, line.len());
    assert(rest@ =~= line@.skip(lead as int));
    starts_with_exec(rest.as_slice(), lit("-").as_slice())
}

fn split_header(line: &[char]) -> (r: (Vec<char>, Vec<char>))
    ensures
        (r.0@, r.1@) == split_header_from(line@, 0),
{
    let mut i: usize = 0;
    while i < line.len()
        invariant
            i <= line@.len(),
            split_header_from(line@, 0) == split_header_from(line@, i as int),
        decreases line.len() - i,
    {
        if !crate::text::is_ascii_whitespace(line[i]) {
            i += 1;
        } else {
            let end = run_end_exec(line, CharClass::AsciiWhitespace, i);
            proof {
                lemma_run_end(line@, CharClass::AsciiWhitespace, i as int);
            }
            let after = copy_range(line, end, line.len());
            assert(after@ =~= line@.skip(end as int));
            let lead = skip_ws_from(after.as_slice(), 0);
            let suffix = copy_range(after.as_slice(), lead, after.len());
            assert(suffix@ =~= after@.skip(lead as int));
            let head = copy_range(line, 0, i);
            assert(head@ =~= line@.take(i as int));
            if end - i >= 2 && !starts_with_exec(suffix.as_slice(), lit("-").as_slice())
                && contains_exec(head.as_slice(), lit("-").as_slice()) {
                return (crate::text::trim_end_vec(head.as_slice()), suffix);
            }
            i = end;
        }
    }
    (trimmed(line), Vec::new())
}

/// Reads the options of a help text, in the order they appear.
pub fn parse_options(output: &[char]) -> (r: Vec<ParsedOption>)
    ensures
        Seq::new(r@.len(), |i: int| r@[i]@) == parsed_options_spec(output@),
{
    let all = lines_exec(output);
    let ghost ls = lines(output@);
    let mut section = "common params".to_string();
    let mut parsed: Vec<ParsedOption> = Vec::new();
    let mut current: Option<ParsedOption> = None;
    let mut i: usize = 0;
    while i < all.len()
        invariant
            i <= all@.len(),
            views(all@) == ls,
            section@ == help_upto(ls, i as int).section,
            Seq::new(parsed@.len(), |k: int| parsed@[k]@) == help_upto(ls, i as int).parsed,
            match (current, help_upto(ls, i as int).current) {
                (Some(c), Some(m)) => c@ == m,
                (None, None) => true,
                _ => false,
            },
        decreases all.len() - i,
    {
        assert(all@[i as int]@ == ls[i as int]);
        let ghost before = parsed@;
        let line = crate::text::trim_end_vec(all[i].as_slice());
        let t = trimmed(line.as_slice());
        if t.len() > 0 {
            match section_header(t.as_slice()) {
                Some(name) => {
                    if let Some(c) = current.take() {
                        parsed.push(c);
                        assert(Seq::new(parsed@.len(), |k: int| parsed@[k]@) =~= Seq::new(
                            before.len(),
                            |k: int| before[k]@,
                        ).push(c@));
                    }
                    section = string_of(name.as_slice());
                },
                None => {
                    if option_start(line.as_slice()) {
                        if let Some(c) = current.take() {
                            parsed.push(c);
                            assert(Seq::new(parsed@.len(), |k: int| parsed@[k]@) =~= Seq::new(
                                before.len(),
                                |k: int| before[k]@,
                            ).push(c@));
                        }
                        let (header, description) = split_header(t.as_slice());
                        let mut lines_of: Vec<String> = Vec::new();
                        if description.len() > 0 {
                            lines_of.push(string_of(description.as_slice()));
                        }
                        assert(texts(lines_of@) =~= if description@.len() == 0 {
                            seq![]
                        } else {
                            seq![description@]
                        });
                        current = Some(
                            ParsedOption {
                                section: section.clone(),
                                header: string_of(header.as_slice()),
                                description: lines_of,
                            },
                        );
                    } else {
                        match current.take() {
                            Some(mut c) => {
                                let ghost old_description = c.description@;
                                let s = string_of(t.as_slice());
                                c.description.push(s);
                                proof {
                                    crate::text::lemma_texts_push(old_description, s);
                                }
                                current = Some(c);
                            },
                            None => {},
                        }
                    }
                },
            }
        }
        i += 1;
    }
    if let Some(c) = current {
        let ghost before = parsed@;
        parsed.push(c);
        assert(Seq::new(parsed@.len(), |k: int| parsed@[k]@) =~= Seq::new(
            before.len(),
            |k: int| before[k]@,
        ).push(c@));
    }
    parsed
}

// ---------------------------------------------------------------------------------------------
// Options
// ---------------------------------------------------------------------------------------------

/// The header's tokens, each without trailing commas.
pub open spec fn header_tokens(header: Seq<char>) -> Seq<Seq<char>> {
    Seq::new(words(header).len(), |i: int| crate::text::trim_end_char(words(header)[i], ','))
}

/// Index of the first token at or after `i` that does not start with `-`.
pub open spec fn alias_end(ts: Seq<Seq<char>>, i: int) -> int
    decreases ts.len() - i,
{
    if i < 0 || i >= ts.len() {
        ts.len() as int
    } else if !starts_with(ts[i], "-"@) {
        i
    } else {
        alias_end(ts, i + 1)
    }
}

/// Index of the first long flag at or after `i`; negated `--no-` flags count only when
/// `negated_too`.
pub open spec fn long_flag_index(al: Seq<Seq<char>>, negated_too: bool, i: int) -> int
    decreases al.len() - i,
{
    if i < 0 || i >= al.len() {
        al.len() as int
    } else if starts_with(al[i], "--"@) && (negated_too || !starts_with(al[i], "--no-"@)) {
        i
    } else {
        long_flag_index(al, negated_too, i + 1)
    }
}

/// The flag an option is known by: its first positive long flag, else its first long flag,
/// else its first spelling.
pub open spec fn preferred_flag(al: Seq<Seq<char>>) -> Seq<char> {
    let a = long_flag_index(al, false, 0);
    let b = long_flag_index(al, true, 0);
    if a < al.len() {
        al[a]
    } else if b < al.len() {
        al[b]
    } else {
        al[0]
    }
}

/// Each word preceded by a space.
pub open spec fn spaced(ws: Seq<Seq<char>>) -> Seq<char>
    decreases ws.len(),
{
    if ws.len() == 0 {
        seq![]
    } else {
        spaced(ws.drop_last()) + seq![' '] + ws.last()
    }
}

pub open spec fn capitalize_spec(v: Seq<char>) -> Seq<char> {
    if v.len() == 0 {
        seq![]
    } else {
        crate::text::char_uppercase(v[0]) + v.drop_first()
    }
}

/// A readable name for an unknown flag: `--future-flag` reads `Future flag`.
pub open spec fn humanize_spec(flag: Seq<char>) -> Seq<char> {
    let parts = split(crate::text::trim_start_char(flag, '-'), '-');
    capitalize_spec(parts[0]) + spaced(parts.skip(1))
}

/// The option an entry of the help text describes, when its header names at least one flag.
pub open spec fn build_option_spec(p: ParsedModel) -> Option<crate::llama::capabilities::OptionModel> {
    let ts = header_tokens(p.header);
    let k = alias_end(ts, 0);
    if k == 0 {
        None
    } else {
        let aliases = ts.take(k);
        let values = ts.skip(k);
        let flag = preferred_flag(aliases);
        let known = crate::llama::capabilities::known_option_spec(aliases);
        Some(
            crate::llama::capabilities::OptionModel {
                flag,
                aliases,
                value_hint: if values.len() > 0 {
                    Some(crate::text::join(values, ' '))
                } else {
                    None
                },
                description: crate::text::join(p.description, '\n'),
                section: p.section,
                category: match known {
                    Some(d) => d.category,
                    None => crate::llama::capabilities::LlamaOptionCategory::Advanced,
                },
                known_key: match known {
                    Some(d) => Some(d.key@),
                    None => None,
                },
                display_name: match known {
                    Some(d) => d.label@,
                    None => humanize_spec(flag),
                },
                summary: match known {
                    Some(d) => Some(d.summary@),
                    None => None,
                },
            },
        )
    }
}

fn capitalize(v: &[char]) -> (r: Vec<char>)
    ensures
        r@ == capitalize_spec(v@),
{
    if v.len() == 0 {
        return Vec::new();
    }
    let mut out = chars_of(crate::text::uppercase_of(v[0]).as_str());
    let rest = copy_range(v, 1, v.len());
    assert(rest@ =~= v@.drop_first());
    crate::text::append_chars(&mut out, rest.as_slice());
    out
}

fn humanize_flag(flag: &[char]) -> (r: Vec<char>)
    ensures
        r@ == humanize_spec(flag@),
{
    let stripped = crate::text::trim_start_char_exec(flag, '-');
    let parts = split_exec(stripped.as_slice(), '-');
    let ghost ps = split(stripped@, '-');
    proof {
        crate::text::lemma_split_nonempty(stripped@, '-');
    }
    assert(parts@[0]@ == ps[0]);
    let mut out = capitalize(parts[0].as_slice());
    let ghost head = out@;
    let mut i: usize = 1;
    while i < parts.len()
        invariant
            1 <= i <= parts@.len(),
            views(parts@) == ps,
            out@ == head + spaced(ps.skip(1).take(i - 1)),
        decreases parts.len() - i,
    {
        assert(parts@[i as int]@ == ps[i as int]);
        out.push(' ');
        crate::text::append_chars(&mut out, parts[i].as_slice());
        proof {
            let w = ps.skip(1).take(i as int);
            assert(w.drop_last() =~= ps.skip(1).take(i - 1));
            assert(w.last() == ps[i as int]);
        }
        i += 1;
    }
    assert(ps.skip(1).take(parts@.len() - 1) =~= ps.skip(1));
    out
}

fn texts_to_strings(v: &Vec<Vec<char>>) -> (r: Vec<String>)
    ensures
        texts(r@) == views(v@),
{
    let mut out: Vec<String> = Vec::new();
    let mut i: usize = 0;
    while i < v.len()
        invariant
            i <= v@.len(),
            texts(out@) == views(v@).take(i as int),
        decreases v.len() - i,
    {
        let s = string_of(v[i].as_slice());
        let ghost before = out@;
        out.push(s);
        proof {
            crate::text::lemma_texts_push(before, s);
            assert(texts(out@) =~= views(v@).take(i + 1));
        }
        i += 1;
    }
    assert(views(v@).take(v@.len() as int) =~= views(v@));
    out
}

fn strings_to_texts(v: &Vec<String>) -> (r: Vec<Vec<char>>)
    ensures
        views(r@) == texts(v@),
{
    let mut out: Vec<Vec<char>> = Vec::new();
    let mut i: usize = 0;
    while i < v.len()
        invariant
            i <= v@.len(),
            views(out@) == texts(v@).take(i as int),
        decreases v.len() - i,
    {
        let c = chars_of(v[i].as_str());
        proof {
            lemma_views_push(out@, c);
        }
        out.push(c);
        assert(views(out@) =~= texts(v@).take(i + 1));
        i += 1;
    }
    assert(texts(v@).take(v@.len() as int) =~= texts(v@));
    out
}

fn long_flag(al: &Vec<Vec<char>>, negated_too: bool) -> (r: usize)
    ensures
        r == long_flag_index(views(al@), negated_too, 0),
{
    let mut i: usize = 0;
    while i < al.len()
        invariant
            i <= al@.len(),
            long_flag_index(views(al@), negated_too, 0) == long_flag_index(
                views(al@),
                negated_too,
                i as int,
            ),
        decreases al.len() - i,
    {
        assert(views(al@)[i as int] == al@[i as int]@);
        if starts_with_exec(al[i].as_slice(), lit("--").as_slice()) && (negated_too
            || !starts_with_exec(al[i].as_slice(), lit("--no-").as_slice())) {
            return i;
        }
        i += 1;
    }
    i
}

/// Interprets an entry of the help text: its leading flags, its value hint, and the known
/// concept it maps onto.
pub fn build_option(parsed: &ParsedOption) -> (r: Option<crate::llama::capabilities::LlamaOption>)
    ensures
        match (r, build_option_spec(parsed@)) {
            (Some(o), Some(m)) => o@ == m,
            (None, None) => true,
            _ => false,
        },
{
    let header = chars_of(parsed.header.as_str());
    let ws = words_exec(header.as_slice());
    let ghost ts = header_tokens(parsed.header@);
    let mut tokens: Vec<Vec<char>> = Vec::new();
    let mut i: usize = 0;
    while i < ws.len()
        invariant
            i <= ws@.len(),
            views(ws@) == words(parsed.header@),
            ts.len() == ws@.len(),
            ts == header_tokens(parsed.header@),
            views(tokens@) == ts.take(i as int),
        decreases ws.len() - i,
    {
        let t = crate::text::trim_end_char_exec(ws[i].as_slice(), ',');
        proof {
            lemma_views_push(tokens@, t);
        }
        tokens.push(t);
        assert(views(tokens@) =~= ts.take(i + 1));
        i += 1;
    }
    assert(ts.take(ws@.len() as int) =~= ts);
    let mut k: usize = 0;
    while k < tokens.len() && starts_with_exec(tokens[k].as_slice(), lit("-").as_slice())
        invariant
            k <= tokens@.len(),
            views(tokens@) == ts,
            alias_end(ts, 0) == alias_end(ts, k as int),
        decreases tokens.len() - k,
    {
        assert(ts[k as int] == tokens@[k as int]@);
        k += 1;
    }
    if k < tokens.len() {
        assert(ts[k as int] == tokens@[k as int]@);
    }
    if k == 0 {
        return None;
    }
    let mut aliases_chars: Vec<Vec<char>> = Vec::new();
    let mut values: Vec<Vec<char>> = Vec::new();
    let mut j: usize = 0;
    while j < tokens.len()
        invariant
            j <= tokens@.len(),
            k <= tokens@.len(),
            views(tokens@) == ts,
            views(aliases_chars@) == ts.take(if j < k {
                j as int
            } else {
                k as int
            }),
            views(values@) == if j <= k {
                seq![]
            } else {
                ts.subrange(k as int, j as int)
            },
        decreases tokens.len() - j,
    {
        let t = copy_range(tokens[j].as_slice(), 0, tokens[j].len());
        assert(t@ =~= ts[j as int]);
        if j < k {
            proof {
                lemma_views_push(aliases_chars@, t);
            }
            aliases_chars.push(t);
            assert(views(aliases_chars@) =~= ts.take(j + 1));
        } else {
            proof {
                lemma_views_push(values@, t);
            }
            values.push(t);
            assert(views(values@) =~= ts.subrange(k as int, j + 1));
        }
        j += 1;
    }
    assert(ts.subrange(k as int, ts.len() as int) =~= ts.skip(k as int));
    let ghost al = ts.take(k as int);
    let a = long_flag(&aliases_chars, false);
    let b = long_flag(&aliases_chars, true);
    let flag_chars: Vec<char> = if a < aliases_chars.len() {
        copy_range(aliases_chars[a].as_slice(), 0, aliases_chars[a].len())
    } else if b < aliases_chars.len() {
        copy_range(aliases_chars[b].as_slice(), 0, aliases_chars[b].len())
    } else {
        copy_range(aliases_chars[0].as_slice(), 0, aliases_chars[0].len())
    };
    assert(flag_chars@ == preferred_flag(al));
    let aliases = texts_to_strings(&aliases_chars);
    let known = crate::llama::capabilities::known_option(aliases.as_slice());
    let value_hint = if values.len() > 0 {
        Some(string_of(crate::text::join_exec(&values, ' ').as_slice()))
    } else {
        None
    };
    let description_lines = strings_to_texts(&parsed.description);
    let description = string_of(crate::text::join_exec(&description_lines, '\n').as_slice());
    let (category, known_key, display_name, summary) = match known {
        Some(d) => (
            d.category,
            Some(d.key.to_string()),
            d.label.to_string(),
            Some(d.summary.to_string()),
        ),
        None => (
            crate::llama::capabilities::LlamaOptionCategory::Advanced,
            None,
            string_of(humanize_flag(flag_chars.as_slice()).as_slice()),
            None,
        ),
    };
    Some(
        crate::llama::capabilities::LlamaOption {
            flag: string_of(flag_chars.as_slice()),
            aliases,
            value_hint,
            description,
            section: parsed.section.clone(),
            category,
            known_key,
            display_name,
            summary,
        },
    )
}

/// The options built from the first `n` entries, skipping those that name no flag.
pub open spec fn built_upto(ps: Seq<ParsedModel>, n: int) -> Seq<crate::llama::capabilities::OptionModel>
    decreases n,
{
    if n <= 0 {
        seq![]
    } else {
        match build_option_spec(ps[n - 1]) {
            Some(o) => built_upto(ps, n - 1).push(o),
            None => built_upto(ps, n - 1),
        }
    }
}

/// The last option with flag `q`: a later entry for the same flag replaces an earlier one.
pub open spec fn last_with_flag(opts: Seq<crate::llama::capabilities::OptionModel>, q: Seq<char>) -> Option<
    crate::llama::capabilities::OptionModel,
>
    decreases opts.len(),
{
    if opts.len() == 0 {
        None
    } else if opts.last().flag == q {
        Some(opts.last())
    } else {
        last_with_flag(opts.drop_last(), q)
    }
}

/// The options a help text advertises, by flag.
pub open spec fn help_options_spec(output: Seq<char>) -> Seq<crate::llama::capabilities::OptionModel> {
    let ps = parsed_options_spec(output);
    built_upto(ps, ps.len() as int)
}

/// An exec option agrees with a modelled one.
pub open spec fn option_agrees(
    o: Option<crate::llama::capabilities::LlamaOption>,
    m: Option<crate::llama::capabilities::OptionModel>,
) -> bool {
    match (o, m) {
        (Some(a), Some(b)) => a@ == b,
        (None, None) => true,
        _ => false,
    }
}

/// A long flag that does not negate: `--x`, but not `--no-x`.
pub open spec fn positive_long_flag(a: Seq<char>) -> bool {
    starts_with(a, "--"@) && !starts_with(a, "--no-"@)
}

/// An option whose spellings include a positive long flag is known by the first of them.
pub open spec fn known_by_first_positive_long_flag(o: crate::llama::capabilities::OptionModel) -> bool {
    (exists|i: int| 0 <= i < o.aliases.len() && positive_long_flag(#[trigger] o.aliases[i])) ==> (
    positive_long_flag(o.flag) && exists|j: int|
        0 <= j < o.aliases.len() && #[trigger] o.aliases[j] == o.flag && forall|k: int|
            0 <= k < j ==> !positive_long_flag(#[trigger] o.aliases[k]))
}

proof fn lemma_first_positive(al: Seq<Seq<char>>, i: int)
    requires
        0 <= i <= al.len(),
    ensures
        i <= long_flag_index(al, false, i) <= al.len(),
        long_flag_index(al, false, i) < al.len() ==> positive_long_flag(
            al[long_flag_index(al, false, i)],
        ),
        forall|k: int| i <= k < long_flag_index(al, false, i) ==> !positive_long_flag(#[trigger] al[k]),
    decreases al.len() - i,
{
    if i < al.len() && !positive_long_flag(al[i]) {
        lemma_first_positive(al, i + 1);
    }
}

/// Every option built from a help entry is known by its first positive long flag, when it has
/// one: `--mmap, --no-mmap` is the option `--mmap`, never `--no-mmap`.
pub proof fn options_are_known_by_their_first_positive_long_flag(p: ParsedModel)
    ensures
        build_option_spec(p) matches Some(o) ==> known_by_first_positive_long_flag(o),
{
    let ts = header_tokens(p.header);
    let k = alias_end(ts, 0);
    if k != 0 {
        let al = ts.take(k);
        lemma_first_positive(al, 0);
        let a = long_flag_index(al, false, 0);
        if exists|i: int| 0 <= i < al.len() && positive_long_flag(#[trigger] al[i]) {
            let i = choose|i: int| 0 <= i < al.len() && positive_long_flag(#[trigger] al[i]);
            assert(a < al.len());
            assert(preferred_flag(al) == al[a]);
        }
    }
}

proof fn lemma_built_options_known(ps: Seq<ParsedModel>, n: int)
    requires
        0 <= n <= ps.len(),
    ensures
        forall|i: int|
            0 <= i < built_upto(ps, n).len() ==> known_by_first_positive_long_flag(
                #[trigger] built_upto(ps, n)[i],
            ),
    decreases n,
{
    if n > 0 {
        lemma_built_options_known(ps, n - 1);
        options_are_known_by_their_first_positive_long_flag(ps[n - 1]);
        let prev = built_upto(ps, n - 1);
        match build_option_spec(ps[n - 1]) {
            Some(o) => {
                assert forall|i: int| 0 <= i < prev.push(o).len() implies known_by_first_positive_long_flag(
                    #[trigger] prev.push(o)[i],
                ) by {
                    if i < prev.len() {
                        assert(prev.push(o)[i] == prev[i]);
                    }
                }
            },
            None => {},
        }
    }
}

proof fn lemma_last_with_flag(opts: Seq<crate::llama::capabilities::OptionModel>, q: Seq<char>)
    ensures
        last_with_flag(opts, q) matches Some(o) ==> o.flag == q && exists|i: int|
            0 <= i < opts.len() && #[trigger] opts[i] == o,
    decreases opts.len(),
{
    if opts.len() > 0 && opts.last().flag != q {
        lemma_last_with_flag(opts.drop_last(), q);
        if last_with_flag(opts, q) is Some {
            let o = last_with_flag(opts, q)->0;
            let i = choose|i: int| 0 <= i < opts.drop_last().len() && #[trigger] opts.drop_last()[i] == o;
            assert(opts[i] == o);
        }
    } else if opts.len() > 0 {
        assert(opts[opts.len() - 1] == opts.last());
    }
}

/// Every option a help text advertises is keyed by its flag, and an option with a positive long
/// flag is keyed by the first of them, never by a `--no-` spelling.
pub proof fn help_options_are_keyed_by_their_first_positive_long_flag(output: Seq<char>, q: Seq<char>)
    ensures
        last_with_flag(help_options_spec(output), q) matches Some(o) ==> o.flag == q
            && known_by_first_positive_long_flag(o),
{
    let ps = parsed_options_spec(output);
    lemma_built_options_known(ps, ps.len() as int);
    lemma_last_with_flag(help_options_spec(output), q);
}

/// Reads every option of a `--help` text, keyed and ordered by flag.
pub fn parse_help(output: &str) -> (r: TextMap<crate::llama::capabilities::LlamaOption>)
    ensures
        r.wf(),
        forall|q: Seq<char>|
            option_agrees(#[trigger] r.value_of(q), last_with_flag(help_options_spec(output@), q)),
{
    let text = chars_of(output);
    let parsed = parse_options(text.as_slice());
    let ghost ps = parsed_options_spec(output@);
    let mut map: TextMap<crate::llama::capabilities::LlamaOption> = TextMap::new();
    proof {
        assert forall|q: Seq<char>|
            option_agrees(#[trigger] map.value_of(q), last_with_flag(built_upto(ps, 0), q)) by {
            crate::text_map::lemma_entry_value(map.entries@, q);
        }
    }
    let mut i: usize = 0;
    while i < parsed.len()
        invariant
            i <= parsed@.len(),
            Seq::new(parsed@.len(), |k: int| parsed@[k]@) == ps,
            map.wf(),
            forall|q: Seq<char>|
                option_agrees(#[trigger] map.value_of(q), last_with_flag(built_upto(ps, i as int), q)),
        decreases parsed.len() - i,
    {
        assert(parsed@[i as int]@ == ps[i as int]);
        match build_option(&parsed[i]) {
            Some(option) => {
                let ghost m = option@;
                let key = option.flag.clone();
                let ghost prev = built_upto(ps, i as int);
                map.insert(key, option);
                proof {
                    assert(built_upto(ps, i + 1) == prev.push(m));
                    assert forall|q: Seq<char>|
                        option_agrees(
                            #[trigger] map.value_of(q),
                            last_with_flag(built_upto(ps, i + 1), q),
                        ) by {
                        assert(prev.push(m).drop_last() =~= prev);
                    }
                }
            },
            None => {},
        }
        i += 1;
    }
    map
}

/// An inspection describes a binary when it reports a version and at least one option.
pub open spec fn capabilities_ok(
    version_output: Seq<char>,
    help_output: Seq<char>,
) -> bool {
    parse_version_spec(version_output) is Some && help_options_spec(help_output).len() > 0
}

/// Builds the capabilities of a runtime from its `--version`, `--help` and `--list-devices`
/// output.
pub fn parse_capabilities(version_output: &str, help_output: &str, devices_output: &str) -> (r:
    AppResult<crate::llama::capabilities::LlamaCapabilities>)
    ensures
        r is Ok <==> capabilities_ok(version_output@, help_output@),
        match r {
            Ok(c) => {
                &&& parse_version_spec(version_output@) matches Some((v, commit)) && c.version@
                    == v && opt_text(c.commit) == commit
                &&& c.schema_version == crate::llama::capabilities::CAPABILITIES_SCHEMA_VERSION
                &&& c.options.wf()
                &&& c.options.entries@.len() > 0
                &&& forall|q: Seq<char>|
                    option_agrees(
                        #[trigger] c.options.value_of(q),
                        last_with_flag(help_options_spec(help_output@), q),
                    )
                &&& texts(c.speculative_types@) == match last_with_flag(
                    help_options_spec(help_output@),
                    "--spec-type"@,
                ) {
                    Some(o) => match o.value_hint {
                        Some(h) => comma_values_spec(h),
                        None => seq![],
                    },
                    None => seq![],
                }
                &&& device_models(c.devices@) == parse_devices_spec(devices_output@)
            },
            Err(e) => {
                &&& e.code == ErrorCode::CapabilityDiscoveryFailed
                &&& if parse_version_spec(version_output@) is None {
                    &&& e.message@ == "llama-server returned no recognisable version."@
                    &&& e.hint is None
                    &&& opt_text(e.details) == kept_details(None, version_output@)
                } else {
                    &&& e.message@
                        == "llama-server returned help text without any recognisable options."@
                    &&& opt_text(e.hint) == Some(
                        "This binary may not be llama-server, or its help format may be incompatible."@,
                    )
                    &&& opt_text(e.details) == kept_details(None, help_output@)
                }
            },
        },
{
    let (version, commit) = match parse_version(version_output) {
        Some(found) => found,
        None => {
            return Err(
                AppError::new(
                    ErrorCode::CapabilityDiscoveryFailed,
                    "llama-server returned no recognisable version.",
                ).with_details(version_output),
            );
        },
    };
    let options = parse_help(help_output);
    proof {
        let opts = help_options_spec(help_output@);
        if opts.len() > 0 {
            let q = opts.last().flag;
            assert(last_with_flag(opts, q) is Some);
            assert(option_agrees(options.value_of(q), last_with_flag(opts, q)));
            crate::text_map::lemma_entry_value(options.entries@, q);
        }
        if options.entries@.len() > 0 {
            let q = options.entries@[0].0@;
            crate::text_map::lemma_entry_value(options.entries@, q);
            assert(option_agrees(options.value_of(q), last_with_flag(opts, q)));
        }
    }
    if options.is_empty() {
        return Err(
            AppError::new(
                ErrorCode::CapabilityDiscoveryFailed,
                "llama-server returned help text without any recognisable options.",
            ).with_hint(
                "This binary may not be llama-server, or its help format may be incompatible.",
            ).with_details(help_output),
        );
    }
    proof {
        crate::text_map::lemma_entry_value(options.entries@, "--spec-type"@);
    }
    let speculative_types = match options.get("--spec-type") {
        Some(option) => match &option.value_hint {
            Some(hint) => parse_comma_values(hint.as_str()),
            None => Vec::new(),
        },
        None => Vec::new(),
    };
    let devices = parse_devices(devices_output);
    Ok(
        crate::llama::capabilities::LlamaCapabilities {
            schema_version: crate::llama::capabilities::CAPABILITIES_SCHEMA_VERSION,
            version,
            commit,
            options,
            speculative_types,
            devices,
        },
    )
}

} // verus!
