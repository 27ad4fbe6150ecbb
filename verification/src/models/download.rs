//! Downloading GGUF models from Hugging Face: which files make a selection, where they may be
//! written, and what the hub's answers mean. The HTTP transfer happens outside the library.
use vstd::prelude::*;

use crate::config::paths::{join_path, joined, plain_component};
use crate::gguf::split::{parse_split_filename, split_spec};
use crate::sorting::{insert_by, insert_point, sort_by};
use crate::text_map::{compare_text, text_lt};
use crate::error::{kept_details, opt_text, AppError, AppResult, ErrorCode};
use crate::run_slot::{fresh_run_id, run_cancelled, slot_after_cancel, slot_after_finish, ActiveRun};
use crate::text::{
    ascii_lower, chars_equal, chars_of, concat_text, contains, copy_range, decimal_text,
    ends_with, is_control, lit, lower_all, rfind_char, rfind_char_before, split, split_exec,
    starts_with, starts_with_exec, string_of, texts, trim, trim_end_char, trim_end_char_exec,
    trimmed, views, split_once, split_from, find_char, non_empty_parts, non_empty_parts_exec, rsplit_once, rsplit_once_exec,
};

verus! {

pub const HUB_ENDPOINT: &'static str = "https://huggingface.co";

pub const DEFAULT_REVISION: &'static str = "main";

#[derive(Debug, Clone)]
pub struct HuggingFaceFile {
    pub path: String,
    pub size_bytes: u64,
}

#[derive(Debug, Clone)]
pub struct HuggingFaceGgufSelection {
    pub id: String,
    pub display_name: String,
    pub files: Vec<HuggingFaceFile>,
    pub total_size_bytes: u64,
    pub expected_files: usize,
    pub complete: bool,
}

#[derive(Debug, Clone)]
pub struct HuggingFaceRepository {
    pub repository_id: String,
    pub revision: String,
    pub selections: Vec<HuggingFaceGgufSelection>,
}

#[derive(Debug, Clone)]
pub struct ModelDownloadRequest {
    pub repository_id: String,
    pub revision: String,
    pub selection_id: String,
    pub destination_directory: String,
}

/// Progress reported while a selection downloads.
#[derive(Debug, Clone)]
pub enum ModelDownloadEvent {
    Started { total_files: usize, total_bytes: u64 },
    FileStarted { path: String, index: usize, total_files: usize },
    Progress {
        downloaded_bytes: u64,
        total_bytes: u64,
        file_downloaded_bytes: u64,
        file_size_bytes: u64,
    },
    Finished { total_files: usize, total_bytes: u64 },
}

/// The LFS record of a repository file.
#[derive(Debug, Clone)]
pub struct HubLfs {
    pub size: Option<u64>,
}

/// One file of a repository listing.
#[derive(Debug, Clone)]
pub struct HubSibling {
    pub rfilename: String,
    pub size: Option<u64>,
    pub lfs: Option<HubLfs>,
}

// ---------------------------------------------------------------------------------------------
// One download at a time
// ---------------------------------------------------------------------------------------------

/// The one model download allowed at a time.
#[derive(Debug)]
pub struct ModelDownloadSupervisor {
    pub active: Option<ActiveRun>,
}

/// Proof of holding the download slot.
#[derive(Debug, Clone, Copy, PartialEq, Eq, Structural)]
pub struct ModelDownloadPermit {
    pub id: u128,
}

impl Default for ModelDownloadSupervisor {
    fn default() -> (s: Self)
        ensures
            s.active is None,
    {
        ModelDownloadSupervisor { active: None }
    }
}

impl ModelDownloadSupervisor {
    pub fn begin(&mut self) -> (r: AppResult<ModelDownloadPermit>)
        ensures
            match r {
                Ok(p) => old(self).active is None && final(self).active == Some(
                    ActiveRun { id: p.id, cancelled: false },
                ),
                Err(e) => {
                    &&& old(self).active is Some
                    &&& final(self).active == old(self).active
                    &&& e.code == ErrorCode::ModelDownloadInProgress
                    &&& e.message@ == "A model download is already running."@
                    &&& opt_text(e.hint) == Some("Wait for it to finish, or cancel it first."@)
                },
            },
    {
        if self.active.is_some() {
            return Err(
                AppError::new(
                    ErrorCode::ModelDownloadInProgress,
                    "A model download is already running.",
                ).with_hint("Wait for it to finish, or cancel it first."),
            );
        }
        let id = fresh_run_id();
        self.active = Some(ActiveRun { id, cancelled: false });
        Ok(ModelDownloadPermit { id })
    }

    pub fn cancel(&mut self) -> (r: bool)
        ensures
            r == old(self).active is Some,
            final(self).active == slot_after_cancel(old(self).active),
    {
        match self.active {
            Some(a) => {
                self.active = Some(ActiveRun { id: a.id, cancelled: true });
                true
            },
            None => false,
        }
    }

    pub fn is_running(&self) -> (r: bool)
        ensures
            r == self.active is Some,
    {
        self.active.is_some()
    }

    pub fn finish(&mut self, permit: ModelDownloadPermit)
        ensures
            final(self).active == slot_after_finish(old(self).active, permit.id),
    {
        if let Some(a) = self.active {
            if a.id == permit.id {
                self.active = None;
            }
        }
    }

    pub fn ensure_not_cancelled(&self, permit: ModelDownloadPermit) -> (r: AppResult<()>)
        ensures
            r is Err <==> run_cancelled(self.active, permit.id),
            r matches Err(e) ==> e.code == ErrorCode::ModelDownloadCancelled && e.message@
                == "The model download was cancelled."@,
    {
        match self.active {
            Some(a) => if a.id == permit.id && a.cancelled {
                Err(AppError::new(ErrorCode::ModelDownloadCancelled, "The model download was cancelled."))
            } else {
                Ok(())
            },
            None => Ok(()),
        }
    }
}

// ---------------------------------------------------------------------------------------------
// File names
// ---------------------------------------------------------------------------------------------

/// The last `/`-separated segment of a path.
pub open spec fn last_segment(path: Seq<char>) -> Seq<char> {
    path.skip(rfind_char(path, '/', path.len() as int) + 1)
}

/// Characters Windows refuses in file names.
pub open spec fn forbidden_in_filename(c: char) -> bool {
    c == '<' || c == '>' || c == ':' || c == '"' || c == '/' || c == '\\' || c == '|' || c == '?'
        || c == '*'
}

/// A repository path is safe to download when it has no backslash and no `..` segment, and its
/// file name is a usable name on every platform.
pub open spec fn safe_filename_spec(path: Seq<char>) -> Option<Seq<char>> {
    let name = last_segment(path);
    if path.len() == 0 || contains(path, "\\"@) || split(path, '/').contains(".."@) {
        None
    } else if name.len() == 0 || name == "."@ || name == ".."@ || ends_with(name, "."@)
        || ends_with(name, " "@) || exists|k: int|
        0 <= k < name.len() && (is_control(#[trigger] name[k]) || forbidden_in_filename(name[k])) {
        None
    } else {
        Some(name)
    }
}

pub open spec fn unsafe_filename_spec(path: Seq<char>, e: AppError) -> bool {
    &&& e.code == ErrorCode::ModelDownloadFailed
    &&& e.message@ == "The repository contains a GGUF filename that is unsafe on this system."@
    &&& e.hint is None
    &&& opt_text(e.details) == kept_details(None, path)
}

fn unsafe_filename_error(path: &str) -> (e: AppError)
    ensures
        unsafe_filename_spec(path@, e),
{
    AppError::new(
        ErrorCode::ModelDownloadFailed,
        "The repository contains a GGUF filename that is unsafe on this system.",
    ).with_details(path)
}

fn last_segment_exec(path: &[char]) -> (r: Vec<char>)
    ensures
        r@ == last_segment(path@),
{
    let start: usize = match rfind_char_before(path, '/', path.len()) {
        Some(k) => k + 1,
        None => 0,
    };
    let r = copy_range(path, start, path.len());
    assert(r@ =~= last_segment(path@));
    r
}

fn has_parent_segment(path: &[char]) -> (r: bool)
    ensures
        r == split(path@, '/').contains(".."@),
{
    let parts = split_exec(path, '/');
    let dots = lit("..");
    let mut i: usize = 0;
    while i < parts.len()
        invariant
            i <= parts@.len(),
            views(parts@) == split(path@, '/'),
            dots@ == ".."@,
            forall|j: int| 0 <= j < i ==> split(path@, '/')[j] != ".."@,
        decreases parts.len() - i,
    {
        assert(parts@[i as int]@ == split(path@, '/')[i as int]);
        if chars_equal(parts[i].as_slice(), dots.as_slice()) {
            assert(split(path@, '/')[i as int] == ".."@);
            return true;
        }
        i += 1;
    }
    false
}

fn bad_name_char(name: &[char]) -> (r: bool)
    ensures
        r == exists|k: int| 0 <= k < name@.len() && (is_control(#[trigger] name@[k]) || forbidden_in_filename(name@[k])),
{
    let mut i: usize = 0;
    while i < name.len()
        invariant
            i <= name@.len(),
            forall|k: int| 0 <= k < i ==> !(is_control(#[trigger] name@[k]) || forbidden_in_filename(name@[k])),
        decreases name.len() - i,
    {
        let c = name[i];
        if crate::text::is_control_char(c) || c == '<' || c == '>' || c == ':' || c == '"' || c == '/'
            || c == '\\' || c == '|' || c == '?' || c == '*' {
            return true;
        }
        i += 1;
    }
    false
}

/// The file name a repository path is saved under, refusing paths that could escape the
/// destination folder or break Windows file names.
pub fn safe_filename(path: &str) -> (r: AppResult<String>)
    ensures
        match (r, safe_filename_spec(path@)) {
            (Ok(name), Some(s)) => name@ == s,
            (Err(e), None) => unsafe_filename_spec(path@, e),
            _ => false,
        },
{
    let p = chars_of(path);
    if p.len() == 0 || contains_exec_lit(p.as_slice(), "\\") || has_parent_segment(p.as_slice()) {
        return Err(unsafe_filename_error(path));
    }
    let name = last_segment_exec(p.as_slice());
    let n = name.as_slice();
    if n.len() == 0 || chars_equal(n, lit(".").as_slice()) || chars_equal(n, lit("..").as_slice())
        || crate::text::ends_with_exec(n, lit(".").as_slice())
        || crate::text::ends_with_exec(n, lit(" ").as_slice()) || bad_name_char(n) {
        return Err(unsafe_filename_error(path));
    }
    Ok(string_of(n))
}

fn contains_exec_lit(s: &[char], p: &str) -> (r: bool)
    ensures
        r == contains(s@, p@),
{
    crate::text::contains_exec(s, lit(p).as_slice())
}

/// The file name a safe path is saved under, compared ignoring ASCII case.
pub open spec fn lowered_target(path: Seq<char>) -> Option<Seq<char>> {
    match safe_filename_spec(path) {
        Some(name) => Some(ascii_lower(name)),
        None => None,
    }
}

/// File `i` is unsafe, or lands on the same name as an earlier file.
pub open spec fn target_fault(files: Seq<HuggingFaceFile>, i: int) -> bool {
    ||| safe_filename_spec(files[i].path@) is None
    ||| exists|j: int|
        0 <= j < i && lowered_target(#[trigger] files[j].path@) == lowered_target(files[i].path@)
}

pub open spec fn duplicate_targets_message() -> Seq<char> {
    "The selected repository files contain duplicate destination names."@
}

/// Where each file of a selection lands in `destination`; the first file that is unsafe, or
/// whose name differs only in ASCII case from an earlier one, is refused.
pub fn target_paths(destination: &str, files: &[HuggingFaceFile]) -> (r: AppResult<Vec<String>>)
    ensures
        r is Ok <==> forall|i: int| 0 <= i < files@.len() ==> !#[trigger] target_fault(files@, i),
        match r {
            Ok(targets) => targets@.len() == files@.len() && forall|i: int|
                0 <= i < files@.len() ==> (safe_filename_spec(#[trigger] files@[i].path@) matches Some(name)
                    && (plain_component(name) ==> joined(destination@, name, targets@[i]@))),
            Err(e) => exists|i: int|
                0 <= i < files@.len() && #[trigger] target_fault(files@, i) && (forall|j: int|
                    0 <= j < i ==> !target_fault(files@, j)) && if safe_filename_spec(files@[i].path@) is None {
                    unsafe_filename_spec(files@[i].path@, e)
                } else {
                    e.code == ErrorCode::ModelDownloadFailed && e.message@ == duplicate_targets_message()
                        && e.hint is None && e.details is None
                },
        },
{
    let mut seen: Vec<Vec<char>> = Vec::new();
    let mut out: Vec<String> = Vec::new();
    let mut i: usize = 0;
    while i < files.len()
        invariant
            i <= files@.len(),
            out@.len() == i,
            seen@.len() == i,
            forall|j: int| 0 <= j < i ==> !#[trigger] target_fault(files@, j),
            forall|j: int| 0 <= j < i ==> lowered_target(#[trigger] files@[j].path@) == Some(seen@[j]@),
            forall|j: int|
                0 <= j < i ==> (safe_filename_spec(#[trigger] files@[j].path@) matches Some(name)
                    && (plain_component(name) ==> joined(destination@, name, out@[j]@))),
        decreases files.len() - i,
    {
        let name = match safe_filename(files[i].path.as_str()) {
            Ok(name) => name,
            Err(e) => {
                assert(target_fault(files@, i as int));
                return Err(e);
            },
        };
        let lowered = lower_all(chars_of(name.as_str()).as_slice());
        let mut k: usize = 0;
        while k < seen.len()
            invariant
                k <= seen@.len(),
                seen@.len() == i,
                i < files@.len(),
                lowered@ == ascii_lower(name@),
                safe_filename_spec(files@[i as int].path@) == Some(name@),
                forall|j: int| 0 <= j < i ==> !#[trigger] target_fault(files@, j),
                forall|j: int| 0 <= j < i ==> lowered_target(#[trigger] files@[j].path@) == Some(seen@[j]@),
                forall|j: int| 0 <= j < k ==> seen@[j]@ != lowered@,
            decreases seen.len() - k,
        {
            if chars_equal(seen[k].as_slice(), lowered.as_slice()) {
                assert(lowered_target(files@[k as int].path@) == lowered_target(files@[i as int].path@));
                assert(target_fault(files@, i as int));
                return Err(
                    AppError::new(
                        ErrorCode::ModelDownloadFailed,
                        "The selected repository files contain duplicate destination names.",
                    ),
                );
            }
            k += 1;
        }
        assert(!target_fault(files@, i as int)) by {
            assert forall|j: int| 0 <= j < i implies lowered_target(#[trigger] files@[j].path@) != lowered_target(
                files@[i as int].path@,
            ) by {
                assert(seen@[j]@ != lowered@);
            }
        }
        seen.push(lowered);
        out.push(join_path(destination, name.as_str()));
        i += 1;
    }
    Ok(out)
}

// ---------------------------------------------------------------------------------------------
// Repository ids
// ---------------------------------------------------------------------------------------------

/// An owner or model name: 1 to 96 ASCII letters, digits, `-`, `_` or `.`, not starting or
/// ending with `.` or `-`.
pub open spec fn valid_repo_part_spec(part: Seq<char>) -> bool {
    &&& part.len() > 0
    &&& part.len() <= 96
    &&& !(part[0] == '.' || part[0] == '-')
    &&& !(part.last() == '.' || part.last() == '-')
    &&& forall|k: int|
        0 <= k < part.len() ==> (crate::text::is_alnum(#[trigger] part[k]) || part[k] == '-'
            || part[k] == '_' || part[k] == '.')
}

pub fn valid_repo_part(part: &[char]) -> (r: bool)
    ensures
        r == valid_repo_part_spec(part@),
{
    if part.len() == 0 || part.len() > 96 {
        return false;
    }
    let first = part[0];
    let last = part[part.len() - 1];
    if first == '.' || first == '-' || last == '.' || last == '-' {
        return false;
    }
    let mut i: usize = 0;
    while i < part.len()
        invariant
            i <= part@.len(),
            forall|k: int|
                0 <= k < i ==> (crate::text::is_alnum(#[trigger] part@[k]) || part@[k] == '-'
                    || part@[k] == '_' || part@[k] == '.'),
        decreases part.len() - i,
    {
        let c = part[i];
        if !(crate::text::is_ascii_alphanumeric(c) || c == '-' || c == '_' || c == '.') {
            return false;
        }
        i += 1;
    }
    true
}

/// What the URL parser makes of a repository URL: its scheme, its host and its path segments
/// (`None` where the URL cannot be a base).
#[derive(Debug, Clone)]
pub struct UrlParts {
    pub scheme: String,
    pub host: Option<String>,
    pub segments: Option<Vec<String>>,
}

/// The plain values of a parsed URL.
pub open spec fn url_parts_view(p: UrlParts) -> (Seq<char>, Option<Seq<char>>, Option<Seq<Seq<char>>>) {
    (
        p.scheme@,
        opt_text(p.host),
        match p.segments {
            Some(v) => Some(texts(v@)),
            None => None,
        },
    )
}

/// The outcome of `reqwest::Url::parse` on a text: its scheme, host and path segments, or the
/// parser's error message.
pub uninterp spec fn url_parse(text: Seq<char>) -> Result<
    (Seq<char>, Option<Seq<char>>, Option<Seq<Seq<char>>>),
    Seq<char>,
>;

/// Parses `text` with `reqwest::Url::parse` (the `url` crate). The contract claims only that the
/// outcome is `url_parse` of the text, read through `scheme`, `host_str` and `path_segments`,
/// or the error's `to_string`; what the WHATWG parser does to a text is not stated.
#[verifier::external_body]
fn parse_url(text: &str) -> (r: Result<UrlParts, String>)
    ensures
        url_parse(text@) == match r {
            Ok(p) => Ok(url_parts_view(p)),
            Err(e) => Err(e@),
        },
{
    match reqwest::Url::parse(text) {
        Ok(url) => Ok(UrlParts {
            scheme: url.scheme().to_string(),
            host: url.host_str().map(|host| host.to_string()),
            segments: url.path_segments().map(|parts| parts.map(|part| part.to_string()).collect()),
        }),
        Err(error) => Err(error.to_string()),
    }
}

/// The message for a URL that does not parse.
pub open spec fn unparsable_url_message() -> Seq<char> {
    "Enter a valid Hugging Face model URL or repository ID."@
}

/// The message for a URL of another site or scheme.
pub open spec fn foreign_url_message() -> Seq<char> {
    "Only public model repositories on huggingface.co are supported."@
}

/// The message for a hub URL that is not a repository's main page.
pub open spec fn not_repository_url_message() -> Seq<char> {
    "Use the main Hugging Face model repository URL, not a file or collection URL."@
}

/// The message for a repository id that is not `owner/model-name`.
pub open spec fn malformed_repository_message() -> Seq<char> {
    "Enter a Hugging Face repository as owner/model-name."@
}

/// The repository id that a parsed hub URL names, or the message that refuses it: the URL must
/// be `https` on `huggingface.co` and have exactly two non-empty path segments.
pub open spec fn url_repository(
    parsed: Result<(Seq<char>, Option<Seq<char>>, Option<Seq<Seq<char>>>), Seq<char>>,
) -> Result<Seq<char>, Seq<char>> {
    match parsed {
        Err(_) => Err(unparsable_url_message()),
        Ok((scheme, host, segments)) => if scheme != "https"@ || host != Some("huggingface.co"@) {
            Err(foreign_url_message())
        } else {
            let parts = match segments {
                Some(s) => non_empty_parts(s),
                None => Seq::empty(),
            };
            if parts.len() != 2 {
                Err(not_repository_url_message())
            } else {
                Ok(parts[0] + "/"@ + parts[1])
            }
        },
    }
}

/// The text the user gave, without surrounding whitespace and trailing slashes.
pub open spec fn repository_input(input: Seq<char>) -> Seq<char> {
    trim_end_char(trim(input), '/')
}

/// Whether a text is a web address that has to be read as a URL.
pub open spec fn is_web_address(s: Seq<char>) -> bool {
    starts_with(s, "https://"@) || starts_with(s, "http://"@)
}

/// A candidate id is kept when it is two valid parts around one `/`.
pub open spec fn checked_repository(candidate: Seq<char>) -> Result<Seq<char>, Seq<char>> {
    let parts = split(candidate, '/');
    if parts.len() == 2 && valid_repo_part_spec(parts[0]) && valid_repo_part_spec(parts[1]) {
        Ok(candidate)
    } else {
        Err(malformed_repository_message())
    }
}

/// The repository id for what the user typed, or the message that refuses it; `parsed` is
/// what the URL parser made of the input, read only when the input is a web address.
pub open spec fn normalized_repository(
    input: Seq<char>,
    parsed: Result<(Seq<char>, Option<Seq<char>>, Option<Seq<Seq<char>>>), Seq<char>>,
) -> Result<Seq<char>, Seq<char>> {
    let trimmed = repository_input(input);
    if is_web_address(trimmed) {
        match url_repository(parsed) {
            Ok(candidate) => checked_repository(candidate),
            Err(m) => Err(m),
        }
    } else {
        checked_repository(trimmed)
    }
}

proof fn lemma_split_from_nonempty(s: Seq<char>, c: char, start: int)
    requires
        0 <= start <= s.len(),
    ensures
        split_from(s, c, start).len() >= 1,
    decreases s.len() - start,
{
    crate::text::lemma_find_char(s, c, start);
    let e = find_char(s, c, start);
    if e < s.len() && e >= start {
        lemma_split_from_nonempty(s, c, e + 1);
    }
}

/// A text that splits into two pieces at `c` is the first piece, `c`, then the second.
proof fn lemma_two_pieces(s: Seq<char>, c: char)
    requires
        split(s, c).len() == 2,
    ensures
        ({
            let e = find_char(s, c, 0);
            &&& 0 <= e < s.len()
            &&& s[e] == c
            &&& split(s, c)[0] == s.subrange(0, e)
            &&& split(s, c)[1] == s.subrange(e + 1, s.len() as int)
        }),
{
    crate::text::lemma_find_char(s, c, 0);
    let e = find_char(s, c, 0);
    if !(e < s.len() && e >= 0) {
        assert(split(s, c).len() == 1);
    } else {
        crate::text::lemma_find_char(s, c, e + 1);
        let e1 = find_char(s, c, e + 1);
        let rest = split_from(s, c, e + 1);
        assert(split(s, c) == seq![s.subrange(0, e)] + rest);
        if e1 < s.len() && e1 >= e + 1 {
            lemma_split_from_nonempty(s, c, e1 + 1);
            assert(rest == seq![s.subrange(e + 1, e1)] + split_from(s, c, e1 + 1));
            assert(false);
        }
        assert(rest == seq![s.subrange(e + 1, s.len() as int)]);
    }
}

/// A repository id that normalization accepted normalizes to itself, whatever the URL parser
/// would make of it: normalizing twice is normalizing once.
pub proof fn normalizing_is_idempotent(
    input: Seq<char>,
    parsed: Result<(Seq<char>, Option<Seq<char>>, Option<Seq<Seq<char>>>), Seq<char>>,
    id: Seq<char>,
    again: Result<(Seq<char>, Option<Seq<char>>, Option<Seq<Seq<char>>>), Seq<char>>,
)
    requires
        normalized_repository(input, parsed) == Ok::<Seq<char>, Seq<char>>(id),
    ensures
        normalized_repository(id, again) == Ok::<Seq<char>, Seq<char>>(id),
{
    assert(checked_repository(id) == Ok::<Seq<char>, Seq<char>>(id));
    let parts = split(id, '/');
    lemma_two_pieces(id, '/');
    let e = find_char(id, '/', 0);
    let a = parts[0];
    let b = parts[1];
    assert(valid_repo_part_spec(a) && valid_repo_part_spec(b));
    // Every character of the id is a valid part character or the one slash.
    assert forall|k: int| 0 <= k < id.len() implies (crate::text::is_alnum(#[trigger] id[k])
        || id[k] == '-' || id[k] == '_' || id[k] == '.' || id[k] == '/') by {
        if k < e {
            assert(a[k] == id[k]);
        } else if k > e {
            assert(b[k - e - 1] == id[k]);
        }
    }
    assert(a[0] == id[0]);
    assert(b[b.len() - 1] == id[id.len() - 1]);
    // No surrounding whitespace and no trailing slash.
    crate::text::lemma_trim_via_bounds(id);
    assert(crate::text::skip_ws(id, 0) == 0);
    assert(crate::text::skip_ws_back(id, id.len() as int) == id.len());
    assert(trim(id) =~= id);
    assert(trim_end_char(id, '/') == id);
    assert(repository_input(id) == id);
    // Not a web address: its fifth or sixth character would be a colon.
    reveal_strlit("https://");
    reveal_strlit("http://");
    if starts_with(id, "https://"@) {
        assert(id.subrange(0, 8) == "https://"@);
        assert(id[5] == ':');
    }
    if starts_with(id, "http://"@) {
        assert(id.subrange(0, 7) == "http://"@);
        assert(id[4] == ':');
    }
    assert(!is_web_address(id));
}

fn chars_of_each(v: &Vec<String>) -> (r: Vec<Vec<char>>)
    ensures
        views(r@) == texts(v@),
{
    let mut out: Vec<Vec<char>> = Vec::new();
    let mut i: usize = 0;
    while i < v.len()
        invariant
            i <= v@.len(),
            views(out@) == texts(v@).take(i as int),
        decreases v.len() - i,
    {
        let ghost before = out@;
        let c = chars_of(v[i].as_str());
        out.push(c);
        proof {
            crate::text::lemma_views_push(before, c);
        }
        i += 1;
        assert(views(out@) =~= texts(v@).take(i as int));
    }
    assert(texts(v@).take(v@.len() as int) =~= texts(v@));
    out
}

/// The repository id named by a parsed hub URL; refuses other sites, other schemes and URLs
/// of a file or collection.
pub fn repository_from_url(parsed: Result<UrlParts, String>) -> (r: AppResult<String>)
    ensures
        match (r, url_repository(match parsed {
            Ok(p) => Ok(url_parts_view(p)),
            Err(e) => Err(e@),
        })) {
            (Ok(id), Ok(s)) => id@ == s,
            (Err(e), Err(m)) => e.code == ErrorCode::ModelDownloadFailed && e.message@ == m
                && e.hint is None && opt_text(e.details) == match parsed {
                Err(text) => kept_details(None, text@),
                Ok(_) => None,
            },
            _ => false,
        },
{
    match parsed {
        Err(text) => Err(
            AppError::new(
                ErrorCode::ModelDownloadFailed,
                "Enter a valid Hugging Face model URL or repository ID.",
            ).with_details(text.as_str()),
        ),
        Ok(parts) => {
            let scheme = chars_of(parts.scheme.as_str());
            let on_hub = match &parts.host {
                Some(h) => {
                    let hc = chars_of(h.as_str());
                    chars_equal(hc.as_slice(), lit("huggingface.co").as_slice())
                },
                None => false,
            };
            if !chars_equal(scheme.as_slice(), lit("https").as_slice()) || !on_hub {
                return Err(
                    AppError::new(
                        ErrorCode::ModelDownloadFailed,
                        "Only public model repositories on huggingface.co are supported.",
                    ),
                );
            }
            let segments: Vec<Vec<char>> = match &parts.segments {
                Some(v) => non_empty_parts_exec(&chars_of_each(v)),
                None => Vec::new(),
            };
            proof {
                if parts.segments is None {
                    assert(views(segments@) =~= Seq::<Seq<char>>::empty());
                }
            }
            if segments.len() != 2 {
                return Err(
                    AppError::new(
                        ErrorCode::ModelDownloadFailed,
                        "Use the main Hugging Face model repository URL, not a file or collection URL.",
                    ),
                );
            }
            let joined = crate::text::concat3(segments[0].as_slice(), lit("/").as_slice(), segments[1].as_slice());
            assert(views(segments@)[0] == segments@[0]@);
            assert(views(segments@)[1] == segments@[1]@);
            Ok(string_of(joined.as_slice()))
        },
    }
}

/// Keeps a candidate id that is `owner/model-name` with two valid parts.
pub fn checked_repository_id(candidate: &str) -> (r: AppResult<String>)
    ensures
        match (r, checked_repository(candidate@)) {
            (Ok(id), Ok(s)) => id@ == s,
            (Err(e), Err(m)) => e.code == ErrorCode::ModelDownloadFailed && e.message@ == m
                && e.hint is None && e.details is None,
            _ => false,
        },
{
    let c = chars_of(candidate);
    let parts = split_exec(c.as_slice(), '/');
    if parts.len() == 2 && valid_repo_part(parts[0].as_slice()) && valid_repo_part(parts[1].as_slice()) {
        assert(views(parts@)[0] == parts@[0]@);
        assert(views(parts@)[1] == parts@[1]@);
        Ok(candidate.to_string())
    } else {
        proof {
            if parts@.len() == 2 {
                assert(views(parts@)[0] == parts@[0]@);
                assert(views(parts@)[1] == parts@[1]@);
            }
        }
        Err(
            AppError::new(
                ErrorCode::ModelDownloadFailed,
                "Enter a Hugging Face repository as owner/model-name.",
            ),
        )
    }
}

/// Accepts `owner/model-name` or the main repository URL on huggingface.co (surrounding
/// whitespace and trailing slashes ignored) and gives the repository id.
pub fn normalize_repository_id(input: &str) -> (r: AppResult<String>)
    ensures
        match (r, normalized_repository(input@, url_parse(repository_input(input@)))) {
            (Ok(id), Ok(s)) => id@ == s,
            (Err(e), Err(m)) => e.code == ErrorCode::ModelDownloadFailed && e.message@ == m
                && e.hint is None && opt_text(e.details) == match url_parse(repository_input(input@)) {
                Err(text) => if is_web_address(repository_input(input@)) {
                    kept_details(None, text)
                } else {
                    None
                },
                Ok(_) => None,
            },
            _ => false,
        },
{
    let t = trim_end_char_exec(trimmed(chars_of(input).as_slice()).as_slice(), '/');
    let text = string_of(t.as_slice());
    if starts_with_exec(t.as_slice(), lit("https://").as_slice()) || starts_with_exec(
        t.as_slice(),
        lit("http://").as_slice(),
    ) {
        let parsed = parse_url(text.as_str());
        let candidate = repository_from_url(parsed)?;
        checked_repository_id(candidate.as_str())
    } else {
        checked_repository_id(text.as_str())
    }
}


// ---------------------------------------------------------------------------------------------
// Grouping a repository listing into selections
// ---------------------------------------------------------------------------------------------

/// A selection as plain values; each file is its path and size.
pub struct SelectionModel {
    pub id: Seq<char>,
    pub display_name: Seq<char>,
    pub files: Seq<(Seq<char>, u64)>,
    pub total_size_bytes: u64,
    pub expected_files: usize,
    pub complete: bool,
}

pub open spec fn file_view(f: HuggingFaceFile) -> (Seq<char>, u64) {
    (f.path@, f.size_bytes)
}

pub open spec fn file_views(v: Seq<HuggingFaceFile>) -> Seq<(Seq<char>, u64)> {
    v.map_values(|f: HuggingFaceFile| file_view(f))
}

impl View for HuggingFaceGgufSelection {
    type V = SelectionModel;

    open spec fn view(&self) -> SelectionModel {
        SelectionModel {
            id: self.id@,
            display_name: self.display_name@,
            files: file_views(self.files@),
            total_size_bytes: self.total_size_bytes,
            expected_files: self.expected_files,
            complete: self.complete,
        }
    }
}

pub open spec fn selection_views(v: Seq<HuggingFaceGgufSelection>) -> Seq<SelectionModel> {
    v.map_values(|s: HuggingFaceGgufSelection| s@)
}

/// The size a listing gives a file: its own, else its LFS record's, else zero.
pub open spec fn listed_size(s: HubSibling) -> u64 {
    match s.size {
        Some(n) => n,
        None => match s.lfs {
            Some(l) => match l.size {
                Some(n) => n,
                None => 0,
            },
            None => 0,
        },
    }
}

/// A path whose ASCII-lowercased text ends in `.gguf`.
pub open spec fn is_gguf_path(path: Seq<char>) -> bool {
    ends_with(ascii_lower(path), ".gguf"@)
}

/// The GGUF files of a listing, in listing order, as path and size.
pub open spec fn gguf_files(siblings: Seq<HubSibling>) -> Seq<(Seq<char>, u64)>
    decreases siblings.len(),
{
    if siblings.len() == 0 {
        Seq::empty()
    } else {
        let prev = gguf_files(siblings.drop_last());
        let s = siblings.last();
        if is_gguf_path(s.rfilename@) {
            prev.push((s.rfilename@, listed_size(s)))
        } else {
            prev
        }
    }
}

/// The sum of the sizes of some files.
pub open spec fn size_sum(files: Seq<(Seq<char>, u64)>) -> int
    decreases files.len(),
{
    if files.len() == 0 {
        0
    } else {
        size_sum(files.drop_last()) + files.last().1
    }
}

/// The shard naming of a path's file name: prefix, index and count.
pub open spec fn shard_of(path: Seq<char>) -> Option<(Seq<char>, u32, u32)> {
    split_spec(last_segment(path))
}

/// The folder part of a repository path, empty at the top.
pub open spec fn path_directory(path: Seq<char>) -> Seq<char> {
    match rsplit_once(path, '/') {
        Some((d, _)) => d,
        None => Seq::empty(),
    }
}

/// The shards of one split model share a folder, a prefix and a count.
pub open spec fn shard_key(path: Seq<char>) -> Option<(Seq<char>, Seq<char>, u32)> {
    match shard_of(path) {
        Some((prefix, _, count)) => Some((path_directory(path), prefix, count)),
        None => None,
    }
}

/// A file that is not a shard is a selection of its own.
pub open spec fn single_selection(f: (Seq<char>, u64)) -> SelectionModel {
    SelectionModel {
        id: f.0,
        display_name: last_segment(f.0),
        files: seq![f],
        total_size_bytes: f.1,
        expected_files: 1,
        complete: true,
    }
}

pub open spec fn single_selections(files: Seq<(Seq<char>, u64)>) -> Seq<SelectionModel>
    decreases files.len(),
{
    if files.len() == 0 {
        Seq::empty()
    } else {
        let prev = single_selections(files.drop_last());
        if shard_of(files.last().0) is None {
            prev.push(single_selection(files.last()))
        } else {
            prev
        }
    }
}

/// The keys of the split models in a listing, each once, in order of first appearance.
pub open spec fn shard_keys(files: Seq<(Seq<char>, u64)>) -> Seq<(Seq<char>, Seq<char>, u32)>
    decreases files.len(),
{
    if files.len() == 0 {
        Seq::empty()
    } else {
        let prev = shard_keys(files.drop_last());
        match shard_key(files.last().0) {
            Some(k) => if prev.contains(k) {
                prev
            } else {
                prev.push(k)
            },
            None => prev,
        }
    }
}

/// The shards listed under a key, in listing order, each with its index.
pub open spec fn shard_members(files: Seq<(Seq<char>, u64)>, key: (Seq<char>, Seq<char>, u32)) -> Seq<
    (u32, (Seq<char>, u64)),
>
    decreases files.len(),
{
    if files.len() == 0 {
        Seq::empty()
    } else {
        let prev = shard_members(files.drop_last(), key);
        let f = files.last();
        if shard_key(f.0) == Some(key) {
            prev.push((shard_of(f.0).unwrap().1, f))
        } else {
            prev
        }
    }
}

/// The sum of the sizes of some shards.
pub open spec fn member_sizes(members: Seq<(u32, (Seq<char>, u64))>) -> int
    decreases members.len(),
{
    if members.len() == 0 {
        0
    } else {
        member_sizes(members.drop_last()) + members.last().1.1
    }
}

/// Shards in order of their index.
pub open spec fn by_index() -> spec_fn((u32, (Seq<char>, u64)), (u32, (Seq<char>, u64))) -> bool {
    |a: (u32, (Seq<char>, u64)), b: (u32, (Seq<char>, u64))| a.0 < b.0
}

/// Whether some shard has index `i`.
pub open spec fn has_index(members: Seq<(u32, (Seq<char>, u64))>, i: int) -> bool {
    exists|k: int| 0 <= k < members.len() && members[k].0 == i
}

/// A split model: its shards in index order; it is complete when the count of shards is the
/// expected one and every index from one to the count is there.
pub open spec fn shard_selection(files: Seq<(Seq<char>, u64)>, key: (Seq<char>, Seq<char>, u32)) -> SelectionModel {
    let members = shard_members(files, key);
    let ordered = sort_by(members, by_index());
    SelectionModel {
        id: ordered[0].1.0,
        display_name: key.1,
        files: ordered.map_values(|m: (u32, (Seq<char>, u64))| m.1),
        total_size_bytes: member_sizes(members) as u64,
        expected_files: key.2 as usize,
        complete: members.len() == key.2 && forall|i: int|
            1 <= i <= key.2 ==> #[trigger] has_index(members, i),
    }
}

/// Selections ordered by ASCII-lowercased display name, then by id.
pub open spec fn by_name() -> spec_fn(SelectionModel, SelectionModel) -> bool {
    |a: SelectionModel, b: SelectionModel|
        text_lt(ascii_lower(a.display_name), ascii_lower(b.display_name)) || (ascii_lower(
            a.display_name,
        ) == ascii_lower(b.display_name) && text_lt(a.id, b.id))
}

/// The selections of a listing: each GGUF file that is not a shard on its own, each split
/// model as one selection, all ordered by name.
pub open spec fn gguf_selections(siblings: Seq<HubSibling>) -> Seq<SelectionModel> {
    let files = gguf_files(siblings);
    sort_by(
        single_selections(files) + shard_keys(files).map_values(
            |k: (Seq<char>, Seq<char>, u32)| shard_selection(files, k),
        ),
        by_name(),
    )
}

proof fn lemma_member_sizes_bounded(files: Seq<(Seq<char>, u64)>, key: (Seq<char>, Seq<char>, u32))
    ensures
        0 <= member_sizes(shard_members(files, key)) <= size_sum(files),
    decreases files.len(),
{
    if files.len() > 0 {
        lemma_member_sizes_bounded(files.drop_last(), key);
        let prev = shard_members(files.drop_last(), key);
        let f = files.last();
        if shard_key(f.0) == Some(key) {
            let next = prev.push((shard_of(f.0).unwrap().1, f));
            assert(next.drop_last() =~= prev);
        }
    }
}

proof fn lemma_size_sum_prefix(files: Seq<(Seq<char>, u64)>, m: int)
    requires
        0 <= m <= files.len(),
    ensures
        0 <= size_sum(files.take(m)) <= size_sum(files),
    decreases files.len(),
{
    if m == files.len() {
        assert(files.take(m) =~= files);
        if files.len() > 0 {
            lemma_size_sum_prefix(files.drop_last(), 0);
        } else {
        }
    } else {
        lemma_size_sum_prefix(files.drop_last(), m);
        assert(files.drop_last().take(m) =~= files.take(m));
    }
}

proof fn lemma_listed_key_has_members(files: Seq<(Seq<char>, u64)>, key: (Seq<char>, Seq<char>, u32))
    requires
        shard_keys(files).contains(key),
    ensures
        shard_members(files, key).len() > 0,
    decreases files.len(),
{
    if files.len() > 0 {
        let prev = shard_keys(files.drop_last());
        if prev.contains(key) {
            lemma_listed_key_has_members(files.drop_last(), key);
        } else {
            assert(shard_key(files.last().0) == Some(key));
        }
    }
}

fn listed_size_exec(s: &HubSibling) -> (r: u64)
    ensures
        r == listed_size(*s),
{
    match s.size {
        Some(n) => n,
        None => match &s.lfs {
            Some(l) => match l.size {
                Some(n) => n,
                None => 0,
            },
            None => 0,
        },
    }
}

fn copy_file(f: &HuggingFaceFile) -> (r: HuggingFaceFile)
    ensures
        file_view(r) == file_view(*f),
{
    HuggingFaceFile { path: f.path.clone(), size_bytes: f.size_bytes }
}

fn gguf_file_list(siblings: &Vec<HubSibling>) -> (r: Vec<HuggingFaceFile>)
    ensures
        file_views(r@) == gguf_files(siblings@),
{
    let mut out: Vec<HuggingFaceFile> = Vec::new();
    let mut i: usize = 0;
    while i < siblings.len()
        invariant
            i <= siblings@.len(),
            file_views(out@) == gguf_files(siblings@.take(i as int)),
        decreases siblings.len() - i,
    {
        assert(siblings@.take(i + 1).drop_last() =~= siblings@.take(i as int));
        let s = &siblings[i];
        let lowered = lower_all(chars_of(s.rfilename.as_str()).as_slice());
        if crate::text::ends_with_exec(lowered.as_slice(), lit(".gguf").as_slice()) {
            let ghost before = out@;
            out.push(HuggingFaceFile { path: s.rfilename.clone(), size_bytes: listed_size_exec(s) });
            assert(file_views(out@) =~= file_views(before).push((s.rfilename@, listed_size(*s))));
        }
        i += 1;
    }
    assert(siblings@.take(siblings@.len() as int) =~= siblings@);
    out
}

/// The shard facts of a file: folder, prefix, count and index.
pub open spec fn facts_match(f: Option<(Vec<char>, String, u32, u32)>, path: Seq<char>) -> bool {
    match (f, shard_of(path)) {
        (Some((d, p, c, i)), Some((sp, si, sc))) => d@ == path_directory(path) && p@ == sp && c
            == sc && i == si,
        (None, None) => true,
        _ => false,
    }
}

fn shard_facts(path: &str) -> (r: Option<(Vec<char>, String, u32, u32)>)
    ensures
        facts_match(r, path@),
{
    let pc = chars_of(path);
    let name = last_segment_exec(pc.as_slice());
    let name_text = string_of(name.as_slice());
    match parse_split_filename(name_text.as_str()) {
        Some(n) => {
            let d: Vec<char> = match rsplit_once_exec(pc.as_slice(), '/') {
                Some((d, _)) => d,
                None => Vec::new(),
            };
            assert(d@ =~= path_directory(path@));
            Some((d, n.prefix, n.count, n.index))
        },
        None => None,
    }
}

pub open spec fn key_view(k: (Vec<char>, String, u32)) -> (Seq<char>, Seq<char>, u32) {
    (k.0@, k.1@, k.2)
}

pub open spec fn key_views(v: Seq<(Vec<char>, String, u32)>) -> Seq<(Seq<char>, Seq<char>, u32)> {
    v.map_values(|k: (Vec<char>, String, u32)| key_view(k))
}

fn key_listed(keys: &Vec<(Vec<char>, String, u32)>, d: &Vec<char>, p: &String, c: u32) -> (r: bool)
    ensures
        r == key_views(keys@).contains((d@, p@, c)),
{
    let mut j: usize = 0;
    while j < keys.len()
        invariant
            j <= keys@.len(),
            forall|k: int| 0 <= k < j ==> key_views(keys@)[k] != (d@, p@, c),
        decreases keys.len() - j,
    {
        if keys[j].2 == c && chars_equal(keys[j].0.as_slice(), d.as_slice()) && keys[j].1 == *p {
            assert(key_views(keys@)[j as int] == (d@, p@, c));
            return true;
        }
        j += 1;
    }
    false
}


pub open spec fn member_view(m: (u32, HuggingFaceFile)) -> (u32, (Seq<char>, u64)) {
    (m.0, file_view(m.1))
}

pub open spec fn member_views(v: Seq<(u32, HuggingFaceFile)>) -> Seq<(u32, (Seq<char>, u64))> {
    v.map_values(|m: (u32, HuggingFaceFile)| member_view(m))
}

/// Inserts a shard after every shard whose index is not above its own.
fn insert_member(out: &mut Vec<(u32, HuggingFaceFile)>, x: (u32, HuggingFaceFile))
    ensures
        member_views(final(out)@) == insert_by(member_views(old(out)@), member_view(x), by_index()),
{
    let ghost s = member_views(out@);
    let ghost xv = member_view(x);
    let mut j: usize = out.len();
    while j > 0 && x.0 < out[j - 1].0
        invariant
            j <= out@.len(),
            s == member_views(out@),
            xv == member_view(x),
            forall|k: int| j <= k < out@.len() ==> (by_index())(xv, #[trigger] s[k]),
        decreases j,
    {
        j -= 1;
    }
    proof {
        crate::sorting::lemma_insert_point_prefix(s, xv, by_index(), j as int);
        let t = s.take(j as int);
        if j > 0 {
            assert(t.last() == s[j - 1]);
            assert(!(by_index())(xv, t.last()));
        }
        assert(insert_point(t, xv, by_index()) == j);
    }
    out.insert(j, x);
    assert(member_views(out@) =~= s.insert(j as int, xv));
}

/// Whether one of the indexes is `i`.
pub open spec fn index_listed(indexes: Seq<u32>, i: int) -> bool {
    exists|k: int| 0 <= k < indexes.len() && indexes[k] == i
}

fn index_in(indexes: &Vec<u32>, v: u64) -> (r: bool)
    ensures
        r == index_listed(indexes@, v as int),
{
    let mut k: usize = 0;
    while k < indexes.len()
        invariant
            k <= indexes@.len(),
            forall|m: int| 0 <= m < k ==> indexes@[m] != v,
        decreases indexes.len() - k,
    {
        if indexes[k] as u64 == v {
            return true;
        }
        k += 1;
    }
    false
}

/// Whether every index from one to `count` is among `indexes`.
fn indexes_cover(indexes: &Vec<u32>, count: u32) -> (r: bool)
    ensures
        r == forall|i: int| 1 <= i <= count ==> #[trigger] index_listed(indexes@, i),
{
    let mut i: u64 = 1;
    while i <= count as u64
        invariant
            1 <= i <= count as u64 + 1,
            forall|v: int| 1 <= v < i ==> #[trigger] index_listed(indexes@, v),
        decreases count as u64 + 1 - i,
    {
        if !index_in(indexes, i) {
            assert(!index_listed(indexes@, i as int));
            return false;
        }
        i += 1;
    }
    true
}

/// The selection of one split model of the listing.
fn shard_group(
    files: &Vec<HuggingFaceFile>,
    facts: &Vec<Option<(Vec<char>, String, u32, u32)>>,
    key: &(Vec<char>, String, u32),
) -> (r: HuggingFaceGgufSelection)
    requires
        facts@.len() == files@.len(),
        forall|m: int| 0 <= m < files@.len() ==> facts_match(#[trigger] facts@[m], files@[m].path@),
        shard_keys(file_views(files@)).contains(key_view(*key)),
        size_sum(file_views(files@)) <= u64::MAX,
    ensures
        r@ == shard_selection(file_views(files@), key_view(*key)),
{
    let ghost fv = file_views(files@);
    let ghost kv = key_view(*key);
    let mut ordered: Vec<(u32, HuggingFaceFile)> = Vec::new();
    let mut indexes: Vec<u32> = Vec::new();
    let mut total: u64 = 0;
    let mut m: usize = 0;
    assert(fv.take(0) =~= Seq::<(Seq<char>, u64)>::empty());
    assert(indexes@ =~= shard_members(fv.take(0), kv).map_values(|x: (u32, (Seq<char>, u64))| x.0));
    while m < files.len()
        invariant
            m <= files@.len(),
            fv == file_views(files@),
            kv == key_view(*key),
            facts@.len() == files@.len(),
            forall|q: int| 0 <= q < files@.len() ==> facts_match(#[trigger] facts@[q], files@[q].path@),
            size_sum(fv) <= u64::MAX,
            member_views(ordered@) == sort_by(shard_members(fv.take(m as int), kv), by_index()),
            indexes@ == shard_members(fv.take(m as int), kv).map_values(
                |x: (u32, (Seq<char>, u64))| x.0,
            ),
            total == member_sizes(shard_members(fv.take(m as int), kv)),
        decreases files.len() - m,
    {
        let ghost prefix = fv.take(m + 1);
        assert(prefix.drop_last() =~= fv.take(m as int));
        assert(prefix.last() == fv[m as int]);
        assert(facts_match(facts@[m as int], files@[m as int].path@));
        let ghost prev = shard_members(fv.take(m as int), kv);
        match &facts[m] {
            Some((d, p, c, i)) => {
                if *c == key.2 && chars_equal(d.as_slice(), key.0.as_slice()) && *p == key.1 {
                    let ghost x = (*i, fv[m as int]);
                    assert(shard_key(fv[m as int].0) == Some(kv));
                    assert(shard_members(prefix, kv) == prev.push(x));
                    assert(prev.push(x).drop_last() =~= prev);
                    proof {
                        lemma_member_sizes_bounded(prefix, kv);
                        lemma_size_sum_prefix(fv, m + 1);
                    }
                    total = total + files[m].size_bytes;
                    let ghost before_ix = indexes@;
                    indexes.push(*i);
                    assert(indexes@ =~= prev.push(x).map_values(|y: (u32, (Seq<char>, u64))| y.0));
                    let copied = copy_file(&files[m]);
                    insert_member(&mut ordered, (*i, copied));
                    assert(prev.push(x).drop_last() =~= prev);
                } else {
                    assert(shard_key(fv[m as int].0) != Some(kv));
                    assert(shard_members(prefix, kv) == prev);
                }
            },
            None => {
                assert(shard_members(prefix, kv) == prev);
            },
        }
        m += 1;
    }
    assert(fv.take(files@.len() as int) =~= fv);
    let ghost members = shard_members(fv, kv);
    proof {
        lemma_listed_key_has_members(fv, kv);
        crate::sorting::lemma_sort_len(members, by_index());
    }
    assert(member_views(ordered@).len() == ordered@.len());
    let id = ordered[0].1.path.clone();
    let mut out_files: Vec<HuggingFaceFile> = Vec::new();
    let mut k: usize = 0;
    while k < ordered.len()
        invariant
            k <= ordered@.len(),
            file_views(out_files@) == member_views(ordered@).take(k as int).map_values(
                |x: (u32, (Seq<char>, u64))| x.1,
            ),
        decreases ordered.len() - k,
    {
        let ghost before = out_files@;
        assert(member_views(ordered@)[k as int].1 == file_view(ordered@[k as int].1));
        out_files.push(copy_file(&ordered[k].1));
        assert(file_views(out_files@) =~= file_views(before).push(file_view(ordered@[k as int].1)));
        assert(member_views(ordered@).take(k + 1) =~= member_views(ordered@).take(k as int).push(
            member_views(ordered@)[k as int],
        ));
        k += 1;
        assert(file_views(out_files@) =~= member_views(ordered@).take(k as int).map_values(
            |x: (u32, (Seq<char>, u64))| x.1,
        ));
    }
    assert(member_views(ordered@).take(ordered@.len() as int) =~= member_views(ordered@));
    let complete = indexes.len() == key.2 as usize && indexes_cover(&indexes, key.2);
    proof {
        assert(indexes@.len() == members.len());
        assert forall|i: int|
            #![trigger index_listed(indexes@, i)]
            #![trigger has_index(members, i)]
            1 <= i <= kv.2 implies index_listed(indexes@, i) == has_index(members, i) by {
            if index_listed(indexes@, i) {
                let q = choose|q: int| 0 <= q < indexes@.len() && indexes@[q] == i;
                assert(members[q].0 == indexes@[q]);
            }
            if has_index(members, i) {
                let q = choose|q: int| 0 <= q < members.len() && members[q].0 == i;
                assert(indexes@[q] == members[q].0);
            }
        }
    }
    let r = HuggingFaceGgufSelection {
        id,
        display_name: key.1.clone(),
        files: out_files,
        total_size_bytes: total,
        expected_files: key.2 as usize,
        complete,
    };
    assert(member_views(ordered@)[0] == member_view(ordered@[0]));
    r
}

fn single_selection_exec(f: &HuggingFaceFile) -> (r: HuggingFaceGgufSelection)
    ensures
        r@ == single_selection(file_view(*f)),
{
    let name = last_segment_exec(chars_of(f.path.as_str()).as_slice());
    let mut files: Vec<HuggingFaceFile> = Vec::new();
    files.push(copy_file(f));
    assert(file_views(files@) =~= seq![file_view(*f)]);
    HuggingFaceGgufSelection {
        id: f.path.clone(),
        display_name: string_of(name.as_slice()),
        files,
        total_size_bytes: f.size_bytes,
        expected_files: 1,
        complete: true,
    }
}

fn name_before(a: &(Vec<char>, Vec<char>), b: &(Vec<char>, Vec<char>)) -> (r: bool)
    ensures
        r == (text_lt(a.0@, b.0@) || (a.0@ == b.0@ && text_lt(a.1@, b.1@))),
{
    let c = compare_text(a.0.as_slice(), b.0.as_slice());
    if c < 0 {
        true
    } else if c == 0 {
        compare_text(a.1.as_slice(), b.1.as_slice()) < 0
    } else {
        false
    }
}

/// Orders selections by ASCII-lowercased display name, then id, keeping the order of ties.
fn sort_selections(items: Vec<HuggingFaceGgufSelection>) -> (r: Vec<HuggingFaceGgufSelection>)
    ensures
        selection_views(r@) == sort_by(selection_views(items@), by_name()),
{
    let ghost all = selection_views(items@);
    let mut rest = items;
    let mut sorted: Vec<HuggingFaceGgufSelection> = Vec::new();
    let mut keys: Vec<(Vec<char>, Vec<char>)> = Vec::new();
    let mut done: usize = 0;
    let n: usize = rest.len();
    assert(all.take(0) =~= Seq::<SelectionModel>::empty());
    assert(selection_views(rest@) =~= all.skip(0));
    while rest.len() > 0
        invariant
            done + rest@.len() == all.len(),
            all.len() == n,
            selection_views(rest@) == all.skip(done as int),
            selection_views(sorted@) == sort_by(all.take(done as int), by_name()),
            keys@.len() == sorted@.len(),
            forall|q: int| 0 <= q < keys@.len() ==> (#[trigger] keys@[q]).0@ == ascii_lower(sorted@[q]@.display_name)
                && keys@[q].1@ == sorted@[q]@.id,
        decreases rest.len(),
    {
        let ghost before_rest = rest@;
        let x = rest.remove(0);
        assert(selection_views(before_rest)[0] == all.skip(done as int)[0]);
        assert forall|i: int| 0 <= i < rest@.len() implies selection_views(rest@)[i] == all.skip(
            done + 1,
        )[i] by {
            assert(rest@[i] == before_rest[i + 1]);
            assert(selection_views(before_rest)[i + 1] == all.skip(done as int)[i + 1]);
        }
        assert(selection_views(rest@) =~= all.skip(done + 1));
        let ghost xv = x@;
        assert(xv == all[done as int]);
        let kx = (lower_all(chars_of(x.display_name.as_str()).as_slice()), chars_of(x.id.as_str()));
        let ghost s = selection_views(sorted@);
        let mut j: usize = sorted.len();
        while j > 0 && name_before(&kx, &keys[j - 1])
            invariant
                j <= sorted@.len(),
                keys@.len() == sorted@.len(),
                s == selection_views(sorted@),
                forall|q: int| 0 <= q < keys@.len() ==> (#[trigger] keys@[q]).0@ == ascii_lower(sorted@[q]@.display_name)
                    && keys@[q].1@ == sorted@[q]@.id,
                kx.0@ == ascii_lower(xv.display_name),
                kx.1@ == xv.id,
                forall|q: int| j <= q < s.len() ==> (by_name())(xv, #[trigger] s[q]),
            decreases j,
        {
            assert(keys@[j - 1].0@ == ascii_lower(sorted@[j - 1]@.display_name));
            j -= 1;
        }
        proof {
            crate::sorting::lemma_insert_point_prefix(s, xv, by_name(), j as int);
            let t = s.take(j as int);
            if j > 0 {
                assert(t.last() == s[j - 1]);
                assert(keys@[j - 1].0@ == ascii_lower(sorted@[j - 1]@.display_name));
                assert(!(by_name())(xv, t.last()));
            }
            assert(insert_point(t, xv, by_name()) == j);
            assert(all.take(done + 1).drop_last() =~= all.take(done as int));
        }
        let ghost keys_before = keys@;
        let ghost sorted_before = sorted@;
        sorted.insert(j, x);
        keys.insert(j, kx);
        assert(selection_views(sorted@) =~= s.insert(j as int, xv));
        assert forall|q: int| 0 <= q < keys@.len() implies (#[trigger] keys@[q]).0@ == ascii_lower(sorted@[q]@.display_name)
            && keys@[q].1@ == sorted@[q]@.id by {
            if q < j {
                assert(keys@[q] == keys_before[q]);
                assert(sorted@[q] == sorted_before[q]);
            } else if q > j {
                assert(keys@[q] == keys_before[q - 1]);
                assert(sorted@[q] == sorted_before[q - 1]);
            }
        }
        done += 1;
    }
    assert(all.take(all.len() as int) =~= all);
    sorted
}

/// Groups a repository listing into downloadable selections: every `.gguf` file (extension in
/// any ASCII case) that is not a shard alone, the shards of each split model together in index
/// order and marked complete only when every shard is there; ordered by name, then id.
pub fn group_gguf_files(siblings: Vec<HubSibling>) -> (r: Vec<HuggingFaceGgufSelection>)
    requires
        size_sum(gguf_files(siblings@)) <= u64::MAX,
    ensures
        selection_views(r@) == gguf_selections(siblings@),
{
    let files = gguf_file_list(&siblings);
    let ghost fv = file_views(files@);
    let mut facts: Vec<Option<(Vec<char>, String, u32, u32)>> = Vec::new();
    let mut unsorted: Vec<HuggingFaceGgufSelection> = Vec::new();
    let mut keys: Vec<(Vec<char>, String, u32)> = Vec::new();
    let mut k: usize = 0;
    assert(fv.take(0) =~= Seq::<(Seq<char>, u64)>::empty());
    assert(selection_views(unsorted@) =~= Seq::<SelectionModel>::empty());
    assert(key_views(keys@) =~= Seq::<(Seq<char>, Seq<char>, u32)>::empty());
    while k < files.len()
        invariant
            k <= files@.len(),
            fv == file_views(files@),
            facts@.len() == k,
            forall|m: int| 0 <= m < k ==> facts_match(#[trigger] facts@[m], files@[m].path@),
            selection_views(unsorted@) == single_selections(fv.take(k as int)),
            key_views(keys@) == shard_keys(fv.take(k as int)),
        decreases files.len() - k,
    {
        assert(fv.take(k + 1).drop_last() =~= fv.take(k as int));
        assert(fv.take(k + 1).last() == fv[k as int]);
        let f = shard_facts(files[k].path.as_str());
        match &f {
            None => {
                let ghost before = unsorted@;
                let sel = single_selection_exec(&files[k]);
                unsorted.push(sel);
                assert(selection_views(unsorted@) =~= selection_views(before).push(sel@));
            },
            Some((d, p, c, _)) => {
                if !key_listed(&keys, d, p, *c) {
                    let ghost before = keys@;
                    keys.push((d.clone(), p.clone(), *c));
                    assert(key_views(keys@) =~= key_views(before).push((d@, p@, *c)));
                }
            },
        }
        facts.push(f);
        k += 1;
    }
    assert(fv.take(files@.len() as int) =~= fv);
    let ghost singles = selection_views(unsorted@);
    let ghost kvs = key_views(keys@);
    let mut j: usize = 0;
    while j < keys.len()
        invariant
            j <= keys@.len(),
            fv == file_views(files@),
            kvs == key_views(keys@),
            kvs == shard_keys(fv),
            size_sum(fv) <= u64::MAX,
            facts@.len() == files@.len(),
            forall|m: int| 0 <= m < files@.len() ==> facts_match(#[trigger] facts@[m], files@[m].path@),
            selection_views(unsorted@) == singles + kvs.take(j as int).map_values(
                |kk: (Seq<char>, Seq<char>, u32)| shard_selection(fv, kk),
            ),
        decreases keys.len() - j,
    {
        assert(kvs[j as int] == key_view(keys@[j as int]));
        assert(shard_keys(fv).contains(key_view(keys@[j as int])));
        let ghost before = unsorted@;
        let sel = shard_group(&files, &facts, &keys[j]);
        let ghost sv = sel@;
        unsorted.push(sel);
        assert(selection_views(unsorted@) =~= selection_views(before).push(sv));
        assert(kvs.take(j + 1) =~= kvs.take(j as int).push(kvs[j as int]));
        j += 1;
        assert(selection_views(unsorted@) =~= singles + kvs.take(j as int).map_values(
            |kk: (Seq<char>, Seq<char>, u32)| shard_selection(fv, kk),
        ));
    }
    assert(kvs.take(keys@.len() as int) =~= kvs);
    sort_selections(unsorted)
}


// ---------------------------------------------------------------------------------------------
// Hub addresses
// ---------------------------------------------------------------------------------------------

/// What `reqwest::Url` gives for the address `base` with `segments` appended as path segments and
/// one `key=value` query pair, or `None` where `base` does not parse or cannot take path
/// segments.
pub uninterp spec fn endpoint_url(base: Seq<char>, segments: Seq<Seq<char>>, key: Seq<char>, value: Seq<char>) -> Option<Seq<char>>;

/// Builds an address with `reqwest::Url`: parses `base`, extends its path with the
/// segments (which the `url` crate percent-encodes) and appends one query pair. The contract
/// claims only that the text is `endpoint_url` of the arguments; the encoding is not stated.
#[verifier::external_body]
fn endpoint_url_exec(base: &str, segments: &Vec<String>, key: &str, value: &str) -> (r: Option<String>)
    ensures
        opt_text(r) == endpoint_url(base@, texts(segments@), key@, value@),
{
    let mut url = reqwest::Url::parse(base).ok()?;
    url.path_segments_mut().ok()?.extend(segments.iter().map(|segment| segment.as_str()));
    url.query_pairs_mut().append_pair(key, value);
    Some(url.to_string())
}

fn push_text(v: &mut Vec<String>, s: &str)
    ensures
        texts(final(v)@) == texts(old(v)@).push(s@),
{
    let ghost before = v@;
    v.push(s.to_string());
    proof {
        crate::text::lemma_texts_push(before, v@.last());
    }
}

/// The message when a repository id has no `/`.
pub open spec fn invalid_id_message() -> Seq<char> {
    "Invalid normalized Hugging Face repository ID."@
}

/// The address that lists a repository revision with its files: `api/models/<owner>/<name>/
/// revision/<revision>?blobs=true`.
pub fn model_info_url(repository_id: &str, revision: &str) -> (r: AppResult<String>)
    ensures
        match split_once(repository_id@, '/') {
            None => r matches Err(e) && e.code == ErrorCode::Internal && e.message@
                == invalid_id_message() && e.hint is None && e.details is None,
            Some((owner, name)) => match endpoint_url(
                HUB_ENDPOINT@,
                seq!["api"@, "models"@, owner, name, "revision"@, revision@],
                "blobs"@,
                "true"@,
            ) {
                Some(url) => r matches Ok(u) && u@ == url,
                None => r matches Err(e) && e.code == ErrorCode::Internal && e.message@
                    == "Could not construct the Hugging Face API URL."@ && e.hint is None
                    && e.details is None,
            },
        },
{
    let id = chars_of(repository_id);
    match crate::text::split_once_exec(id.as_slice(), '/') {
        None => Err(AppError::internal("Invalid normalized Hugging Face repository ID.")),
        Some((owner, name)) => {
            let mut segments: Vec<String> = Vec::new();
            push_text(&mut segments, "api");
            push_text(&mut segments, "models");
            let o = string_of(owner.as_slice());
            let n = string_of(name.as_slice());
            push_text(&mut segments, o.as_str());
            push_text(&mut segments, n.as_str());
            push_text(&mut segments, "revision");
            push_text(&mut segments, revision);
            assert(texts(segments@) =~= seq!["api"@, "models"@, owner@, name@, "revision"@, revision@]);
            match endpoint_url_exec(HUB_ENDPOINT, &segments, "blobs", "true") {
                Some(url) => Ok(url),
                None => Err(AppError::internal("Could not construct the Hugging Face API URL.")),
            }
        },
    }
}

/// A path segment that cannot name a file of the repository.
pub open spec fn bad_path_part(part: Seq<char>) -> bool {
    part.len() == 0 || part == "."@ || part == ".."@
}

/// The address that downloads one file of a revision: `<owner>/<name>/resolve/<revision>/
/// <path segments>?download=true`; a path with an empty, `.` or `..` segment is refused.
pub fn download_url(repository_id: &str, revision: &str, path: &str) -> (r: AppResult<String>)
    ensures
        match split_once(repository_id@, '/') {
            None => r matches Err(e) && e.code == ErrorCode::Internal && e.message@
                == invalid_id_message() && e.hint is None && e.details is None,
            Some((owner, name)) => match endpoint_url(
                HUB_ENDPOINT@,
                seq![owner, name, "resolve"@, revision@] + split(path@, '/'),
                "download"@,
                "true"@,
            ) {
                None => r matches Err(e) && e.code == ErrorCode::Internal && e.message@
                    == "Could not construct the Hugging Face download URL."@ && e.hint is None
                    && e.details is None,
                Some(url) => if exists|k: int|
                    0 <= k < split(path@, '/').len() && bad_path_part(
                        #[trigger] split(path@, '/')[k],
                    ) {
                    r matches Err(e) && unsafe_filename_spec(path@, e)
                } else {
                    r matches Ok(u) && u@ == url
                },
            },
        },
{
    let id = chars_of(repository_id);
    match crate::text::split_once_exec(id.as_slice(), '/') {
        None => Err(AppError::internal("Invalid normalized Hugging Face repository ID.")),
        Some((owner, name)) => {
            let mut segments: Vec<String> = Vec::new();
            let o = string_of(owner.as_slice());
            let n = string_of(name.as_slice());
            push_text(&mut segments, o.as_str());
            push_text(&mut segments, n.as_str());
            push_text(&mut segments, "resolve");
            push_text(&mut segments, revision);
            let ghost head = texts(segments@);
            let parts = split_exec(chars_of(path).as_slice(), '/');
            let mut k: usize = 0;
            let mut bad = false;
            while k < parts.len()
                invariant
                    k <= parts@.len(),
                    views(parts@) == split(path@, '/'),
                    texts(segments@) == head + views(parts@).take(k as int),
                    bad == exists|q: int| 0 <= q < k && bad_path_part(#[trigger] views(parts@)[q]),
                decreases parts.len() - k,
            {
                let part = parts[k].as_slice();
                assert(views(parts@)[k as int] == part@);
                if part.len() == 0 || chars_equal(part, lit(".").as_slice()) || chars_equal(part, lit("..").as_slice()) {
                    bad = true;
                }
                let text = string_of(part);
                push_text(&mut segments, text.as_str());
                assert(views(parts@).take(k + 1) =~= views(parts@).take(k as int).push(part@));
                k += 1;
            }
            assert(views(parts@).take(parts@.len() as int) =~= views(parts@));
            assert(head =~= seq![owner@, name@, "resolve"@, revision@]);
            match endpoint_url_exec(HUB_ENDPOINT, &segments, "download", "true") {
                None => Err(AppError::internal("Could not construct the Hugging Face download URL.")),
                Some(url) => if bad {
                    Err(unsafe_filename_error(path))
                } else {
                    Ok(url)
                },
            }
        },
    }
}

// ---------------------------------------------------------------------------------------------
// Reading a repository listing
// ---------------------------------------------------------------------------------------------

/// Whether the listing's GGUF sizes add up within `u64`.
pub fn gguf_sizes_fit(siblings: &Vec<HubSibling>) -> (r: bool)
    ensures
        r == (size_sum(gguf_files(siblings@)) <= u64::MAX),
{
    let files = gguf_file_list(siblings);
    let ghost fv = file_views(files@);
    let mut total: u64 = 0;
    let mut k: usize = 0;
    assert(fv.take(0) =~= Seq::<(Seq<char>, u64)>::empty());
    while k < files.len()
        invariant
            k <= files@.len(),
            fv == file_views(files@),
            fv == gguf_files(siblings@),
            total == size_sum(fv.take(k as int)),
        decreases files.len() - k,
    {
        assert(fv.take(k + 1).drop_last() =~= fv.take(k as int));
        assert(fv.take(k + 1).last() == fv[k as int]);
        assert(fv[k as int].1 == files@[k as int].size_bytes);
        assert(size_sum(fv.take(k + 1)) == size_sum(fv.take(k as int)) + fv[k as int].1);
        let size = files[k].size_bytes;
        if total > u64::MAX - size {
            proof {
                lemma_size_sum_prefix(fv, k + 1);
            }
            return false;
        }
        total = total + size;
        k += 1;
    }
    assert(fv.take(files@.len() as int) =~= fv);
    true
}

/// The message when the hub does not pin the listed revision to a commit.
pub open spec fn unpinned_message() -> Seq<char> {
    "Hugging Face did not return a pinned repository revision."@
}

/// The repository that a listing describes: its revision must be a full commit id, and its
/// files are grouped into selections.
pub fn repository_from_listing(
    repository_id: String,
    sha: Option<String>,
    siblings: Vec<HubSibling>,
) -> (r: AppResult<HuggingFaceRepository>)
    requires
        size_sum(gguf_files(siblings@)) <= u64::MAX,
    ensures
        match r {
            Ok(repo) => sha matches Some(s) && is_commit_sha_spec(s@) && repo.repository_id@
                == repository_id@ && repo.revision@ == s@ && selection_views(repo.selections@)
                == gguf_selections(siblings@),
            Err(e) => !(sha matches Some(s) && is_commit_sha_spec(s@)) && e.code
                == ErrorCode::ModelDownloadFailed && e.message@ == unpinned_message()
                && e.hint is None && e.details is None,
        },
{
    match sha {
        Some(s) => if is_commit_sha(s.as_str()) {
            Ok(
                HuggingFaceRepository {
                    repository_id,
                    revision: s,
                    selections: group_gguf_files(siblings),
                },
            )
        } else {
            Err(
                AppError::new(
                    ErrorCode::ModelDownloadFailed,
                    "Hugging Face did not return a pinned repository revision.",
                ),
            )
        },
        None => Err(
            AppError::new(
                ErrorCode::ModelDownloadFailed,
                "Hugging Face did not return a pinned repository revision.",
            ),
        ),
    }
}

/// A pinned revision is a full commit id: forty hex digits.
pub open spec fn is_commit_sha_spec(revision: Seq<char>) -> bool {
    revision.len() == 40 && forall|k: int| 0 <= k < revision.len() ==> crate::text::is_hex(#[trigger] revision[k])
}

pub fn is_commit_sha(revision: &str) -> (r: bool)
    ensures
        r == is_commit_sha_spec(revision@),
{
    let r = chars_of(revision);
    if r.len() != 40 {
        return false;
    }
    let mut i: usize = 0;
    while i < r.len()
        invariant
            i <= r@.len(),
            r@ == revision@,
            r@.len() == 40,
            forall|k: int| 0 <= k < i ==> crate::text::is_hex(#[trigger] r@[k]),
        decreases r.len() - i,
    {
        if !crate::text::is_ascii_hexdigit(r[i]) {
            assert(!crate::text::is_hex(r@[i as int]));
            return false;
        }
        i += 1;
    }
    true
}

// ---------------------------------------------------------------------------------------------
// Hub answers
// ---------------------------------------------------------------------------------------------

/// An HTTP status in the success range.
pub open spec fn is_success_status(status: u16) -> bool {
    200 <= status <= 299
}

/// What a repository listing's status means: access refused, not found, another failure, or
/// success.
pub fn checked_hub_status(status: u16, status_text: &str, repository_id: &str) -> (r: AppResult<()>)
    ensures
        r is Ok <==> (status != 401 && status != 403 && status != 404 && is_success_status(status)),
        r matches Err(e) ==> e.code == ErrorCode::ModelDownloadFailed && if status == 401 || status == 403 {
            e.message@ == "This Hugging Face repository requires access or authentication."@
                && opt_text(e.hint) == Some("This version currently supports public, ungated repositories only."@)
        } else if status == 404 {
            e.message@ == "Hugging Face repository '"@ + repository_id@ + "' was not found."@
                && opt_text(e.hint) == Some("Check the repository ID and make sure it is public."@)
        } else {
            e.message@ == "Hugging Face could not list this repository."@ && opt_text(e.details)
                == kept_details(None, "HTTP "@ + status_text@)
        },
{
    if status == 401 || status == 403 {
        return Err(
            AppError::new(
                ErrorCode::ModelDownloadFailed,
                "This Hugging Face repository requires access or authentication.",
            ).with_hint("This version currently supports public, ungated repositories only."),
        );
    }
    if status == 404 {
        let message = concat_text(
            concat_text("Hugging Face repository '", repository_id).as_str(),
            "' was not found.",
        );
        return Err(
            AppError::new(ErrorCode::ModelDownloadFailed, message.as_str()).with_hint(
                "Check the repository ID and make sure it is public.",
            ),
        );
    }
    if !(200 <= status && status <= 299) {
        let details = concat_text("HTTP ", status_text);
        return Err(
            AppError::new(
                ErrorCode::ModelDownloadFailed,
                "Hugging Face could not list this repository.",
            ).with_details(details.as_str()),
        );
    }
    Ok(())
}

/// What a file download's status means.
pub fn checked_download_status(status: u16, status_text: &str, path: &str) -> (r: AppResult<()>)
    ensures
        r is Ok <==> (status != 401 && status != 403 && is_success_status(status)),
        r matches Err(e) ==> e.code == ErrorCode::ModelDownloadFailed && if status == 401 || status == 403 {
            e.message@ == "Hugging Face denied access to the selected model file."@
                && opt_text(e.hint) == Some("This version currently supports public, ungated repositories only."@)
        } else {
            e.message@ == "Hugging Face could not download '"@ + path@ + "'."@ && opt_text(e.details)
                == kept_details(None, "HTTP "@ + status_text@)
        },
{
    if status == 401 || status == 403 {
        return Err(
            AppError::new(
                ErrorCode::ModelDownloadFailed,
                "Hugging Face denied access to the selected model file.",
            ).with_hint("This version currently supports public, ungated repositories only."),
        );
    }
    if !(200 <= status && status <= 299) {
        let message = concat_text(concat_text("Hugging Face could not download '", path).as_str(), "'.");
        let details = concat_text("HTTP ", status_text);
        return Err(
            AppError::new(ErrorCode::ModelDownloadFailed, message.as_str()).with_details(details.as_str()),
        );
    }
    Ok(())
}

/// A request to the hub that did not complete.
pub fn hub_request_error(error: &str) -> (e: AppError)
    ensures
        e.code == ErrorCode::ModelDownloadFailed,
        e.message@ == "The connection to Hugging Face failed."@,
        opt_text(e.hint) == Some("Check the network connection and try again."@),
        opt_text(e.details) == kept_details(None, error@),
{
    AppError::new(ErrorCode::ModelDownloadFailed, "The connection to Hugging Face failed.").with_hint(
        "Check the network connection and try again.",
    ).with_details(error)
}

/// A file whose received size differs from the listed one; files listed without a size are
/// not checked.
pub fn size_mismatch(path: &str, expected: u64, received: u64) -> (r: Option<AppError>)
    ensures
        r is Some <==> (expected > 0 && received != expected),
        r matches Some(e) ==> e.code == ErrorCode::ModelDownloadFailed && e.message@
            == "Downloaded size did not match for '"@ + path@ + "'."@ && opt_text(e.details)
            == kept_details(
            None,
            "Expected "@ + decimal_text(expected as nat) + " bytes, received "@ + decimal_text(
                received as nat,
            ) + " bytes."@,
        ),
{
    if expected > 0 && received != expected {
        let message = concat_text(concat_text("Downloaded size did not match for '", path).as_str(), "'.");
        let mut details = chars_of("Expected ");
        crate::text::push_decimal(&mut details, expected);
        crate::text::append_chars(&mut details, chars_of(" bytes, received ").as_slice());
        crate::text::push_decimal(&mut details, received);
        crate::text::append_chars(&mut details, chars_of(" bytes.").as_slice());
        let d = string_of(details.as_slice());
        Some(AppError::new(ErrorCode::ModelDownloadFailed, message.as_str()).with_details(d.as_str()))
    } else {
        None
    }
}

/// The selection to download: the one with `selection_id`, which must be complete.
pub fn find_selection<'a>(repository: &'a HuggingFaceRepository, selection_id: &str) -> (r: AppResult<&'a HuggingFaceGgufSelection>)
    ensures
        match r {
            Ok(s) => s.id@ == selection_id@ && s.complete && exists|i: int|
                0 <= i < repository.selections@.len() && repository.selections@[i] == *s
                    && forall|j: int| 0 <= j < i ==> #[trigger] repository.selections@[j].id@ != selection_id@,
            Err(e) => e.code == ErrorCode::ModelDownloadFailed && if exists|i: int|
                0 <= i < repository.selections@.len() && #[trigger] repository.selections@[i].id@
                    == selection_id@ {
                e.message@ == "The selected split GGUF is incomplete in the repository."@
                    && e.hint is None && e.details is None && exists|i: int|
                    0 <= i < repository.selections@.len() && repository.selections@[i].id@
                        == selection_id@ && !repository.selections@[i].complete && forall|j: int|
                        0 <= j < i ==> #[trigger] repository.selections@[j].id@ != selection_id@
            } else {
                e.message@ == "The selected GGUF file is no longer available in this repository revision."@
                    && opt_text(e.hint) == Some("Load the repository files again and retry."@)
                    && e.details is None
            },
        },
{
    let want = chars_of(selection_id);
    let mut i: usize = 0;
    while i < repository.selections.len()
        invariant
            i <= repository.selections@.len(),
            want@ == selection_id@,
            forall|j: int| 0 <= j < i ==> #[trigger] repository.selections@[j].id@ != selection_id@,
        decreases repository.selections.len() - i,
    {
        let s = &repository.selections[i];
        if chars_equal(chars_of(s.id.as_str()).as_slice(), want.as_slice()) {
            if !s.complete {
                return Err(
                    AppError::new(
                        ErrorCode::ModelDownloadFailed,
                        "The selected split GGUF is incomplete in the repository.",
                    ),
                );
            }
            return Ok(s);
        }
        i += 1;
    }
    Err(
        AppError::new(
            ErrorCode::ModelDownloadFailed,
            "The selected GGUF file is no longer available in this repository revision.",
        ).with_hint("Load the repository files again and retry."),
    )
}

} // verus!
