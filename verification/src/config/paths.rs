//! The on-disk layout the application owns, and validation of paths that cross the IPC boundary.
use vstd::prelude::*;

use crate::error::{kept_details, AppError, AppResult, ErrorCode};
use crate::text::{append_chars, chars_of, split, string_of};

verus! {

/// Folder created inside the user's home directory for large, user-owned artifacts.
pub const WORKSPACE_DIR_NAME: &'static str = "LlamaControl";

/// A single path component that holds no separator and no drive prefix, and is neither `.` nor
/// `..`.
pub open spec fn plain_component(part: Seq<char>) -> bool {
    &&& part.len() > 0
    &&& forall|i: int| 0 <= i < part.len() ==> part[i] != '/' && part[i] != '\\' && part[i] != ':'
    &&& !(part.len() == 1 && part[0] == '.')
    &&& !(part.len() == 2 && part[0] == '.' && part[1] == '.')
}

/// A part that joins onto a path on Unix and on Windows alike: it is not empty, does not start
/// with a separator, and does not start with a drive such as `C:`.
pub open spec fn relative_part(part: Seq<char>) -> bool {
    &&& part.len() > 0
    &&& part[0] != '/' && part[0] != '\\'
    &&& !(part.len() >= 2 && part[1] == ':' && (('a' <= part[0] && part[0] <= 'z') || ('A'
        <= part[0] && part[0] <= 'Z')))
}

/// A Windows verbatim path (`\\?\...`), which `Path::join` rebuilds component by component.
pub open spec fn verbatim_path(base: Seq<char>) -> bool {
    base.len() >= 4 && base[0] == '\\' && base[1] == '\\' && base[2] == '?' && base[3] == '\\'
}

/// A bare Windows drive such as `C:`, onto which Windows joins without a separator.
pub open spec fn bare_drive(base: Seq<char>) -> bool {
    base.len() == 2 && base[1] == ':' && (('a' <= base[0] && base[0] <= 'z') || ('A' <= base[0]
        && base[0] <= 'Z'))
}

/// What joining a relative part onto `base` gives, on Unix and on Windows: the component alone
/// onto an empty base; `base` and the component when `base` ends in `/`; otherwise `base`, the
/// separator and the component, where the separator is `/` on Unix and `\` on Windows, and
/// Windows adds none after a `\` or a bare drive. A verbatim base is not described.
pub open spec fn joined(base: Seq<char>, part: Seq<char>, result: Seq<char>) -> bool {
    if verbatim_path(base) {
        true
    } else if base.len() == 0 {
        result == part
    } else if base.last() == '/' {
        result == base + part
    } else if base.last() == '\\' || bare_drive(base) {
        result == base + part || result == base + seq!['/'] + part
    } else {
        result == base + seq!['/'] + part || result == base + seq!['\\'] + part
    }
}

/// `Path::join`, rendered back to text. Only relative parts are described: for those, Unix and
/// Windows append the part as it is and differ only in which characters separate and in the
/// separator they add. An absolute part or one with a drive replaces the base instead.
#[verifier::external_body]
pub(crate) fn join_path(base: &str, part: &str) -> (r: String)
    ensures
        relative_part(part@) ==> joined(base@, part@, r@),
{
    std::path::Path::new(base).join(part).to_string_lossy().into_owned()
}

/// Resolved on-disk layout for everything the application owns.
#[derive(Debug, Clone)]
pub struct AppPaths {
    pub data_dir: String,
    pub settings_file: String,
    pub sources_dir: String,
    pub sources_metadata_file: String,
    pub builds_dir: String,
    pub builds_metadata_file: String,
    pub profiles_dir: String,
    pub runtimes_dir: String,
    pub runtimes_metadata_file: String,
    pub models_dir: String,
    pub models_metadata_file: String,
    pub cache_dir: String,
    pub model_metadata_cache_file: String,
    pub logs_dir: String,
    pub default_workspace_dir: String,
}

/// `data` joined with `a`, then with `b`.
pub open spec fn joined2(data: Seq<char>, a: Seq<char>, b: Seq<char>, result: Seq<char>) -> bool {
    exists|middle: Seq<char>| joined(data, a, middle) && joined(middle, b, result)
}

fn join2(base: &str, a: &str, b: &str) -> (r: String)
    requires
        plain_component(a@),
        plain_component(b@),
    ensures
        joined2(base@, a@, b@, r@),
{
    let middle = join_path(base, a);
    let r = join_path(middle.as_str(), b);
    assert(joined(base@, a@, middle@) && joined(middle@, b@, r@));
    r
}

impl AppPaths {
    /// The layout below an application-data directory and a default workspace directory.
    pub fn from_roots(data_dir: String, default_workspace_dir: String) -> (p: Self)
        ensures
            p.data_dir@ == data_dir@,
            p.default_workspace_dir@ == default_workspace_dir@,
            joined(data_dir@, "settings.json"@, p.settings_file@),
            joined(data_dir@, "sources"@, p.sources_dir@),
            joined2(data_dir@, "sources"@, "metadata.json"@, p.sources_metadata_file@),
            joined(data_dir@, "builds"@, p.builds_dir@),
            joined2(data_dir@, "builds"@, "metadata.json"@, p.builds_metadata_file@),
            joined(data_dir@, "profiles"@, p.profiles_dir@),
            joined(data_dir@, "runtimes"@, p.runtimes_dir@),
            joined2(data_dir@, "runtimes"@, "metadata.json"@, p.runtimes_metadata_file@),
            joined(data_dir@, "models"@, p.models_dir@),
            joined2(data_dir@, "models"@, "metadata.json"@, p.models_metadata_file@),
            joined(data_dir@, "cache"@, p.cache_dir@),
            joined2(data_dir@, "cache"@, "model-metadata.json"@, p.model_metadata_cache_file@),
            joined(data_dir@, "logs"@, p.logs_dir@),
    {
        proof {
            reveal_strlit("settings.json");
            reveal_strlit("sources");
            reveal_strlit("metadata.json");
            reveal_strlit("builds");
            reveal_strlit("profiles");
            reveal_strlit("runtimes");
            reveal_strlit("models");
            reveal_strlit("cache");
            reveal_strlit("model-metadata.json");
            reveal_strlit("logs");
        }
        let d = data_dir.as_str();
        AppPaths {
            settings_file: join_path(d, "settings.json"),
            sources_metadata_file: join2(d, "sources", "metadata.json"),
            sources_dir: join_path(d, "sources"),
            builds_metadata_file: join2(d, "builds", "metadata.json"),
            builds_dir: join_path(d, "builds"),
            profiles_dir: join_path(d, "profiles"),
            runtimes_metadata_file: join2(d, "runtimes", "metadata.json"),
            runtimes_dir: join_path(d, "runtimes"),
            models_metadata_file: join2(d, "models", "metadata.json"),
            models_dir: join_path(d, "models"),
            model_metadata_cache_file: join2(d, "cache", "model-metadata.json"),
            cache_dir: join_path(d, "cache"),
            logs_dir: join_path(d, "logs"),
            data_dir: data_dir.clone(),
            default_workspace_dir,
        }
    }

    pub fn default_sources_workspace(&self) -> (r: String)
        ensures
            joined(self.default_workspace_dir@, "sources"@, r@),
    {
        proof {
            reveal_strlit("sources");
        }
        join_path(self.default_workspace_dir.as_str(), "sources")
    }

    pub fn default_builds_workspace(&self) -> (r: String)
        ensures
            joined(self.default_workspace_dir@, "builds"@, r@),
    {
        proof {
            reveal_strlit("builds");
        }
        join_path(self.default_workspace_dir.as_str(), "builds")
    }
}

/// What the application reports about itself: its name, version, on-disk layout and platform.
#[derive(Debug, Clone)]
pub struct AppInfo {
    pub name: String,
    pub version: String,
    pub paths: AppPaths,
    pub platform: String,
}

/// `std::path::MAIN_SEPARATOR`, the main path separator of the platform this was compiled for;
/// it differs between platforms, so nothing is stated.
#[verifier::external_body]
pub(crate) fn main_separator() -> char {
    std::path::MAIN_SEPARATOR
}

/// Text that may be absolute on some platform: it starts with `/` or `\\` (Unix roots, Windows
/// roots and UNC or verbatim prefixes) or has `:` second (a Windows drive).
pub open spec fn may_be_absolute(s: Seq<char>) -> bool {
    (s.len() > 0 && (s[0] == '/' || s[0] == '\\')) || (s.len() >= 2 && s[1] == ':')
}

/// Text with a `..` segment between `/` separators, that does not start with two separators:
/// such text has a `..` component on Unix and on Windows alike. (Two leading separators start a
/// Windows UNC, device or verbatim prefix, which may take a `..` as its own part.)
pub open spec fn parent_segment(s: Seq<char>) -> bool {
    &&& !(s.len() >= 2 && (s[0] == '/' || s[0] == '\\') && (s[1] == '/' || s[1] == '\\'))
    &&& exists|k: int|
        0 <= k < split(s, '/').len() && #[trigger] split(s, '/')[k] == seq!['.', '.']
}

/// `Path::is_absolute` on this platform. Unix and Windows disagree on which texts are absolute;
/// what both agree on is stated: text that may be absolute on neither is not.
#[verifier::external_body]
pub(crate) fn path_is_absolute(path: &str) -> (r: bool)
    ensures
        r ==> may_be_absolute(path@),
{
    std::path::Path::new(path).is_absolute()
}

/// Whether `Path::components` yields a `..` component on this platform. The component grammar
/// differs between Unix and Windows; what both agree on is stated: a `..` segment between `/`
/// separators is one, unless the text starts with two separators.
#[verifier::external_body]
pub(crate) fn path_has_parent_component(path: &str) -> (r: bool)
    ensures
        parent_segment(path@) ==> r,
{
    std::path::Path::new(path).components().any(
        |component| matches!(component, std::path::Component::ParentDir),
    )
}

fn labelled(label: &str, tail: &str) -> (r: String)
    ensures
        r@ == label@ + tail@,
{
    let mut text = chars_of(label);
    append_chars(&mut text, chars_of(tail).as_slice());
    string_of(text.as_slice())
}

/// What checking `candidate` gives, given whether this platform considers it absolute and whether
/// it has a `..` component: the candidate itself, or the first refusal among empty, relative and
/// with `..`.
pub open spec fn path_verdict(
    candidate: Seq<char>,
    label: Seq<char>,
    is_absolute: bool,
    has_parent_component: bool,
    r: AppResult<String>,
) -> bool {
    match r {
            Ok(path) => candidate.len() > 0 && is_absolute && !has_parent_component && path@
                == candidate,
            Err(e) => e.code == ErrorCode::InvalidPath && e.hint is None && if candidate.len()
                == 0 {
                e.message@ == label + " is required."@ && e.details is None
            } else if !is_absolute {
                e.message@ == label + " must be an absolute path."@ && crate::error::opt_text(
                    e.details,
                ) == kept_details(None, candidate)
            } else {
                has_parent_component && e.message@ == label
                    + " must not contain \"..\" segments."@ && crate::error::opt_text(e.details)
                    == kept_details(None, candidate)
            },
        }
}

/// Why a candidate path is refused, in order: it is empty, it is not absolute, or it has a `..`
/// component; each message starts with `label`.
pub fn absolute_path_verdict(
    candidate: &str,
    label: &str,
    is_absolute: bool,
    has_parent_component: bool,
) -> (r: AppResult<String>)
    ensures
        path_verdict(candidate@, label@, is_absolute, has_parent_component, r),
{
    if candidate.is_empty() {
        let message = labelled(label, " is required.");
        return Err(AppError::invalid_path(message.as_str()));
    }
    if !is_absolute {
        let message = labelled(label, " must be an absolute path.");
        return Err(AppError::invalid_path(message.as_str()).with_details(candidate));
    }
    if has_parent_component {
        let message = labelled(label, " must not contain \"..\" segments.");
        return Err(AppError::invalid_path(message.as_str()).with_details(candidate));
    }
    Ok(candidate.to_string())
}

/// Rejects paths that are empty, relative, or contain parent traversal segments.
pub fn validate_absolute_path(candidate: &str, label: &str) -> (r: AppResult<String>)
    ensures
        exists|is_absolute: bool, has_parent_component: bool|
            {
                &&& path_verdict(candidate@, label@, is_absolute, has_parent_component, r)
                &&& is_absolute ==> may_be_absolute(candidate@)
                &&& parent_segment(candidate@) ==> has_parent_component
            },
        (candidate@.len() > 0 && !may_be_absolute(candidate@)) ==> (r matches Err(e) && e.code
            == ErrorCode::InvalidPath && e.message@ == label@ + " must be an absolute path."@),
        parent_segment(candidate@) ==> (r matches Err(e) && e.code == ErrorCode::InvalidPath && (
        e.message@ == label@ + " must be an absolute path."@ || e.message@ == label@
            + " must not contain \"..\" segments."@)),
{
    let is_absolute = path_is_absolute(candidate);
    let has_parent = path_has_parent_component(candidate);
    let r = absolute_path_verdict(candidate, label, is_absolute, has_parent);
    proof {
        if parent_segment(candidate@) {
            let k = choose|k: int|
                0 <= k < split(candidate@, '/').len() && #[trigger] split(candidate@, '/')[k]
                    == seq!['.', '.'];
            crate::text::lemma_split_piece_len(candidate@, '/', k);
        }
    }
    assert(path_verdict(candidate@, label@, is_absolute, has_parent, r));
    r
}

/// What checking that `candidate` names an existing directory gives: the path checks first, then
/// whether the disk holds a directory there.
pub open spec fn directory_verdict(
    candidate: Seq<char>,
    label: Seq<char>,
    is_absolute: bool,
    has_parent_component: bool,
    is_directory: bool,
    r: AppResult<String>,
) -> bool {
    if !(candidate.len() > 0 && is_absolute && !has_parent_component) {
        path_verdict(candidate, label, is_absolute, has_parent_component, r)
    } else if !is_directory {
        r matches Err(e) && e.code == ErrorCode::InvalidPath && e.hint is None && e.message@
            == label + " does not exist or is not a directory."@ && crate::error::opt_text(
            e.details,
        ) == kept_details(None, candidate)
    } else {
        r matches Ok(path) && path@ == candidate
    }
}

/// A validated absolute path that names an existing directory; `is_directory` is what the disk
/// says of it.
pub fn require_existing_directory(candidate: &str, label: &str, is_directory: bool) -> (r: AppResult<String>)
    ensures
        exists|is_absolute: bool, has_parent_component: bool|
            {
                &&& directory_verdict(
                    candidate@,
                    label@,
                    is_absolute,
                    has_parent_component,
                    is_directory,
                    r,
                )
                &&& is_absolute ==> may_be_absolute(candidate@)
                &&& parent_segment(candidate@) ==> has_parent_component
            },
        (candidate@.len() > 0 && !may_be_absolute(candidate@)) ==> (r matches Err(e) && e.code
            == ErrorCode::InvalidPath && e.message@ == label@ + " must be an absolute path."@),
        parent_segment(candidate@) ==> (r matches Err(e) && e.code == ErrorCode::InvalidPath && (
        e.message@ == label@ + " must be an absolute path."@ || e.message@ == label@
            + " must not contain \"..\" segments."@)),
{
    let is_absolute = path_is_absolute(candidate);
    let has_parent = path_has_parent_component(candidate);
    let checked = absolute_path_verdict(candidate, label, is_absolute, has_parent);
    let r = match checked {
        Ok(path) => if !is_directory {
            let message = labelled(label, " does not exist or is not a directory.");
            Err(AppError::invalid_path(message.as_str()).with_details(path.as_str()))
        } else {
            Ok(path)
        },
        Err(e) => Err(e),
    };
    proof {
        if parent_segment(candidate@) {
            let k = choose|k: int|
                0 <= k < split(candidate@, '/').len() && #[trigger] split(candidate@, '/')[k]
                    == seq!['.', '.'];
            crate::text::lemma_split_piece_len(candidate@, '/', k);
        }
    }
    assert(directory_verdict(candidate@, label@, is_absolute, has_parent, is_directory, r));
    r
}

} // verus!
