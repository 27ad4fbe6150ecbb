//! Where a runtime's capability inspections are kept, and which of them may be removed.
use vstd::prelude::*;

use crate::config::paths::{join_path, joined, plain_component};
use crate::error::{kept_details, opt_text, AppError, AppResult, ErrorCode};
use crate::text::{ascii_lower, is_hex};

verus! {

pub const CAPABILITIES_DIRECTORY: &'static str = "capabilities";

pub const CAPABILITIES_RECORD: &'static str = "capabilities.json";

pub const VERSION_STDOUT: &'static str = "version.stdout.txt";

pub const VERSION_STDERR: &'static str = "version.stderr.txt";

pub const HELP_STDOUT: &'static str = "help.stdout.txt";

pub const HELP_STDERR: &'static str = "help.stderr.txt";

pub const DEVICES_STDOUT: &'static str = "devices.stdout.txt";

pub const DEVICES_STDERR: &'static str = "devices.stderr.txt";

/// 36 characters: hexadecimal digits in groups of 8, 4, 4, 4 and 12, separated by `-`.
pub open spec fn hyphenated_uuid(s: Seq<char>) -> bool {
    &&& s.len() == 36
    &&& s[8] == '-' && s[13] == '-' && s[18] == '-' && s[23] == '-'
    &&& forall|i: int|
        0 <= i < 36 && i != 8 && i != 13 && i != 18 && i != 23 ==> is_hex(#[trigger] s[i])
}

/// The forms `Uuid::parse_str` accepts: 32 hexadecimal digits; a hyphenated UUID; one in braces;
/// or one after a `urn:uuid:` prefix in any ASCII case. Digits may be in either case.
pub open spec fn is_uuid_text(s: Seq<char>) -> bool {
    ||| (s.len() == 32 && forall|i: int| 0 <= i < 32 ==> is_hex(#[trigger] s[i]))
    ||| hyphenated_uuid(s)
    ||| (s.len() == 38 && s[0] == '{' && s[37] == '}' && hyphenated_uuid(s.subrange(1, 37)))
    ||| (s.len() == 45 && ascii_lower(s.take(9)) == "urn:uuid:"@ && hyphenated_uuid(s.skip(9)))
}

/// Calls `uuid::Uuid::parse_str`, which accepts exactly the forms `is_uuid_text` describes.
#[verifier::external_body]
fn parses_as_uuid(s: &str) -> (r: bool)
    ensures
        r == is_uuid_text(s@),
{
    uuid::Uuid::parse_str(s).is_ok()
}

/// An inspection id must be a UUID, which also keeps it from escaping the capability directory.
pub fn validate_inspection_id(inspection_id: &str) -> (r: AppResult<()>)
    ensures
        r is Ok <==> is_uuid_text(inspection_id@),
        r matches Err(e) ==> e.code == ErrorCode::Internal && e.message@
            == "The runtime contains an invalid capability inspection id."@ && e.hint is None
            && opt_text(e.details) == kept_details(None, inspection_id@),
{
    if parses_as_uuid(inspection_id) {
        Ok(())
    } else {
        Err(
            AppError::internal(
                "The runtime contains an invalid capability inspection id.",
            ).with_details(inspection_id),
        )
    }
}

/// `<runtime>/capabilities/<id>`.
pub fn inspection_directory(runtime_directory: &str, inspection_id: &str) -> (r: String)
    ensures
        plain_component(inspection_id@) ==> exists|middle: Seq<char>|
            joined(runtime_directory@, CAPABILITIES_DIRECTORY@, middle) && joined(
                middle,
                inspection_id@,
                r@,
            ),
{
    proof {
        reveal_strlit("capabilities");
        assert(plain_component(CAPABILITIES_DIRECTORY@));
    }
    let root = join_path(runtime_directory, CAPABILITIES_DIRECTORY);
    join_path(root.as_str(), inspection_id)
}

/// Whether startup cleanup may remove a directory found in the capability root: only a
/// UUID-named directory other than the current inspection.
pub fn is_superseded(name: &str, current_id: Option<&str>, is_directory: bool) -> (r: bool)
    ensures
        r == (is_directory && is_uuid_text(name@) && match current_id {
            Some(c) => c@ != name@,
            None => true,
        }),
{
    let current = match current_id {
        Some(c) => crate::text::chars_equal(
            crate::text::chars_of(c).as_slice(),
            crate::text::chars_of(name).as_slice(),
        ),
        None => false,
    };
    !current && parses_as_uuid(name) && is_directory
}

} // verus!
