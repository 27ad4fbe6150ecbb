//! The model catalog: which scanned GGUF files are models and which are multimodal projectors,
//! how shards form one model, and which projector goes with which model. Walking folders,
//! reading files and the caches on disk happen outside the library.
use vstd::prelude::*;

use crate::error::opt_text;
use crate::gguf::reader::{GgufMetadata, MetadataModel};
use crate::models::identity::{any_identity_matches, any_identity_matches_spec, identities, identities_spec, ModelRole};
use crate::text::{ascii_lower, chars_equal, chars_of, concat_text, contains, lit, lower_all, texts};
use crate::text_map::TextMap;

verus! {

pub const CACHE_SCHEMA_VERSION: u32 = 1;

pub const OVERRIDES_SCHEMA_VERSION: u32 = 1;

/// One shard of a model on disk.
#[derive(Debug, Clone)]
pub struct ModelShard {
    pub path: String,
    pub index: u32,
    pub size_bytes: u64,
}

/// How a model's projector was chosen.
#[derive(Debug, Clone, Copy, PartialEq, Eq, Structural)]
pub enum ProjectorStatus {
    /// No projector: none was found (serialized as `none`).
    Unpaired,
    Auto,
    Ambiguous,
    Overridden,
    Disabled,
    MissingOverride,
}

/// A problem met while scanning, with the path it concerns.
#[derive(Debug, Clone)]
pub struct ModelScanIssue {
    pub path: String,
    pub message: String,
}

/// What the user chose as a model's projector.
#[derive(Debug, Clone)]
pub enum ProjectorSelection {
    Auto,
    Disabled,
    Custom { path: String },
}

/// A saved projector choice.
#[derive(Debug, Clone)]
pub enum ProjectorOverride {
    Disabled,
    Custom { path: String },
}

/// The saved projector choices, keyed by model id.
#[derive(Debug, Clone)]
pub struct ModelOverrides {
    pub schema_version: u32,
    pub projectors: TextMap<ProjectorOverride>,
}

/// A GGUF file that was read: where it is, its size, its modification time in nanoseconds
/// since the Unix epoch, and its metadata.
#[derive(Debug, Clone)]
pub struct ParsedFile {
    pub path: String,
    pub directory: String,
    pub filename: String,
    pub size_bytes: u64,
    pub modified_at: i128,
    pub metadata: GgufMetadata,
}

/// A multimodal projector found on disk.
#[derive(Debug, Clone)]
pub struct ProjectorRecord {
    pub id: String,
    pub display_name: String,
    pub path: String,
    pub directory: String,
    pub size_bytes: u64,
    pub modified_at: i128,
    pub metadata: GgufMetadata,
}

/// A model found on disk, possibly split over shards.
#[derive(Debug, Clone)]
pub struct ModelRecord {
    pub id: String,
    pub display_name: String,
    pub role: ModelRole,
    /// The first shard: the only path that may be handed to `llama-server -m`.
    pub primary_path: Option<String>,
    pub directory: String,
    pub shards: Vec<ModelShard>,
    pub expected_shards: u32,
    pub complete: bool,
    pub total_size_bytes: u64,
    pub modified_at: i128,
    pub metadata: GgufMetadata,
    pub projector_status: ProjectorStatus,
    pub projector_id: Option<String>,
    pub projector_candidates: Vec<String>,
}

impl ModelRecord {
    pub fn is_drafter(&self) -> (r: bool)
        ensures
            r == (self.role == ModelRole::Drafter),
    {
        self.role == ModelRole::Drafter
    }
}

/// The scan's result.
#[derive(Debug, Clone)]
pub struct ModelCatalog {
    pub scanned_at: i128,
    pub roots: Vec<String>,
    pub models: Vec<ModelRecord>,
    pub projectors: Vec<ProjectorRecord>,
    pub issues: Vec<ModelScanIssue>,
    pub cache_hits: usize,
    pub cache_misses: usize,
}

pub open spec fn issue_view(i: ModelScanIssue) -> (Seq<char>, Seq<char>) {
    (i.path@, i.message@)
}

pub open spec fn issue_views(v: Seq<ModelScanIssue>) -> Seq<(Seq<char>, Seq<char>)> {
    v.map_values(|i: ModelScanIssue| issue_view(i))
}

pub(crate) fn push_issue(issues: &mut Vec<ModelScanIssue>, path: &str, message: &str)
    ensures
        issue_views(final(issues)@) == issue_views(old(issues)@).push((path@, message@)),
{
    let ghost before = issues@;
    issues.push(ModelScanIssue { path: path.to_string(), message: message.to_string() });
    assert(issue_views(issues@) =~= issue_views(before).push((path@, message@)));
}

// ---------------------------------------------------------------------------------------------
// What a file is
// ---------------------------------------------------------------------------------------------

/// A projector declares the `mmproj` type (any ASCII case), has `mmproj` in its file name, or
/// carries projector or encoder metadata.
pub open spec fn is_projector_spec(filename: Seq<char>, m: MetadataModel) -> bool {
    ||| (m.general_type matches Some(k) && ascii_lower(k) == "mmproj"@)
    ||| contains(ascii_lower(filename), "mmproj"@)
    ||| m.projector_type is Some
    ||| m.has_vision_encoder is Some
    ||| m.has_audio_encoder is Some
}

/// A regular model is not a projector and declares no type other than `model`.
pub open spec fn is_regular_model_spec(filename: Seq<char>, m: MetadataModel) -> bool {
    !is_projector_spec(filename, m) && (m.general_type matches Some(k) ==> ascii_lower(k)
        == "model"@)
}

fn lowered_equals(text: &str, expected: &str) -> (r: bool)
    ensures
        r == (ascii_lower(text@) == expected@),
{
    let l = lower_all(chars_of(text).as_slice());
    chars_equal(l.as_slice(), lit(expected).as_slice())
}

pub fn is_projector(file: &ParsedFile) -> (r: bool)
    ensures
        r == is_projector_spec(file.filename@, file.metadata@),
{
    let declared = match &file.metadata.general_type {
        Some(k) => lowered_equals(k.as_str(), "mmproj"),
        None => false,
    };
    declared || crate::text::contains_exec(
        lower_all(chars_of(file.filename.as_str()).as_slice()).as_slice(),
        lit("mmproj").as_slice(),
    ) || file.metadata.projector_type.is_some() || file.metadata.has_vision_encoder.is_some()
        || file.metadata.has_audio_encoder.is_some()
}

pub fn is_regular_model(file: &ParsedFile) -> (r: bool)
    ensures
        r == is_regular_model_spec(file.filename@, file.metadata@),
{
    if is_projector(file) {
        return false;
    }
    match &file.metadata.general_type {
        Some(k) => lowered_equals(k.as_str(), "model"),
        None => true,
    }
}

/// A projector as listed: identified by its path and named by its metadata, else its file
/// name.
pub fn projector_record(file: &ParsedFile) -> (r: ProjectorRecord)
    ensures
        r.id@ == file.path@,
        r.display_name@ == match file.metadata@.name {
            Some(n) => n,
            None => file.filename@,
        },
        r.path@ == file.path@,
        r.directory@ == file.directory@,
        r.size_bytes == file.size_bytes,
        r.modified_at == file.modified_at,
        r.metadata@ == file.metadata@,
{
    let display_name = match &file.metadata.name {
        Some(n) => n.clone(),
        None => file.filename.clone(),
    };
    ProjectorRecord {
        id: file.path.clone(),
        display_name,
        path: file.path.clone(),
        directory: file.directory.clone(),
        size_bytes: file.size_bytes,
        modified_at: file.modified_at,
        metadata: copy_metadata(&file.metadata),
    }
}

fn copy_text(o: &Option<String>) -> (r: Option<String>)
    ensures
        opt_text(r) == opt_text(*o),
{
    match o {
        Some(s) => Some(s.clone()),
        None => None,
    }
}

/// A copy of GGUF metadata with the same values.
pub fn copy_metadata(m: &GgufMetadata) -> (r: GgufMetadata)
    ensures
        r@ == m@,
{
    GgufMetadata {
        version: m.version,
        tensor_count: m.tensor_count,
        metadata_count: m.metadata_count,
        metadata_bytes: m.metadata_bytes,
        general_type: copy_text(&m.general_type),
        architecture: copy_text(&m.architecture),
        name: copy_text(&m.name),
        basename: copy_text(&m.basename),
        size_label: copy_text(&m.size_label),
        file_type: m.file_type,
        quantization_version: m.quantization_version,
        context_length: m.context_length,
        embedding_length: m.embedding_length,
        block_count: m.block_count,
        tokenizer_model: copy_text(&m.tokenizer_model),
        split_index: m.split_index,
        split_count: m.split_count,
        split_tensor_count: m.split_tensor_count,
        projector_type: copy_text(&m.projector_type),
        has_vision_encoder: m.has_vision_encoder,
        has_audio_encoder: m.has_audio_encoder,
    }
}

// ---------------------------------------------------------------------------------------------
// Comparing paths
// ---------------------------------------------------------------------------------------------

/// The text under which two paths count as the same: backslashes read as slashes, and on
/// platforms whose file names ignore case (`fold_case`), ASCII lowercased.
pub open spec fn comparison_key_spec(path: Seq<char>, fold_case: bool) -> Seq<char> {
    let v = Seq::new(path.len(), |i: int| if path[i] == '\\' { '/' } else { path[i] });
    if fold_case {
        ascii_lower(v)
    } else {
        v
    }
}

pub fn comparison_key(path: &str, fold_case: bool) -> (r: Vec<char>)
    ensures
        r@ == comparison_key_spec(path@, fold_case),
{
    let p = chars_of(path);
    let mut v: Vec<char> = Vec::new();
    let mut i: usize = 0;
    while i < p.len()
        invariant
            i <= p@.len(),
            v@.len() == i,
            forall|k: int| 0 <= k < i ==> v@[k] == if p@[k] == '\\' { '/' } else { p@[k] },
        decreases p.len() - i,
    {
        v.push(if p[i] == '\\' { '/' } else { p[i] });
        i += 1;
    }
    let ghost replaced = Seq::new(p@.len(), |k: int| if p@[k] == '\\' { '/' } else { p@[k] });
    assert(v@ =~= replaced);
    if fold_case {
        lower_all(v.as_slice())
    } else {
        v
    }
}

fn same_path(a: &str, b: &str, fold_case: bool) -> (r: bool)
    ensures
        r == (comparison_key_spec(a@, fold_case) == comparison_key_spec(b@, fold_case)),
{
    let ka = comparison_key(a, fold_case);
    let kb = comparison_key(b, fold_case);
    chars_equal(ka.as_slice(), kb.as_slice())
}

// ---------------------------------------------------------------------------------------------
// Pairing projectors with models
// ---------------------------------------------------------------------------------------------

/// A model and a projector share an identity: compared by their metadata names when both have
/// some, else by metadata names and file stems together.
pub open spec fn identities_compatible_spec(
    model: MetadataModel,
    model_stem: Option<Seq<char>>,
    projector: MetadataModel,
    projector_stem: Option<Seq<char>>,
) -> bool {
    let mi = identities_spec(model.basename, model.name, None);
    let pi = identities_spec(projector.basename, projector.name, None);
    if mi.len() > 0 && pi.len() > 0 {
        any_identity_matches_spec(mi, pi)
    } else {
        any_identity_matches_spec(
            identities_spec(model.basename, model.name, model_stem),
            identities_spec(projector.basename, projector.name, projector_stem),
        )
    }
}

pub fn identities_compatible(
    model: &GgufMetadata,
    model_stem: &Option<String>,
    projector: &GgufMetadata,
    projector_stem: &Option<String>,
) -> (r: bool)
    ensures
        r == identities_compatible_spec(
            model@,
            opt_text(*model_stem),
            projector@,
            opt_text(*projector_stem),
        ),
{
    let none: Option<String> = None;
    let mi = identities(&model.basename, &model.name, &none);
    let pi = identities(&projector.basename, &projector.name, &none);
    if mi.len() > 0 && pi.len() > 0 {
        return any_identity_matches(&mi, &pi);
    }
    let mi2 = identities(&model.basename, &model.name, model_stem);
    let pi2 = identities(&projector.basename, &projector.name, projector_stem);
    any_identity_matches(&mi2, &pi2)
}

/// The position of the first projector whose path is `path`, compared as paths, or the count
/// of projectors when there is none.
pub open spec fn first_projector_at(projectors: Seq<ProjectorRecord>, path: Seq<char>, fold_case: bool, i: int) -> int
    decreases projectors.len() - i,
{
    if i >= projectors.len() {
        projectors.len() as int
    } else if comparison_key_spec(projectors[i].path@, fold_case) == comparison_key_spec(path, fold_case) {
        i
    } else {
        first_projector_at(projectors, path, fold_case, i + 1)
    }
}

/// Whether a projector sits in a model's folder and shares its identity.
pub open spec fn candidate_for(
    model_directory: Seq<char>,
    model: MetadataModel,
    model_stem: Option<Seq<char>>,
    p: ProjectorRecord,
    projector_stem: Option<Seq<char>>,
    fold_case: bool,
) -> bool {
    comparison_key_spec(p.directory@, fold_case) == comparison_key_spec(model_directory, fold_case)
        && identities_compatible_spec(model, model_stem, p.metadata@, projector_stem)
}

/// The ids of the candidate projectors of a model, in projector order.
pub open spec fn candidate_ids(
    model_directory: Seq<char>,
    model: MetadataModel,
    model_stem: Option<Seq<char>>,
    projectors: Seq<ProjectorRecord>,
    stems: Seq<Option<Seq<char>>>,
    fold_case: bool,
) -> Seq<Seq<char>>
    decreases projectors.len(),
{
    if projectors.len() == 0 {
        Seq::empty()
    } else {
        let prev = candidate_ids(model_directory, model, model_stem, projectors.drop_last(), stems.drop_last(), fold_case);
        if candidate_for(model_directory, model, model_stem, projectors.last(), stems.last(), fold_case) {
            prev.push(projectors.last().id@)
        } else {
            prev
        }
    }
}

/// What pairing decides for one model: its status, its projector and its candidates.
pub open spec fn pairing_spec(
    m: ModelRecord,
    model_stem: Option<Seq<char>>,
    projectors: Seq<ProjectorRecord>,
    stems: Seq<Option<Seq<char>>>,
    saved: Option<ProjectorOverride>,
    fold_case: bool,
) -> (ProjectorStatus, Option<Seq<char>>, Seq<Seq<char>>) {
    match saved {
        Some(ProjectorOverride::Disabled) => (ProjectorStatus::Disabled, opt_text(m.projector_id), texts(m.projector_candidates@)),
        Some(ProjectorOverride::Custom { path }) => {
            let k = first_projector_at(projectors, path@, fold_case, 0);
            if k < projectors.len() {
                (ProjectorStatus::Overridden, Some(projectors[k].id@), texts(m.projector_candidates@))
            } else {
                (ProjectorStatus::MissingOverride, opt_text(m.projector_id), texts(m.projector_candidates@))
            }
        },
        None => {
            let c = candidate_ids(m.directory@, m.metadata@, model_stem, projectors, stems, fold_case);
            if c.len() == 1 {
                (ProjectorStatus::Auto, Some(c[0]), c)
            } else if c.len() == 0 {
                (ProjectorStatus::Unpaired, opt_text(m.projector_id), c)
            } else {
                (ProjectorStatus::Ambiguous, opt_text(m.projector_id), c)
            }
        },
    }
}

/// The issue pairing reports for a model: a saved projector that is gone.
pub open spec fn pairing_issue(
    m: ModelRecord,
    projectors: Seq<ProjectorRecord>,
    saved: Option<ProjectorOverride>,
    fold_case: bool,
) -> Seq<(Seq<char>, Seq<char>)> {
    match saved {
        Some(ProjectorOverride::Custom { path }) => if first_projector_at(projectors, path@, fold_case, 0)
            < projectors.len() {
            Seq::empty()
        } else {
            seq![
                (
                    path@,
                    "The saved projector for "@ + m.display_name@
                        + " is missing or no longer identifies as mmproj."@,
                ),
            ]
        },
        _ => Seq::empty(),
    }
}

/// A model after pairing: only its projector fields change.
pub open spec fn paired(before: ModelRecord, after: ModelRecord, decision: (ProjectorStatus, Option<Seq<char>>, Seq<Seq<char>>)) -> bool {
    &&& after.id == before.id
    &&& after.display_name == before.display_name
    &&& after.role == before.role
    &&& after.primary_path == before.primary_path
    &&& after.directory == before.directory
    &&& after.shards == before.shards
    &&& after.expected_shards == before.expected_shards
    &&& after.complete == before.complete
    &&& after.total_size_bytes == before.total_size_bytes
    &&& after.modified_at == before.modified_at
    &&& after.metadata@ == before.metadata@
    &&& after.projector_status == decision.0
    &&& opt_text(after.projector_id) == decision.1
    &&& texts(after.projector_candidates@) == decision.2
}

fn find_projector(projectors: &Vec<ProjectorRecord>, path: &str, fold_case: bool) -> (r: usize)
    ensures
        r == first_projector_at(projectors@, path@, fold_case, 0),
        r <= projectors@.len(),
{
    let mut i: usize = 0;
    while i < projectors.len()
        invariant
            i <= projectors@.len(),
            first_projector_at(projectors@, path@, fold_case, 0) == first_projector_at(projectors@, path@, fold_case, i as int),
        decreases projectors.len() - i,
    {
        if same_path(projectors[i].path.as_str(), path, fold_case) {
            return i;
        }
        i += 1;
    }
    i
}

fn candidates_of(
    model: &ModelRecord,
    model_stem: &Option<String>,
    projectors: &Vec<ProjectorRecord>,
    stems: &Vec<Option<String>>,
    fold_case: bool,
) -> (r: Vec<String>)
    requires
        stems@.len() == projectors@.len(),
    ensures
        texts(r@) == candidate_ids(
            model.directory@,
            model.metadata@,
            opt_text(*model_stem),
            projectors@,
            stems@.map_values(|s: Option<String>| opt_text(s)),
            fold_case,
        ),
{
    let ghost sv = stems@.map_values(|s: Option<String>| opt_text(s));
    let mut out: Vec<String> = Vec::new();
    let mut i: usize = 0;
    assert(projectors@.take(0) =~= Seq::<ProjectorRecord>::empty());
    while i < projectors.len()
        invariant
            i <= projectors@.len(),
            stems@.len() == projectors@.len(),
            sv == stems@.map_values(|s: Option<String>| opt_text(s)),
            texts(out@) == candidate_ids(
                model.directory@,
                model.metadata@,
                opt_text(*model_stem),
                projectors@.take(i as int),
                sv.take(i as int),
                fold_case,
            ),
        decreases projectors.len() - i,
    {
        assert(projectors@.take(i + 1).drop_last() =~= projectors@.take(i as int));
        assert(sv.take(i + 1).drop_last() =~= sv.take(i as int));
        assert(projectors@.take(i + 1).last() == projectors@[i as int]);
        assert(sv.take(i + 1).last() == opt_text(stems@[i as int]));
        let p = &projectors[i];
        if same_path(p.directory.as_str(), model.directory.as_str(), fold_case) && identities_compatible(
            &model.metadata,
            model_stem,
            &p.metadata,
            &stems[i],
        ) {
            let ghost before = out@;
            out.push(p.id.clone());
            proof {
                crate::text::lemma_texts_push(before, out@.last());
            }
        }
        i += 1;
    }
    assert(projectors@.take(projectors@.len() as int) =~= projectors@);
    assert(sv.take(projectors@.len() as int) =~= sv);
    out
}

/// Decides one model's projector: a saved choice first (disabled, or a projector found by
/// path), else the single candidate in the model's folder that shares its identity.
pub fn pair_model(
    model: &mut ModelRecord,
    model_stem: &Option<String>,
    projectors: &Vec<ProjectorRecord>,
    stems: &Vec<Option<String>>,
    saved: Option<&ProjectorOverride>,
    fold_case: bool,
    issues: &mut Vec<ModelScanIssue>,
)
    requires
        stems@.len() == projectors@.len(),
    ensures
        paired(
            *old(model),
            *final(model),
            pairing_spec(
                *old(model),
                opt_text(*model_stem),
                projectors@,
                stems@.map_values(|s: Option<String>| opt_text(s)),
                match saved {
                    Some(s) => Some(*s),
                    None => None,
                },
                fold_case,
            ),
        ),
        issue_views(final(issues)@) == issue_views(old(issues)@) + pairing_issue(
            *old(model),
            projectors@,
            match saved {
                Some(s) => Some(*s),
                None => None,
            },
            fold_case,
        ),
{
    match saved {
        Some(ProjectorOverride::Disabled) => {
            model.projector_status = ProjectorStatus::Disabled;
            assert(issue_views(issues@) =~= issue_views(issues@) + Seq::<(Seq<char>, Seq<char>)>::empty());
        },
        Some(ProjectorOverride::Custom { path }) => {
            let k = find_projector(projectors, path.as_str(), fold_case);
            if k < projectors.len() {
                model.projector_status = ProjectorStatus::Overridden;
                model.projector_id = Some(projectors[k].id.clone());
                assert(issue_views(issues@) =~= issue_views(issues@) + Seq::<(Seq<char>, Seq<char>)>::empty());
            } else {
                model.projector_status = ProjectorStatus::MissingOverride;
                let message = concat_text(
                    concat_text("The saved projector for ", model.display_name.as_str()).as_str(),
                    " is missing or no longer identifies as mmproj.",
                );
                let ghost before = issues@;
                push_issue(issues, path.as_str(), message.as_str());
                assert(issue_views(issues@) =~= issue_views(before) + seq![(path@, message@)]);
            }
        },
        None => {
            let c = candidates_of(model, model_stem, projectors, stems, fold_case);
            if c.len() == 1 {
                model.projector_status = ProjectorStatus::Auto;
                model.projector_id = Some(c[0].clone());
            } else if c.len() == 0 {
                model.projector_status = ProjectorStatus::Unpaired;
            } else {
                model.projector_status = ProjectorStatus::Ambiguous;
            }
            model.projector_candidates = c;
            assert(issue_views(issues@) =~= issue_views(issues@) + Seq::<(Seq<char>, Seq<char>)>::empty());
        },
    }
}

impl Default for ModelOverrides {
    fn default() -> (r: Self)
        ensures
            r.schema_version == OVERRIDES_SCHEMA_VERSION,
            r.projectors.wf(),
            r.projectors.entries@.len() == 0,
    {
        ModelOverrides { schema_version: OVERRIDES_SCHEMA_VERSION, projectors: TextMap::new() }
    }
}

/// Metadata read earlier, with the size and modification time the file had then.
#[derive(Debug, Clone)]
pub struct CachedMetadata {
    pub path: String,
    pub size_bytes: u64,
    pub modified_unix_nanos: u64,
    pub metadata: GgufMetadata,
}

/// The metadata cache, keyed by path.
#[derive(Debug, Clone)]
pub struct ModelMetadataCache {
    pub schema_version: u32,
    pub entries: TextMap<CachedMetadata>,
}

impl Default for ModelMetadataCache {
    fn default() -> (r: Self)
        ensures
            r.schema_version == CACHE_SCHEMA_VERSION,
            r.entries.wf(),
            r.entries.entries@.len() == 0,
    {
        ModelMetadataCache { schema_version: CACHE_SCHEMA_VERSION, entries: TextMap::new() }
    }
}

/// A cached entry still describes a file whose size and modification time are unchanged.
pub fn cache_entry_fresh(entry: &CachedMetadata, size_bytes: u64, modified_unix_nanos: u64) -> (r: bool)
    ensures
        r == (entry.size_bytes == size_bytes && entry.modified_unix_nanos == modified_unix_nanos),
{
    entry.size_bytes == size_bytes && entry.modified_unix_nanos == modified_unix_nanos
}

/// What a projector choice saves: nothing for automatic pairing, else the choice itself (a
/// custom path after it was checked to be a projector file).
pub fn persisted_override(selection: ProjectorSelection) -> (r: Option<ProjectorOverride>)
    ensures
        match selection {
            ProjectorSelection::Auto => r is None,
            ProjectorSelection::Disabled => r matches Some(ProjectorOverride::Disabled),
            ProjectorSelection::Custom { path } => r matches Some(ProjectorOverride::Custom { path: p }) && p@ == path@,
        },
{
    match selection {
        ProjectorSelection::Auto => None,
        ProjectorSelection::Disabled => Some(ProjectorOverride::Disabled),
        ProjectorSelection::Custom { path } => Some(ProjectorOverride::Custom { path }),
    }
}

/// Saves a model's projector choice, or forgets it for automatic pairing.
pub fn apply_projector_choice(overrides: &mut ModelOverrides, model_id: String, persisted: Option<ProjectorOverride>)
    requires
        old(overrides).projectors.wf(),
    ensures
        final(overrides).schema_version == OVERRIDES_SCHEMA_VERSION,
        final(overrides).projectors.wf(),
        forall|q: Seq<char>|
            #[trigger] final(overrides).projectors.value_of(q) == if q == model_id@ {
                persisted
            } else {
                old(overrides).projectors.value_of(q)
            },
{
    overrides.schema_version = OVERRIDES_SCHEMA_VERSION;
    match persisted {
        Some(selection) => overrides.projectors.insert(model_id, selection),
        None => overrides.projectors.remove(model_id.as_str()),
    }
}

} // verus!
