//! How scanned GGUF files form models: shards of one model share a folder and a logical name,
//! and the last file claiming an index wins it.
use vstd::prelude::*;

use crate::config::paths::{joined, relative_part};
use crate::error::opt_text;
use crate::gguf::reader::MetadataModel;
use crate::gguf::split::{parse_split_filename, split_spec};
use crate::models::catalog::{
    comparison_key, comparison_key_spec, copy_metadata, issue_views, ModelRecord, ModelScanIssue,
    ModelShard, ParsedFile, ProjectorStatus,
};
use crate::models::identity::{classify_model_role, model_role_spec, stem_of, stem_of_name, ModelRole};
use crate::sorting::{insert_by, insert_point};
use crate::text::{chars_equal, chars_of, decimal_text, string_of, texts};
use crate::text_map::{compare_text, text_lt};

verus! {

pub open spec fn count_mismatch_message() -> Seq<char> {
    "Shard count in the filename disagrees with GGUF metadata."@
}

pub open spec fn index_mismatch_message() -> Seq<char> {
    "Shard index in the filename disagrees with GGUF metadata."@
}

pub open spec fn duplicate_message(index: u32) -> Seq<char> {
    "More than one file claims to be shard "@ + decimal_text(index as nat) + "."@
}

/// `u32::saturating_add(1)`.
pub open spec fn sat_succ(i: u32) -> u32 {
    if i == u32::MAX {
        i
    } else {
        (i + 1) as u32
    }
}

/// A file's logical model name, shard index and expected shard count: from its shard file name,
/// else from its stem and its GGUF split metadata (index counted from one, count at least one).
pub open spec fn logical_parts(f: ParsedFile) -> (Seq<char>, u32, u32) {
    match split_spec(f.filename@) {
        Some((prefix, index, count)) => (prefix, index, count),
        None => (
            stem_of_name(f.filename@),
            match f.metadata@.split_index {
                Some(i) => sat_succ(i),
                None => 1,
            },
            match f.metadata@.split_count {
                Some(c) => if c > 1 {
                    c
                } else {
                    1
                },
                None => 1,
            },
        ),
    }
}

/// Where a shard's file name and its GGUF metadata disagree.
pub open spec fn metadata_issues(f: ParsedFile) -> Seq<(Seq<char>, Seq<char>)> {
    match split_spec(f.filename@) {
        Some((_, index, count)) => (if (f.metadata@.split_count matches Some(c) && c != count) {
            seq![(f.path@, count_mismatch_message())]
        } else {
            Seq::empty()
        }) + (if (f.metadata@.split_index matches Some(i) && sat_succ(i) != index) {
            seq![(f.path@, index_mismatch_message())]
        } else {
            Seq::empty()
        }),
        None => Seq::empty(),
    }
}

/// An earlier file of the same model claims the same index as file `i`.
pub open spec fn duplicate_shard(files: Seq<ParsedFile>, logical: Seq<Seq<char>>, fold_case: bool, i: int) -> bool {
    exists|j: int|
        0 <= j < i && comparison_key_spec(#[trigger] logical[j], fold_case) == comparison_key_spec(
            logical[i],
            fold_case,
        ) && logical_parts(files[j]).1 == logical_parts(files[i]).1
}

/// The issues grouping reports, file by file: disagreeing metadata, then a duplicate index.
pub open spec fn grouping_issues(files: Seq<ParsedFile>, logical: Seq<Seq<char>>, fold_case: bool) -> Seq<
    (Seq<char>, Seq<char>),
>
    decreases files.len(),
{
    if files.len() == 0 {
        Seq::empty()
    } else {
        let n = files.len() - 1;
        grouping_issues(files.drop_last(), logical.take(n), fold_case) + metadata_issues(files[n])
            + if duplicate_shard(files, logical, fold_case, n) {
            seq![(logical[n], duplicate_message(logical_parts(files[n]).1))]
        } else {
            Seq::empty()
        }
    }
}

/// Keys in text order.
pub open spec fn key_before() -> spec_fn(Seq<char>, Seq<char>) -> bool {
    |a: Seq<char>, b: Seq<char>| text_lt(a, b)
}

/// The keys of the models, each once, in ascending text order.
pub open spec fn model_keys(logical: Seq<Seq<char>>, fold_case: bool) -> Seq<Seq<char>>
    decreases logical.len(),
{
    if logical.len() == 0 {
        Seq::empty()
    } else {
        let prev = model_keys(logical.drop_last(), fold_case);
        let k = comparison_key_spec(logical.last(), fold_case);
        if prev.contains(k) {
            prev
        } else {
            insert_by(prev, k, key_before())
        }
    }
}

/// The first file at or after `i` that belongs to the model with key `k`.
pub open spec fn first_member(logical: Seq<Seq<char>>, fold_case: bool, k: Seq<char>, i: int) -> int
    decreases logical.len() - i,
{
    if i >= logical.len() {
        logical.len() as int
    } else if comparison_key_spec(logical[i], fold_case) == k {
        i
    } else {
        first_member(logical, fold_case, k, i + 1)
    }
}

/// The slot holding shard `index`, or -1.
pub open spec fn slot_of(slots: Seq<(u32, int)>, index: u32) -> int
    decreases slots.len(),
{
    if slots.len() == 0 {
        -1
    } else if slots.last().0 == index {
        slots.len() - 1
    } else {
        slot_of(slots.drop_last(), index)
    }
}

/// Slots in order of shard index.
pub open spec fn slot_order() -> spec_fn((u32, int), (u32, int)) -> bool {
    |a: (u32, int), b: (u32, int)| a.0 < b.0
}

/// A file takes over its index's slot, or a new slot in index order.
pub open spec fn upsert_slot(slots: Seq<(u32, int)>, x: (u32, int)) -> Seq<(u32, int)> {
    let p = slot_of(slots, x.0);
    if p >= 0 {
        slots.update(p, x)
    } else {
        insert_by(slots, x, slot_order())
    }
}

/// The shards of the model with key `k`: one slot per index, in index order, holding the
/// position of the last file that claimed it.
pub open spec fn shard_slots(files: Seq<ParsedFile>, logical: Seq<Seq<char>>, fold_case: bool, k: Seq<char>) -> Seq<
    (u32, int),
>
    decreases files.len(),
{
    if files.len() == 0 {
        Seq::empty()
    } else {
        let n = files.len() - 1;
        let prev = shard_slots(files.drop_last(), logical.take(n), fold_case, k);
        if comparison_key_spec(logical[n], fold_case) == k {
            upsert_slot(prev, (logical_parts(files[n]).1, n))
        } else {
            prev
        }
    }
}

/// The largest shard count any file of the model expects.
pub open spec fn expected_of(files: Seq<ParsedFile>, logical: Seq<Seq<char>>, fold_case: bool, k: Seq<char>) -> u32
    decreases files.len(),
{
    if files.len() == 0 {
        0
    } else {
        let n = files.len() - 1;
        let prev = expected_of(files.drop_last(), logical.take(n), fold_case, k);
        let e = logical_parts(files[n]).2;
        if comparison_key_spec(logical[n], fold_case) == k && e > prev {
            e
        } else {
            prev
        }
    }
}

pub open spec fn slot_sizes(files: Seq<ParsedFile>, slots: Seq<(u32, int)>) -> int
    decreases slots.len(),
{
    if slots.len() == 0 {
        0
    } else {
        slot_sizes(files, slots.drop_last()) + files[slots.last().1].size_bytes
    }
}

/// The latest modification time among the shards.
pub open spec fn latest(files: Seq<ParsedFile>, slots: Seq<(u32, int)>) -> i128
    decreases slots.len(),
{
    if slots.len() <= 1 {
        files[slots[0].1].modified_at
    } else {
        let prev = latest(files, slots.drop_last());
        let m = files[slots.last().1].modified_at;
        if m > prev {
            m
        } else {
            prev
        }
    }
}

pub open spec fn size_total(files: Seq<ParsedFile>) -> int
    decreases files.len(),
{
    if files.len() == 0 {
        0
    } else {
        size_total(files.drop_last()) + files.last().size_bytes
    }
}

/// The plain values of a model record.
pub struct ModelView {
    pub id: Seq<char>,
    pub display_name: Seq<char>,
    pub role: ModelRole,
    pub primary_path: Option<Seq<char>>,
    pub directory: Seq<char>,
    pub shards: Seq<(Seq<char>, u32, u64)>,
    pub expected_shards: u32,
    pub complete: bool,
    pub total_size_bytes: u64,
    pub modified_at: i128,
    pub metadata: MetadataModel,
    pub projector_status: ProjectorStatus,
    pub projector_id: Option<Seq<char>>,
    pub projector_candidates: Seq<Seq<char>>,
}

pub open spec fn shard_view(s: ModelShard) -> (Seq<char>, u32, u64) {
    (s.path@, s.index, s.size_bytes)
}

pub open spec fn model_view(m: ModelRecord) -> ModelView {
    ModelView {
        id: m.id@,
        display_name: m.display_name@,
        role: m.role,
        primary_path: opt_text(m.primary_path),
        directory: m.directory@,
        shards: m.shards@.map_values(|s: ModelShard| shard_view(s)),
        expected_shards: m.expected_shards,
        complete: m.complete,
        total_size_bytes: m.total_size_bytes,
        modified_at: m.modified_at,
        metadata: m.metadata@,
        projector_status: m.projector_status,
        projector_id: opt_text(m.projector_id),
        projector_candidates: texts(m.projector_candidates@),
    }
}

pub open spec fn model_views(v: Seq<ModelRecord>) -> Seq<ModelView> {
    v.map_values(|m: ModelRecord| model_view(m))
}

/// The model that the files under key `k` form: identified and named by its first file's
/// logical path and name, described by the metadata of shard one (else of its lowest shard),
/// complete when shard one and every index up to the expected count are there.
pub open spec fn group_record(files: Seq<ParsedFile>, logical: Seq<Seq<char>>, fold_case: bool, k: Seq<char>) -> ModelView {
    let first = first_member(logical, fold_case, k, 0);
    let slots = shard_slots(files, logical, fold_case, k);
    let one = slot_of(slots, 1);
    let source = if one >= 0 {
        slots[one].1
    } else {
        slots[0].1
    };
    let metadata = files[source].metadata@;
    let fallback = logical_parts(files[first]).0;
    let expected = expected_of(files, logical, fold_case, k);
    ModelView {
        id: logical[first],
        display_name: match metadata.name {
            Some(n) => n,
            None => fallback,
        },
        role: model_role_spec(metadata, fallback),
        primary_path: if one >= 0 {
            Some(files[slots[one].1].path@)
        } else {
            None
        },
        directory: files[first].directory@,
        shards: slots.map_values(|s: (u32, int)| (files[s.1].path@, s.0, files[s.1].size_bytes)),
        expected_shards: expected,
        complete: one >= 0 && forall|i: int| 1 <= i <= expected ==> #[trigger] slot_of(slots, i as u32) >= 0,
        total_size_bytes: slot_sizes(files, slots) as u64,
        modified_at: latest(files, slots),
        metadata,
        projector_status: ProjectorStatus::Unpaired,
        projector_id: None,
        projector_candidates: Seq::empty(),
    }
}

/// The file stem of a model's first shard, which identifies it when pairing projectors.
pub open spec fn primary_stem(files: Seq<ParsedFile>, logical: Seq<Seq<char>>, fold_case: bool, k: Seq<char>) -> Option<Seq<char>> {
    let slots = shard_slots(files, logical, fold_case, k);
    let one = slot_of(slots, 1);
    if one >= 0 {
        Some(stem_of_name(files[slots[one].1].filename@))
    } else {
        None
    }
}

// ---------------------------------------------------------------------------------------------
// Lemmas
// ---------------------------------------------------------------------------------------------

proof fn lemma_insert_contains(s: Seq<Seq<char>>, p: int, x: Seq<char>, y: Seq<char>)
    requires
        0 <= p <= s.len(),
    ensures
        s.insert(p, x).contains(y) <==> (s.contains(y) || y == x),
{
    s.insert_ensures(p, x);
    let t = s.insert(p, x);
    if t.contains(y) {
        let i = choose|i: int| 0 <= i < t.len() && t[i] == y;
        if i < p {
            assert(s[i] == y);
        } else if i > p {
            assert(t[(i - 1) + 1] == s[i - 1]);
            assert(s[i - 1] == y);
        }
    }
    if s.contains(y) {
        let i = choose|i: int| 0 <= i < s.len() && s[i] == y;
        if i < p {
            assert(t[i] == y);
        } else {
            assert(t[i + 1] == s[i]);
        }
    }
    if y == x {
        assert(t[p] == x);
    }
}

proof fn lemma_model_keys_contains(logical: Seq<Seq<char>>, fold_case: bool, k: Seq<char>)
    ensures
        model_keys(logical, fold_case).contains(k) <==> exists|j: int|
            0 <= j < logical.len() && comparison_key_spec(#[trigger] logical[j], fold_case) == k,
    decreases logical.len(),
{
    if logical.len() > 0 {
        let prefix = logical.drop_last();
        lemma_model_keys_contains(prefix, fold_case, k);
        let n = logical.len() - 1;
        let last = comparison_key_spec(logical[n], fold_case);
        let prev = model_keys(prefix, fold_case);
        if !prev.contains(last) {
            crate::sorting::lemma_insert_point_bounds(prev, last, key_before());
            lemma_insert_contains(prev, insert_point(prev, last, key_before()), last, k);
        }
        assert(model_keys(logical, fold_case).contains(k) <==> (prev.contains(k) || k == last));
        if prev.contains(k) {
            let j = choose|j: int| 0 <= j < prefix.len() && comparison_key_spec(#[trigger] prefix[j], fold_case) == k;
            assert(logical[j] == prefix[j]);
        }
        if k == last {
            assert(comparison_key_spec(logical[n], fold_case) == k);
        }
        if exists|j: int| 0 <= j < logical.len() && comparison_key_spec(#[trigger] logical[j], fold_case) == k {
            let j = choose|j: int| 0 <= j < logical.len() && comparison_key_spec(#[trigger] logical[j], fold_case) == k;
            if j < n {
                assert(prefix[j] == logical[j]);
            }
        }
    }
}

proof fn lemma_first_member_skip(logical: Seq<Seq<char>>, fold_case: bool, k: Seq<char>, a: int, b: int)
    requires
        0 <= a <= b <= logical.len(),
        forall|j: int| a <= j < b ==> comparison_key_spec(#[trigger] logical[j], fold_case) != k,
    ensures
        first_member(logical, fold_case, k, a) == first_member(logical, fold_case, k, b),
    decreases b - a,
{
    if a < b {
        lemma_first_member_skip(logical, fold_case, k, a + 1, b);
    }
}

proof fn lemma_slot_sizes_update(files: Seq<ParsedFile>, s: Seq<(u32, int)>, p: int, x: (u32, int))
    requires
        0 <= p < s.len(),
    ensures
        slot_sizes(files, s.update(p, x)) == slot_sizes(files, s) - files[s[p].1].size_bytes
            + files[x.1].size_bytes,
    decreases s.len(),
{
    let u = s.update(p, x);
    if p == s.len() - 1 {
        assert(u.drop_last() =~= s.drop_last());
    } else {
        assert(u.drop_last() =~= s.drop_last().update(p, x));
        lemma_slot_sizes_update(files, s.drop_last(), p, x);
    }
}

proof fn lemma_slot_sizes_insert(files: Seq<ParsedFile>, s: Seq<(u32, int)>, p: int, x: (u32, int))
    requires
        0 <= p <= s.len(),
    ensures
        slot_sizes(files, s.insert(p, x)) == slot_sizes(files, s) + files[x.1].size_bytes,
    decreases s.len(),
{
    let u = s.insert(p, x);
    if p == s.len() {
        assert(u.drop_last() =~= s);
    } else {
        assert(u.drop_last() =~= s.drop_last().insert(p, x));
        lemma_slot_sizes_insert(files, s.drop_last(), p, x);
    }
}

proof fn lemma_slot_sizes_prefix(files: Seq<ParsedFile>, s: Seq<(u32, int)>, k: int)
    requires
        0 <= k <= s.len(),
    ensures
        slot_sizes(files, s.take(k)) <= slot_sizes(files, s),
        slot_sizes(files, s.take(k)) >= 0,
    decreases s.len(),
{
    if k == s.len() {
        assert(s.take(k) =~= s);
        if s.len() > 0 {
            lemma_slot_sizes_prefix(files, s.drop_last(), 0);
        }
    } else {
        lemma_slot_sizes_prefix(files, s.drop_last(), k);
        assert(s.drop_last().take(k) =~= s.take(k));
    }
}

proof fn lemma_size_total_prefix(files: Seq<ParsedFile>, k: int)
    requires
        0 <= k <= files.len(),
    ensures
        0 <= size_total(files.take(k)) <= size_total(files),
    decreases files.len(),
{
    if k == files.len() {
        assert(files.take(k) =~= files);
        if files.len() > 0 {
            lemma_size_total_prefix(files.drop_last(), 0);
        }
    } else {
        lemma_size_total_prefix(files.drop_last(), k);
        assert(files.drop_last().take(k) =~= files.take(k));
    }
}

// ---------------------------------------------------------------------------------------------
// Executable grouping
// ---------------------------------------------------------------------------------------------

pub open spec fn slot_views(v: Seq<(u32, usize)>) -> Seq<(u32, int)> {
    v.map_values(|x: (u32, usize)| (x.0, x.1 as int))
}

fn find_slot(slots: &Vec<(u32, usize)>, index: u32) -> (r: Option<usize>)
    ensures
        match r {
            Some(p) => p < slots@.len() && p as int == slot_of(slot_views(slots@), index),
            None => slot_of(slot_views(slots@), index) == -1,
        },
{
    let ghost s = slot_views(slots@);
    let mut j: usize = slots.len();
    assert(s.take(j as int) =~= s);
    while j > 0
        invariant
            j <= slots@.len(),
            s == slot_views(slots@),
            slot_of(s, index) == slot_of(s.take(j as int), index),
        decreases j,
    {
        assert(s.take(j as int).drop_last() =~= s.take(j - 1));
        assert(s.take(j as int).last() == s[j - 1]);
        if slots[j - 1].0 == index {
            return Some(j - 1);
        }
        j -= 1;
    }
    None
}

fn upsert(slots: &mut Vec<(u32, usize)>, index: u32, pos: usize)
    ensures
        slot_views(final(slots)@) == upsert_slot(slot_views(old(slots)@), (index, pos as int)),
{
    let ghost s = slot_views(slots@);
    let ghost x = (index, pos as int);
    match find_slot(slots, index) {
        Some(p) => {
            slots[p] = (index, pos);
            assert(slot_views(slots@) =~= s.update(p as int, x));
        },
        None => {
            let mut j: usize = slots.len();
            while j > 0 && index < slots[j - 1].0
                invariant
                    j <= slots@.len(),
                    s == slot_views(slots@),
                    x == (index, pos as int),
                    forall|k: int| j <= k < s.len() ==> (slot_order())(x, #[trigger] s[k]),
                decreases j,
            {
                j -= 1;
            }
            proof {
                crate::sorting::lemma_insert_point_prefix(s, x, slot_order(), j as int);
                let t = s.take(j as int);
                if j > 0 {
                    assert(t.last() == s[j - 1]);
                }
                assert(insert_point(t, x, slot_order()) == j);
            }
            slots.insert(j, (index, pos));
            assert(slot_views(slots@) =~= s.insert(j as int, x));
        },
    }
}

fn logical_parts_exec(f: &ParsedFile) -> (r: (String, u32, u32))
    ensures
        (r.0@, r.1, r.2) == logical_parts(*f),
{
    match parse_split_filename(f.filename.as_str()) {
        Some(n) => (n.prefix, n.index, n.count),
        None => {
            let index = match f.metadata.split_index {
                Some(i) => i.saturating_add(1),
                None => 1,
            };
            let expected = match f.metadata.split_count {
                Some(c) => if c > 1 {
                    c
                } else {
                    1
                },
                None => 1,
            };
            (stem_of(f.filename.as_str()), index, expected)
        },
    }
}

fn push_metadata_issues(f: &ParsedFile, issues: &mut Vec<ModelScanIssue>)
    ensures
        issue_views(final(issues)@) == issue_views(old(issues)@) + metadata_issues(*f),
{
    match parse_split_filename(f.filename.as_str()) {
        Some(n) => {
            let ghost start = issue_views(issues@);
            let count_bad = match f.metadata.split_count {
                Some(c) => c != n.count,
                None => false,
            };
            if count_bad {
                crate::models::catalog::push_issue(
                    issues,
                    f.path.as_str(),
                    "Shard count in the filename disagrees with GGUF metadata.",
                );
            }
            let ghost middle = issue_views(issues@);
            let index_bad = match f.metadata.split_index {
                Some(i) => i.saturating_add(1) != n.index,
                None => false,
            };
            if index_bad {
                crate::models::catalog::push_issue(
                    issues,
                    f.path.as_str(),
                    "Shard index in the filename disagrees with GGUF metadata.",
                );
            }
            let ghost a: Seq<(Seq<char>, Seq<char>)> = if count_bad {
                seq![(f.path@, count_mismatch_message())]
            } else {
                Seq::empty()
            };
            let ghost b: Seq<(Seq<char>, Seq<char>)> = if index_bad {
                seq![(f.path@, index_mismatch_message())]
            } else {
                Seq::empty()
            };
            assert(middle =~= start + a);
            assert(issue_views(issues@) =~= middle + b);
            assert(issue_views(issues@) =~= start + (a + b));
        },
        None => {
            assert(issue_views(issues@) =~= issue_views(issues@) + Seq::<(Seq<char>, Seq<char>)>::empty());
        },
    }
}

fn duplicate_message_text(index: u32) -> (r: String)
    ensures
        r@ == duplicate_message(index),
{
    let mut v = chars_of("More than one file claims to be shard ");
    crate::text::push_decimal(&mut v, index as u64);
    crate::text::append_chars(&mut v, chars_of(".").as_slice());
    string_of(v.as_slice())
}

proof fn lemma_slot_of_bounds(s: Seq<(u32, int)>, index: u32)
    ensures
        -1 <= slot_of(s, index) < s.len(),
        slot_of(s, index) >= 0 ==> s[slot_of(s, index)].0 == index,
    decreases s.len(),
{
    if s.len() > 0 && s.last().0 != index {
        lemma_slot_of_bounds(s.drop_last(), index);
    }
}

proof fn lemma_upsert_shape(s: Seq<(u32, int)>, x: (u32, int), bound: int)
    requires
        forall|q: int| 0 <= q < s.len() ==> 0 <= #[trigger] s[q].1 < bound,
        0 <= x.1 < bound,
    ensures
        forall|q: int|
            0 <= q < upsert_slot(s, x).len() ==> 0 <= #[trigger] upsert_slot(s, x)[q].1 < bound,
        upsert_slot(s, x).len() >= s.len(),
        upsert_slot(s, x).len() > 0,
{
    lemma_slot_of_bounds(s, x.0);
    let p = slot_of(s, x.0);
    if p < 0 {
        crate::sorting::lemma_insert_point_bounds(s, x, slot_order());
        let ip = insert_point(s, x, slot_order());
        s.insert_ensures(ip, x);
        assert forall|q: int| 0 <= q < upsert_slot(s, x).len() implies 0 <= #[trigger] upsert_slot(
            s,
            x,
        )[q].1 < bound by {
            if q < ip {
                assert(upsert_slot(s, x)[q] == s[q]);
            } else if q > ip {
                assert(upsert_slot(s, x)[q] == s[q - 1]);
            }
        }
    }
}

proof fn lemma_slots_shape(files: Seq<ParsedFile>, logical: Seq<Seq<char>>, fold_case: bool, k: Seq<char>)
    requires
        files.len() == logical.len(),
    ensures
        forall|q: int|
            0 <= q < shard_slots(files, logical, fold_case, k).len() ==> 0 <= #[trigger] shard_slots(
                files,
                logical,
                fold_case,
                k,
            )[q].1 < files.len(),
        (exists|j: int| 0 <= j < logical.len() && comparison_key_spec(#[trigger] logical[j], fold_case) == k)
            ==> shard_slots(files, logical, fold_case, k).len() > 0,
    decreases files.len(),
{
    if files.len() > 0 {
        let n = files.len() - 1;
        lemma_slots_shape(files.drop_last(), logical.take(n), fold_case, k);
        let prev = shard_slots(files.drop_last(), logical.take(n), fold_case, k);
        if comparison_key_spec(logical[n], fold_case) == k {
            lemma_upsert_shape(prev, (logical_parts(files[n]).1, n), files.len() as int);
        } else {
            if exists|j: int| 0 <= j < logical.len() && comparison_key_spec(#[trigger] logical[j], fold_case) == k {
                let j = choose|j: int| 0 <= j < logical.len() && comparison_key_spec(#[trigger] logical[j], fold_case) == k;
                assert(logical.take(n)[j] == logical[j]);
            }
        }
    }
}

/// Pass over the files: their logical parts, their keys, and the issues they raise.
fn scan_parts(
    files: &Vec<ParsedFile>,
    logical: &Vec<String>,
    fold_case: bool,
    issues: &mut Vec<ModelScanIssue>,
) -> (r: (Vec<(String, u32, u32)>, Vec<Vec<char>>))
    requires
        files@.len() == logical@.len(),
    ensures
        r.0@.len() == files@.len(),
        r.1@.len() == files@.len(),
        forall|j: int|
            0 <= j < files@.len() ==> ((#[trigger] r.0@[j]).0@, r.0@[j].1, r.0@[j].2) == logical_parts(
                files@[j],
            ),
        forall|j: int|
            0 <= j < files@.len() ==> (#[trigger] r.1@[j])@ == comparison_key_spec(logical@[j]@, fold_case),
        issue_views(final(issues)@) == issue_views(old(issues)@) + grouping_issues(
            files@,
            texts(logical@),
            fold_case,
        ),
{
    let ghost lg = texts(logical@);
    let ghost start = issue_views(issues@);
    let mut parts: Vec<(String, u32, u32)> = Vec::new();
    let mut keys: Vec<Vec<char>> = Vec::new();
    let mut i: usize = 0;
    assert(files@.take(0) =~= Seq::<ParsedFile>::empty());
    assert(start =~= start + grouping_issues(files@.take(0), lg.take(0), fold_case));
    while i < files.len()
        invariant
            i <= files@.len(),
            files@.len() == logical@.len(),
            lg == texts(logical@),
            parts@.len() == i,
            keys@.len() == i,
            forall|j: int|
                0 <= j < i ==> ((#[trigger] parts@[j]).0@, parts@[j].1, parts@[j].2) == logical_parts(
                    files@[j],
                ),
            forall|j: int| 0 <= j < i ==> (#[trigger] keys@[j])@ == comparison_key_spec(lg[j], fold_case),
            issue_views(issues@) == start + grouping_issues(files@.take(i as int), lg.take(i as int), fold_case),
        decreases files.len() - i,
    {
        let ghost fp = files@.take(i + 1);
        let ghost lp = lg.take(i + 1);
        assert(fp.drop_last() =~= files@.take(i as int));
        assert(lp.take(i as int) =~= lg.take(i as int));
        assert(fp[i as int] == files@[i as int]);
        assert(lp[i as int] == lg[i as int]);
        let f = &files[i];
        let part = logical_parts_exec(f);
        let key = comparison_key(logical[i].as_str(), fold_case);
        let ghost before = issue_views(issues@);
        push_metadata_issues(f, issues);
        let ghost middle = issue_views(issues@);
        let mut dup = false;
        let mut j: usize = 0;
        while j < i
            invariant
                j <= i,
                i < files@.len(),
                parts@.len() == i,
                keys@.len() == i,
                key@ == comparison_key_spec(lg[i as int], fold_case),
                (part.0@, part.1, part.2) == logical_parts(files@[i as int]),
                forall|q: int|
                    0 <= q < i ==> ((#[trigger] parts@[q]).0@, parts@[q].1, parts@[q].2) == logical_parts(
                        files@[q],
                    ),
                forall|q: int| 0 <= q < i ==> (#[trigger] keys@[q])@ == comparison_key_spec(lg[q], fold_case),
                lg.len() == files@.len(),
                dup == exists|q: int|
                    0 <= q < j && comparison_key_spec(#[trigger] lg[q], fold_case) == comparison_key_spec(
                        lg[i as int],
                        fold_case,
                    ) && logical_parts(files@[q]).1 == logical_parts(files@[i as int]).1,
            decreases i - j,
        {
            if !dup && parts[j].1 == part.1 && chars_equal(keys[j].as_slice(), key.as_slice()) {
                dup = true;
            }
            assert(keys@[j as int]@ == comparison_key_spec(lg[j as int], fold_case));
            assert(parts@[j as int].1 == logical_parts(files@[j as int]).1);
            j += 1;
        }
        proof {
            assert(duplicate_shard(fp, lp, fold_case, i as int) == dup) by {
                if dup {
                    let q = choose|q: int|
                        0 <= q < i && comparison_key_spec(#[trigger] lg[q], fold_case) == comparison_key_spec(
                            lg[i as int],
                            fold_case,
                        ) && logical_parts(files@[q]).1 == logical_parts(files@[i as int]).1;
                    assert(lp[q] == lg[q]);
                    assert(fp[q] == files@[q]);
                }
                if duplicate_shard(fp, lp, fold_case, i as int) {
                    let q = choose|q: int|
                        0 <= q < i && comparison_key_spec(#[trigger] lp[q], fold_case) == comparison_key_spec(
                            lp[i as int],
                            fold_case,
                        ) && logical_parts(fp[q]).1 == logical_parts(fp[i as int]).1;
                    assert(lp[q] == lg[q]);
                    assert(fp[q] == files@[q]);
                }
            }
        }
        if dup {
            let message = duplicate_message_text(part.1);
            crate::models::catalog::push_issue(issues, logical[i].as_str(), message.as_str());
        }
        proof {
            let d: Seq<(Seq<char>, Seq<char>)> = if dup {
                seq![(lg[i as int], duplicate_message(logical_parts(files@[i as int]).1))]
            } else {
                Seq::empty()
            };
            assert(issue_views(issues@) =~= middle + d);
            assert(grouping_issues(fp, lp, fold_case) == grouping_issues(files@.take(i as int), lg.take(i as int), fold_case) + metadata_issues(files@[i as int]) + d);
            assert(issue_views(issues@) =~= start + grouping_issues(fp, lp, fold_case));
        }
        parts.push(part);
        keys.push(key);
        i += 1;
    }
    assert(files@.take(files@.len() as int) =~= files@);
    assert(lg.take(files@.len() as int) =~= lg);
    (parts, keys)
}

fn listed_key(keys: &Vec<Vec<char>>, k: &Vec<char>) -> (r: bool)
    ensures
        r == crate::text::views(keys@).contains(k@),
{
    let ghost vs = crate::text::views(keys@);
    let mut q: usize = 0;
    while q < keys.len()
        invariant
            q <= keys@.len(),
            vs == crate::text::views(keys@),
            forall|m: int| 0 <= m < q ==> vs[m] != k@,
        decreases keys.len() - q,
    {
        if chars_equal(keys[q].as_slice(), k.as_slice()) {
            assert(vs[q as int] == k@);
            return true;
        }
        q += 1;
    }
    false
}

/// Inserts a new model key after every key that does not sort after it, with its first file at
/// the same place.
fn insert_key(mk: &mut Vec<Vec<char>>, firsts: &mut Vec<usize>, key: Vec<char>, first: usize)
    requires
        old(mk)@.len() == old(firsts)@.len(),
    ensures
        crate::text::views(final(mk)@) == insert_by(crate::text::views(old(mk)@), key@, key_before()),
        exists|p: int|
            0 <= p <= old(mk)@.len() && crate::text::views(final(mk)@) == crate::text::views(
                old(mk)@,
            ).insert(p, key@) && final(firsts)@ == old(firsts)@.insert(p, first),
{
    let ghost s = crate::text::views(mk@);
    let ghost kv = key@;
    let mut j: usize = mk.len();
    while j > 0 && compare_text(key.as_slice(), mk[j - 1].as_slice()) < 0
        invariant
            j <= mk@.len(),
            s == crate::text::views(mk@),
            kv == key@,
            forall|q: int| j <= q < mk@.len() ==> (key_before())(kv, #[trigger] s[q]),
        decreases j,
    {
        assert(s[j - 1] == mk@[j - 1]@);
        j -= 1;
    }
    proof {
        crate::sorting::lemma_insert_point_prefix(s, kv, key_before(), j as int);
        let t = s.take(j as int);
        if j > 0 {
            assert(t.last() == s[j - 1]);
            assert(s[j - 1] == mk@[j - 1]@);
            assert(!(key_before())(kv, t.last()));
        }
        assert(insert_point(t, kv, key_before()) == j);
    }
    let ghost before = mk@;
    mk.insert(j, key);
    firsts.insert(j, first);
    assert(crate::text::views(mk@) =~= s.insert(j as int, kv));
}

/// The model keys in ascending text order, each with its first file.
fn collect_model_keys(keys: &Vec<Vec<char>>, logical: &Vec<String>, fold_case: bool) -> (r: (
    Vec<Vec<char>>,
    Vec<usize>,
))
    requires
        keys@.len() == logical@.len(),
        forall|j: int|
            0 <= j < keys@.len() ==> (#[trigger] keys@[j])@ == comparison_key_spec(logical@[j]@, fold_case),
    ensures
        crate::text::views(r.0@) == model_keys(texts(logical@), fold_case),
        r.1@.len() == r.0@.len(),
        forall|q: int|
            0 <= q < r.1@.len() ==> #[trigger] r.1@[q] as int == first_member(
                texts(logical@),
                fold_case,
                r.0@[q]@,
                0,
            ) && r.1@[q] < logical@.len(),
{
    let ghost lg = texts(logical@);
    let mut mk: Vec<Vec<char>> = Vec::new();
    let mut firsts: Vec<usize> = Vec::new();
    let mut i: usize = 0;
    assert(lg.take(0) =~= Seq::<Seq<char>>::empty());
    assert(crate::text::views(mk@) =~= Seq::<Seq<char>>::empty());
    while i < keys.len()
        invariant
            i <= keys@.len(),
            keys@.len() == logical@.len(),
            lg == texts(logical@),
            forall|j: int| 0 <= j < keys@.len() ==> (#[trigger] keys@[j])@ == comparison_key_spec(lg[j], fold_case),
            crate::text::views(mk@) == model_keys(lg.take(i as int), fold_case),
            firsts@.len() == mk@.len(),
            forall|q: int|
                0 <= q < firsts@.len() ==> #[trigger] firsts@[q] as int == first_member(lg, fold_case, mk@[q]@, 0)
                    && firsts@[q] < i,
        decreases keys.len() - i,
    {
        let ghost lp = lg.take(i + 1);
        assert(lp.drop_last() =~= lg.take(i as int));
        assert(lp.last() == lg[i as int]);
        assert(keys@[i as int]@ == comparison_key_spec(lg[i as int], fold_case));
        if !listed_key(&mk, &keys[i]) {
            let ghost k = keys@[i as int]@;
            proof {
                lemma_model_keys_contains(lg.take(i as int), fold_case, k);
                assert forall|j: int| 0 <= j < i implies comparison_key_spec(#[trigger] lg[j], fold_case) != k by {
                    assert(lg.take(i as int)[j] == lg[j]);
                }
                lemma_first_member_skip(lg, fold_case, k, 0, i as int);
            }
            let ghost before = mk@;
            let ghost fbefore = firsts@;
            insert_key(&mut mk, &mut firsts, keys[i].clone(), i);
            proof {
                let vb = crate::text::views(before);
                let p = choose|p: int|
                    0 <= p <= before.len() && crate::text::views(mk@) == vb.insert(p, k)
                        && firsts@ == fbefore.insert(p, i);
                vb.insert_ensures(p, k);
                fbefore.insert_ensures(p, i);
                assert forall|q: int| 0 <= q < firsts@.len() implies #[trigger] firsts@[q] as int
                    == first_member(lg, fold_case, mk@[q]@, 0) && firsts@[q] < i + 1 by {
                    assert(mk@[q]@ == crate::text::views(mk@)[q]);
                    if q < p {
                        assert(firsts@[q] == fbefore[q]);
                        assert(vb.insert(p, k)[q] == vb[q]);
                        assert(before[q]@ == vb[q]);
                    } else if q > p {
                        assert(firsts@[(q - 1) + 1] == fbefore[q - 1]);
                        assert(vb.insert(p, k)[(q - 1) + 1] == vb[q - 1]);
                        assert(before[q - 1]@ == vb[q - 1]);
                    } else {
                        assert(vb.insert(p, k)[p] == k);
                    }
                }
            }
        }
        i += 1;
    }
    assert(lg.take(keys@.len() as int) =~= lg);
    (mk, firsts)
}

/// The record of one model, with the file stem of its first shard.
fn build_group(
    files: &Vec<ParsedFile>,
    logical: &Vec<String>,
    parts: &Vec<(String, u32, u32)>,
    keys: &Vec<Vec<char>>,
    key: &Vec<char>,
    first: usize,
    fold_case: bool,
) -> (r: (ModelRecord, Option<String>))
    requires
        files@.len() == logical@.len(),
        parts@.len() == files@.len(),
        keys@.len() == files@.len(),
        forall|j: int|
            0 <= j < files@.len() ==> ((#[trigger] parts@[j]).0@, parts@[j].1, parts@[j].2) == logical_parts(
                files@[j],
            ),
        forall|j: int|
            0 <= j < files@.len() ==> (#[trigger] keys@[j])@ == comparison_key_spec(logical@[j]@, fold_case),
        first < files@.len(),
        first as int == first_member(texts(logical@), fold_case, key@, 0),
        comparison_key_spec(logical@[first as int]@, fold_case) == key@,
        size_total(files@) <= u64::MAX,
    ensures
        model_view(r.0) == group_record(files@, texts(logical@), fold_case, key@),
        opt_text(r.1) == primary_stem(files@, texts(logical@), fold_case, key@),
{
    let ghost lg = texts(logical@);
    let ghost fs = files@;
    let ghost k = key@;
    let mut slots: Vec<(u32, usize)> = Vec::new();
    let mut expected: u32 = 0;
    let mut i: usize = 0;
    assert(fs.take(0) =~= Seq::<ParsedFile>::empty());
    assert(slot_views(slots@) =~= Seq::<(u32, int)>::empty());
    while i < files.len()
        invariant
            i <= fs.len(),
            fs == files@,
            lg == texts(logical@),
            k == key@,
            fs.len() == lg.len(),
            parts@.len() == fs.len(),
            keys@.len() == fs.len(),
            forall|j: int|
                0 <= j < fs.len() ==> ((#[trigger] parts@[j]).0@, parts@[j].1, parts@[j].2) == logical_parts(
                    fs[j],
                ),
            forall|j: int| 0 <= j < fs.len() ==> (#[trigger] keys@[j])@ == comparison_key_spec(lg[j], fold_case),
            slot_views(slots@) == shard_slots(fs.take(i as int), lg.take(i as int), fold_case, k),
            expected == expected_of(fs.take(i as int), lg.take(i as int), fold_case, k),
            forall|q: int| 0 <= q < slots@.len() ==> (#[trigger] slots@[q]).1 < i,
            slot_sizes(fs, slot_views(slots@)) <= size_total(fs.take(i as int)),
            size_total(fs) <= u64::MAX,
        decreases fs.len() - i,
    {
        let ghost fp = fs.take(i + 1);
        let ghost lp = lg.take(i + 1);
        assert(fp.drop_last() =~= fs.take(i as int));
        assert(lp.take(i as int) =~= lg.take(i as int));
        assert(fp[i as int] == fs[i as int]);
        assert(lp[i as int] == lg[i as int]);
        assert(keys@[i as int]@ == comparison_key_spec(lg[i as int], fold_case));
        assert(parts@[i as int].1 == logical_parts(fs[i as int]).1);
        assert(size_total(fp) == size_total(fs.take(i as int)) + fs[i as int].size_bytes);
        if chars_equal(keys[i].as_slice(), key.as_slice()) {
            let ghost prev = slot_views(slots@);
            let ghost x = (parts@[i as int].1, i as int);
            proof {
                lemma_slot_of_bounds(prev, x.0);
                let p = slot_of(prev, x.0);
                if p >= 0 {
                    lemma_slot_sizes_update(fs, prev, p, x);
                } else {
                    crate::sorting::lemma_insert_point_bounds(prev, x, slot_order());
                    lemma_slot_sizes_insert(fs, prev, insert_point(prev, x, slot_order()), x);
                }
                assert forall|q: int| 0 <= q < prev.len() implies 0 <= #[trigger] prev[q].1 < i + 1 by {
                    assert(prev[q].1 == slots@[q].1 as int);
                }
                lemma_upsert_shape(prev, x, i + 1);
            }
            upsert(&mut slots, parts[i].1, i);
            if parts[i].2 > expected {
                expected = parts[i].2;
            }
            assert forall|q: int| 0 <= q < slots@.len() implies (#[trigger] slots@[q]).1 < i + 1 by {
                assert(slot_views(slots@)[q].1 == slots@[q].1 as int);
            }
        }
        i += 1;
    }
    assert(fs.take(fs.len() as int) =~= fs);
    assert(lg.take(fs.len() as int) =~= lg);
    let ghost sv = slot_views(slots@);
    proof {
        lemma_slots_shape(fs, lg, fold_case, k);
        assert(comparison_key_spec(lg[first as int], fold_case) == k);
    }
    assert(sv.len() > 0);
    let one = find_slot(&slots, 1);
    let source: usize = match one {
        Some(p) => slots[p].1,
        None => slots[0].1,
    };
    assert(sv[0].1 == slots@[0].1 as int);
    let metadata = copy_metadata(&files[source].metadata);
    let fallback = parts[first].0.clone();
    let display_name = match &metadata.name {
        Some(n) => n.clone(),
        None => fallback.clone(),
    };
    let role = classify_model_role(&metadata, fallback.as_str());
    let (primary_path, stem) = match one {
        Some(p) => {
            assert(sv[p as int].1 == slots@[p as int].1 as int);
            (Some(files[slots[p].1].path.clone()), Some(stem_of(files[slots[p].1].filename.as_str())))
        },
        None => (None, None),
    };
    let mut shards: Vec<ModelShard> = Vec::new();
    let mut total: u64 = 0;
    let mut latest_at: i128 = files[slots[0].1].modified_at;
    let mut q: usize = 0;
    while q < slots.len()
        invariant
            q <= slots@.len(),
            sv == slot_views(slots@),
            sv.len() > 0,
            fs == files@,
            forall|m: int| 0 <= m < sv.len() ==> 0 <= #[trigger] sv[m].1 < fs.len(),
            shards@.map_values(|s: ModelShard| shard_view(s)) == sv.take(q as int).map_values(
                |s: (u32, int)| (fs[s.1].path@, s.0, fs[s.1].size_bytes),
            ),
            total == slot_sizes(fs, sv.take(q as int)),
            slot_sizes(fs, sv) <= u64::MAX,
            q > 0 ==> latest_at == latest(fs, sv.take(q as int)),
            q == 0 ==> latest_at == fs[sv[0].1].modified_at,
        decreases slots.len() - q,
    {
        let pos = slots[q].1;
        assert(sv[q as int].1 == pos as int);
        assert(sv.take(q + 1).drop_last() =~= sv.take(q as int));
        assert(sv.take(q + 1).last() == sv[q as int]);
        proof {
            lemma_slot_sizes_prefix(fs, sv, q + 1);
        }
        let ghost before = shards@;
        assert(sv[q as int] == (slots@[q as int].0, pos as int));
        let shard = ModelShard { path: files[pos].path.clone(), index: slots[q].0, size_bytes: files[pos].size_bytes };
        assert(shard_view(shard) == (fs[sv[q as int].1].path@, sv[q as int].0, fs[sv[q as int].1].size_bytes));
        shards.push(shard);
        assert(shards@.map_values(|s: ModelShard| shard_view(s)) =~= before.map_values(|s: ModelShard| shard_view(s)).push(shard_view(shard)));
        assert(sv.take(q + 1).map_values(|s: (u32, int)| (fs[s.1].path@, s.0, fs[s.1].size_bytes)) =~= sv.take(q as int).map_values(|s: (u32, int)| (fs[s.1].path@, s.0, fs[s.1].size_bytes)).push((fs[sv[q as int].1].path@, sv[q as int].0, fs[sv[q as int].1].size_bytes)));
        assert(shards@.map_values(|s: ModelShard| shard_view(s)) =~= sv.take(q + 1).map_values(
            |s: (u32, int)| (fs[s.1].path@, s.0, fs[s.1].size_bytes),
        ));
        total = total + files[pos].size_bytes;
        if q > 0 && files[pos].modified_at > latest_at {
            latest_at = files[pos].modified_at;
        }
        q += 1;
    }
    assert(sv.take(sv.len() as int) =~= sv);
    let mut complete = one.is_some();
    if complete {
        let mut index: u64 = 1;
        while index <= expected as u64
            invariant
                1 <= index <= expected as u64 + 1,
                sv == slot_views(slots@),
                complete ==> forall|m: int| 1 <= m < index ==> #[trigger] slot_of(sv, m as u32) >= 0,
                !complete ==> exists|m: int| 1 <= m <= expected && #[trigger] slot_of(sv, m as u32) < 0,
            decreases expected as u64 + 1 - index,
        {
            if complete && find_slot(&slots, index as u32).is_none() {
                assert(slot_of(sv, index as u32) < 0);
                complete = false;
            }
            index += 1;
        }
    }
    let record = ModelRecord {
        id: logical[first].clone(),
        display_name,
        role,
        primary_path,
        directory: files[first].directory.clone(),
        shards,
        expected_shards: expected,
        complete,
        total_size_bytes: total,
        modified_at: latest_at,
        metadata,
        projector_status: ProjectorStatus::Unpaired,
        projector_id: None,
        projector_candidates: Vec::new(),
    };
    assert(texts(record.projector_candidates@) =~= Seq::<Seq<char>>::empty());
    (record, stem)
}

proof fn lemma_first_member_found(logical: Seq<Seq<char>>, fold_case: bool, k: Seq<char>, i: int, j: int)
    requires
        0 <= i <= j < logical.len(),
        comparison_key_spec(logical[j], fold_case) == k,
    ensures
        i <= first_member(logical, fold_case, k, i) <= j,
        comparison_key_spec(logical[first_member(logical, fold_case, k, i)], fold_case) == k,
    decreases j - i,
{
    if comparison_key_spec(logical[i], fold_case) != k {
        lemma_first_member_found(logical, fold_case, k, i + 1, j);
    }
}

/// The logical path of each file: its folder joined with its logical name and `.gguf`.
pub open spec fn logical_paths_ok(files: Seq<ParsedFile>, logical: Seq<Seq<char>>) -> bool {
    &&& logical.len() == files.len()
    &&& forall|i: int|
        0 <= i < files.len() ==> (relative_part(#[trigger] logical_parts(files[i]).0 + ".gguf"@)
            ==> joined(files[i].directory@, logical_parts(files[i]).0 + ".gguf"@, logical[i]))
}

/// The models that the files form, given each file's logical path, and the file stems of
/// their first shards; models come in ascending order of their comparison key.
pub fn group_model_files(
    files: &Vec<ParsedFile>,
    logical: &Vec<String>,
    fold_case: bool,
    issues: &mut Vec<ModelScanIssue>,
) -> (r: (Vec<ModelRecord>, Vec<Option<String>>))
    requires
        files@.len() == logical@.len(),
        size_total(files@) <= u64::MAX,
    ensures
        model_views(r.0@) == model_keys(texts(logical@), fold_case).map_values(
            |k: Seq<char>| group_record(files@, texts(logical@), fold_case, k),
        ),
        r.1@.map_values(|s: Option<String>| opt_text(s)) == model_keys(texts(logical@), fold_case).map_values(
            |k: Seq<char>| primary_stem(files@, texts(logical@), fold_case, k),
        ),
        issue_views(final(issues)@) == issue_views(old(issues)@) + grouping_issues(
            files@,
            texts(logical@),
            fold_case,
        ),
{
    let ghost lg = texts(logical@);
    let (parts, keys) = scan_parts(files, logical, fold_case, issues);
    let (mk, firsts) = collect_model_keys(&keys, logical, fold_case);
    let ghost mks = crate::text::views(mk@);
    let mut models: Vec<ModelRecord> = Vec::new();
    let mut stems: Vec<Option<String>> = Vec::new();
    let mut q: usize = 0;
    while q < mk.len()
        invariant
            q <= mk@.len(),
            lg == texts(logical@),
            files@.len() == logical@.len(),
            size_total(files@) <= u64::MAX,
            mks == crate::text::views(mk@),
            mks == model_keys(lg, fold_case),
            firsts@.len() == mk@.len(),
            forall|m: int|
                0 <= m < firsts@.len() ==> #[trigger] firsts@[m] as int == first_member(lg, fold_case, mk@[m]@, 0)
                    && firsts@[m] < logical@.len(),
            parts@.len() == files@.len(),
            keys@.len() == files@.len(),
            forall|j: int|
                0 <= j < files@.len() ==> ((#[trigger] parts@[j]).0@, parts@[j].1, parts@[j].2) == logical_parts(
                    files@[j],
                ),
            forall|j: int|
                0 <= j < files@.len() ==> (#[trigger] keys@[j])@ == comparison_key_spec(logical@[j]@, fold_case),
            model_views(models@) == mks.take(q as int).map_values(
                |k: Seq<char>| group_record(files@, lg, fold_case, k),
            ),
            stems@.map_values(|s: Option<String>| opt_text(s)) == mks.take(q as int).map_values(
                |k: Seq<char>| primary_stem(files@, lg, fold_case, k),
            ),
        decreases mk.len() - q,
    {
        let first = firsts[q];
        let ghost k = mk@[q as int]@;
        assert(mks[q as int] == k);
        proof {
            lemma_model_keys_contains(lg, fold_case, k);
            assert(mks.contains(k));
            let j = choose|j: int| 0 <= j < lg.len() && comparison_key_spec(#[trigger] lg[j], fold_case) == k;
            lemma_first_member_found(lg, fold_case, k, 0, j);
            assert(lg[first as int] == logical@[first as int]@);
        }
        let (record, stem) = build_group(files, logical, &parts, &keys, &mk[q], first, fold_case);
        let ghost mb = models@;
        let ghost sb = stems@;
        models.push(record);
        stems.push(stem);
        assert(mks.take(q + 1) =~= mks.take(q as int).push(k));
        assert(model_views(models@) =~= model_views(mb).push(model_view(record)));
        assert(stems@.map_values(|s: Option<String>| opt_text(s)) =~= sb.map_values(|s: Option<String>| opt_text(s)).push(opt_text(stem)));
        q += 1;
    }
    assert(mks.take(mk@.len() as int) =~= mks);
    (models, stems)
}

/// The name a file's model is listed under, with the `.gguf` extension.
fn logical_file_name(f: &ParsedFile) -> (r: String)
    ensures
        r@ == logical_parts(*f).0 + ".gguf"@,
{
    let part = logical_parts_exec(f);
    crate::text::concat_text(part.0.as_str(), ".gguf")
}

/// The logical path of each file: its folder joined with its logical name and `.gguf`.
pub fn logical_paths(files: &Vec<ParsedFile>) -> (r: Vec<String>)
    ensures
        logical_paths_ok(files@, texts(r@)),
{
    let mut logical: Vec<String> = Vec::new();
    let mut i: usize = 0;
    while i < files.len()
        invariant
            i <= files@.len(),
            logical@.len() == i,
            forall|j: int|
                0 <= j < i ==> (relative_part(#[trigger] logical_parts(files@[j]).0 + ".gguf"@)
                    ==> joined(files@[j].directory@, logical_parts(files@[j]).0 + ".gguf"@, logical@[j]@)),
        decreases files.len() - i,
    {
        let name = logical_file_name(&files[i]);
        let path = crate::config::paths::join_path(files[i].directory.as_str(), name.as_str());
        logical.push(path);
        i += 1;
    }
    logical
}

/// Groups the model files into models: shards under one folder and logical name (paths
/// compared as this platform compares them) form one model. Also gives the file stem of each
/// model's first shard.
pub fn group_models(files: &Vec<ParsedFile>, issues: &mut Vec<ModelScanIssue>) -> (r: (
    Vec<ModelRecord>,
    Vec<Option<String>>,
))
    requires
        size_total(files@) <= u64::MAX,
    ensures
        exists|logical: Seq<Seq<char>>, fold_case: bool|
            {
                &&& logical_paths_ok(files@, logical)
                &&& model_views(r.0@) == model_keys(logical, fold_case).map_values(
                    |k: Seq<char>| group_record(files@, logical, fold_case, k),
                )
                &&& r.1@.map_values(|s: Option<String>| opt_text(s)) == model_keys(logical, fold_case).map_values(
                    |k: Seq<char>| primary_stem(files@, logical, fold_case, k),
                )
                &&& issue_views(final(issues)@) == issue_views(old(issues)@) + grouping_issues(
                    files@,
                    logical,
                    fold_case,
                )
            },
{
    let fold_case = crate::config::paths::main_separator() == '\\';
    let logical = logical_paths(files);
    group_model_files(files, &logical, fold_case, issues)
}

} // verus!
