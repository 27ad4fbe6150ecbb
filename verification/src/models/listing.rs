//! Turning the files read during a scan into the catalog's lists: projectors ordered by name,
//! models grouped from their shards, paired with projectors and ordered by name.
use vstd::prelude::*;

use crate::error::opt_text;
use crate::models::catalog::{is_projector, is_projector_spec, is_regular_model, is_regular_model_spec, issue_views, pair_model, paired, pairing_issue, pairing_spec, projector_record, ModelOverrides, ModelRecord, ModelScanIssue, ParsedFile, ProjectorOverride, ProjectorRecord};
use crate::models::identity::{stem_of, stem_of_name, ModelRole};
use crate::models::shards::{group_record, logical_paths_ok, model_keys, model_views, primary_stem, size_total};
use crate::sorting::{insert_point, sort_by};
use crate::text::{chars_of, to_lowercase, unicode_lowercase};
use crate::text_map::{compare_text, lemma_text_lt_asymmetric, lemma_text_lt_irreflexive, lemma_text_lt_total, lemma_text_lt_transitive, text_lt};

verus! {

// ---------------------------------------------------------------------------------------------
// Pairing every model
// ---------------------------------------------------------------------------------------------

/// The saved projector choice for a model.
pub open spec fn saved_choice(overrides: ModelOverrides, m: ModelRecord) -> Option<ProjectorOverride> {
    overrides.projectors.value_of(m.id@)
}

pub open spec fn stem_views(v: Seq<Option<String>>) -> Seq<Option<Seq<char>>> {
    v.map_values(|s: Option<String>| opt_text(s))
}

/// The issues pairing reports, model by model; drafters are not paired.
pub open spec fn pairing_issues(
    models: Seq<ModelRecord>,
    projectors: Seq<ProjectorRecord>,
    overrides: ModelOverrides,
    fold_case: bool,
) -> Seq<(Seq<char>, Seq<char>)>
    decreases models.len(),
{
    if models.len() == 0 {
        Seq::empty()
    } else {
        let m = models.last();
        pairing_issues(models.drop_last(), projectors, overrides, fold_case) + if m.role
            == ModelRole::Drafter {
            Seq::empty()
        } else {
            pairing_issue(m, projectors, saved_choice(overrides, m), fold_case)
        }
    }
}

/// Each model after pairing: drafters as they were, every other model with the projector that
/// pairing decides for it.
pub open spec fn all_paired(
    before: Seq<ModelRecord>,
    after: Seq<ModelRecord>,
    model_stems: Seq<Option<Seq<char>>>,
    projectors: Seq<ProjectorRecord>,
    projector_stems: Seq<Option<Seq<char>>>,
    overrides: ModelOverrides,
    fold_case: bool,
) -> bool {
    &&& after.len() == before.len()
    &&& forall|i: int|
        0 <= i < before.len() ==> if (#[trigger] before[i]).role == ModelRole::Drafter {
            after[i] == before[i]
        } else {
            paired(
                before[i],
                after[i],
                pairing_spec(
                    before[i],
                    model_stems[i],
                    projectors,
                    projector_stems,
                    saved_choice(overrides, before[i]),
                    fold_case,
                ),
            )
        }
}

/// Pairs every model that is not a drafter with its projector.
pub fn pair_projectors(
    models: &mut Vec<ModelRecord>,
    model_stems: &Vec<Option<String>>,
    projectors: &Vec<ProjectorRecord>,
    projector_stems: &Vec<Option<String>>,
    overrides: &ModelOverrides,
    fold_case: bool,
    issues: &mut Vec<ModelScanIssue>,
)
    requires
        old(models)@.len() == model_stems@.len(),
        projector_stems@.len() == projectors@.len(),
        overrides.projectors.wf(),
    ensures
        all_paired(
            old(models)@,
            final(models)@,
            stem_views(model_stems@),
            projectors@,
            stem_views(projector_stems@),
            *overrides,
            fold_case,
        ),
        issue_views(final(issues)@) == issue_views(old(issues)@) + pairing_issues(
            old(models)@,
            projectors@,
            *overrides,
            fold_case,
        ),
{
    let ghost orig = models@;
    let ghost start = issue_views(issues@);
    let mut rest: Vec<ModelRecord> = Vec::new();
    std::mem::swap(&mut rest, models);
    let n = rest.len();
    let mut q: usize = 0;
    assert(orig.take(0) =~= Seq::<ModelRecord>::empty());
    assert(rest@ =~= orig.skip(0));
    assert(start =~= start + pairing_issues(orig.take(0), projectors@, *overrides, fold_case));
    while q < n
        invariant
            n == orig.len(),
            q <= n,
            rest@ == orig.skip(q as int),
            models@.len() == q,
            model_stems@.len() == n,
            projector_stems@.len() == projectors@.len(),
            overrides.projectors.wf(),
            forall|i: int|
                0 <= i < q ==> if (#[trigger] orig[i]).role == ModelRole::Drafter {
                    models@[i] == orig[i]
                } else {
                    paired(
                        orig[i],
                        models@[i],
                        pairing_spec(
                            orig[i],
                            stem_views(model_stems@)[i],
                            projectors@,
                            stem_views(projector_stems@),
                            saved_choice(*overrides, orig[i]),
                            fold_case,
                        ),
                    )
                },
            issue_views(issues@) == start + pairing_issues(orig.take(q as int), projectors@, *overrides, fold_case),
        decreases n - q,
    {
        let ghost before_rest = rest@;
        let mut m = rest.remove(0);
        assert(m == orig[q as int]);
        assert(rest@ =~= orig.skip(q + 1));
        assert(orig.take(q + 1).drop_last() =~= orig.take(q as int));
        assert(orig.take(q + 1).last() == orig[q as int]);
        let ghost om = m;
        let ghost issues_before = issue_views(issues@);
        if !m.is_drafter() {
            let saved = overrides.projectors.get(m.id.as_str());
            pair_model(&mut m, &model_stems[q], projectors, projector_stems, saved, fold_case, issues);
            assert(stem_views(model_stems@)[q as int] == opt_text(model_stems@[q as int]));
        } else {
            assert(issue_views(issues@) =~= issues_before + Seq::<(Seq<char>, Seq<char>)>::empty());
        }
        let ghost before_models = models@;
        models.push(m);
        assert forall|i: int| 0 <= i < q + 1 implies if (#[trigger] orig[i]).role == ModelRole::Drafter {
            models@[i] == orig[i]
        } else {
            paired(
                orig[i],
                models@[i],
                pairing_spec(
                    orig[i],
                    stem_views(model_stems@)[i],
                    projectors@,
                    stem_views(projector_stems@),
                    saved_choice(*overrides, orig[i]),
                    fold_case,
                ),
            )
        } by {
            if i < q {
                assert(models@[i] == before_models[i]);
            }
        }
        q += 1;
    }
    assert(orig.take(n as int) =~= orig);
}

// ---------------------------------------------------------------------------------------------
// Ordering
// ---------------------------------------------------------------------------------------------

/// Models ordered by Unicode-lowercased display name, then by id.
pub open spec fn by_model_name() -> spec_fn(ModelRecord, ModelRecord) -> bool {
    |a: ModelRecord, b: ModelRecord|
        text_lt(unicode_lowercase(a.display_name@), unicode_lowercase(b.display_name@)) || (
        unicode_lowercase(a.display_name@) == unicode_lowercase(b.display_name@) && text_lt(
            a.id@,
            b.id@,
        ))
}

fn name_key_before(a: &(Vec<char>, Vec<char>), b: &(Vec<char>, Vec<char>)) -> (r: bool)
    ensures
        r == (text_lt(a.0@, b.0@) || (a.0@ == b.0@ && text_lt(a.1@, b.1@))),
{
    let c = compare_text(a.0.as_slice(), b.0.as_slice());
    if c < 0 {
        true
    } else if c == 0 {
        compare_text(a.1.as_slice(), b.1.as_slice()) < 0
    } else {
        false
    }
}

/// Orders models by lowercased display name, then id; ties keep their order.
pub fn sort_models(items: Vec<ModelRecord>) -> (r: Vec<ModelRecord>)
    ensures
        r@ == sort_by(items@, by_model_name()),
{
    let ghost all = items@;
    let mut rest = items;
    let n = rest.len();
    let mut sorted: Vec<ModelRecord> = Vec::new();
    let mut keys: Vec<(Vec<char>, Vec<char>)> = Vec::new();
    let mut done: usize = 0;
    assert(all.take(0) =~= Seq::<ModelRecord>::empty());
    assert(rest@ =~= all.skip(0));
    while rest.len() > 0
        invariant
            done + rest@.len() == all.len(),
            all.len() == n,
            rest@ == all.skip(done as int),
            sorted@ == sort_by(all.take(done as int), by_model_name()),
            keys@.len() == sorted@.len(),
            forall|q: int|
                0 <= q < keys@.len() ==> (#[trigger] keys@[q]).0@ == unicode_lowercase(sorted@[q].display_name@)
                    && keys@[q].1@ == sorted@[q].id@,
        decreases rest.len(),
    {
        let x = rest.remove(0);
        assert(x == all[done as int]);
        assert(rest@ =~= all.skip(done + 1));
        let kx = (chars_of(to_lowercase(x.display_name.as_str()).as_str()), chars_of(x.id.as_str()));
        let ghost s = sorted@;
        let mut j: usize = sorted.len();
        while j > 0 && name_key_before(&kx, &keys[j - 1])
            invariant
                j <= sorted@.len(),
                keys@.len() == sorted@.len(),
                s == sorted@,
                forall|q: int|
                    0 <= q < keys@.len() ==> (#[trigger] keys@[q]).0@ == unicode_lowercase(sorted@[q].display_name@)
                        && keys@[q].1@ == sorted@[q].id@,
                kx.0@ == unicode_lowercase(x.display_name@),
                kx.1@ == x.id@,
                forall|q: int| j <= q < s.len() ==> (by_model_name())(x, #[trigger] s[q]),
            decreases j,
        {
            assert(keys@[j - 1].0@ == unicode_lowercase(sorted@[j - 1].display_name@));
            j -= 1;
        }
        proof {
            crate::sorting::lemma_insert_point_prefix(s, x, by_model_name(), j as int);
            let t = s.take(j as int);
            if j > 0 {
                assert(t.last() == s[j - 1]);
                assert(keys@[j - 1].0@ == unicode_lowercase(sorted@[j - 1].display_name@));
            }
            assert(insert_point(t, x, by_model_name()) == j);
            assert(all.take(done + 1).drop_last() =~= all.take(done as int));
        }
        let ghost keys_before = keys@;
        let ghost sorted_before = sorted@;
        sorted.insert(j, x);
        keys.insert(j, kx);
        assert forall|q: int|
            0 <= q < keys@.len() implies (#[trigger] keys@[q]).0@ == unicode_lowercase(sorted@[q].display_name@)
                && keys@[q].1@ == sorted@[q].id@ by {
            if q < j {
                assert(keys@[q] == keys_before[q]);
                assert(sorted@[q] == sorted_before[q]);
            } else if q > j {
                assert(keys@[q] == keys_before[q - 1]);
                assert(sorted@[q] == sorted_before[q - 1]);
            }
        }
        done += 1;
    }
    assert(all.take(all.len() as int) =~= all);
    sorted
}

/// Whether `a` comes before `b` as `Path` orders paths on this platform: component by
/// component, with the platform's path grammar. Unix and Windows parse paths differently, so
/// nothing is stated.
#[verifier::external_body]
fn path_precedes(a: &str, b: &str) -> (r: bool) {
    std::path::Path::new(a) < std::path::Path::new(b)
}

/// The lowercased display name a projector is ordered by.
pub open spec fn projector_name_key(p: ProjectorRecord) -> Seq<char> {
    unicode_lowercase(p.display_name@)
}

/// Projectors in non-decreasing order of lowercased display name.
pub open spec fn projectors_ordered(v: Seq<(ProjectorRecord, Option<String>)>) -> bool {
    forall|a: int, b: int|
        0 <= a < b < v.len() ==> !text_lt(
            projector_name_key(#[trigger] v[b].0),
            projector_name_key(#[trigger] v[a].0),
        )
}

proof fn lemma_not_lt_chain(a: Seq<char>, b: Seq<char>, c: Seq<char>)
    requires
        !text_lt(b, a),
        !text_lt(c, b),
    ensures
        !text_lt(c, a),
{
    if text_lt(c, a) {
        if b == c {
        } else {
            lemma_text_lt_total(b, c);
            lemma_text_lt_transitive(b, c, a);
        }
    }
}

/// Orders projectors (each with its file stem) by lowercased display name; projectors with the
/// same name are ordered by path, as `Path` compares paths.
pub fn sort_projectors(items: Vec<(ProjectorRecord, Option<String>)>) -> (r: Vec<
    (ProjectorRecord, Option<String>),
>)
    ensures
        r@.to_multiset() == items@.to_multiset(),
        projectors_ordered(r@),
{
    let ghost all = items@;
    let mut rest = items;
    let n = rest.len();
    let mut sorted: Vec<(ProjectorRecord, Option<String>)> = Vec::new();
    let mut keys: Vec<Vec<char>> = Vec::new();
    let mut done: usize = 0;
    assert(all.take(0) =~= Seq::<(ProjectorRecord, Option<String>)>::empty());
    assert(rest@ =~= all.skip(0));
    while rest.len() > 0
        invariant
            done + rest@.len() == all.len(),
            all.len() == n,
            rest@ == all.skip(done as int),
            sorted@.to_multiset() == all.take(done as int).to_multiset(),
            projectors_ordered(sorted@),
            keys@.len() == sorted@.len(),
            forall|q: int|
                0 <= q < keys@.len() ==> (#[trigger] keys@[q])@ == projector_name_key(sorted@[q].0),
        decreases rest.len(),
    {
        let x = rest.remove(0);
        assert(x == all[done as int]);
        assert(rest@ =~= all.skip(done + 1));
        let kx = chars_of(to_lowercase(x.0.display_name.as_str()).as_str());
        let ghost s = sorted@;
        let ghost lx = projector_name_key(x.0);
        let mut j: usize = sorted.len();
        loop
            invariant
                j <= sorted@.len(),
                keys@.len() == sorted@.len(),
                s == sorted@,
                forall|q: int|
                    0 <= q < keys@.len() ==> (#[trigger] keys@[q])@ == projector_name_key(sorted@[q].0),
                kx@ == lx,
                lx == projector_name_key(x.0),
                forall|q: int| j <= q < s.len() ==> !text_lt(projector_name_key(#[trigger] s[q].0), lx),
            ensures
                j <= sorted@.len(),
                forall|q: int| j <= q < s.len() ==> !text_lt(projector_name_key(#[trigger] s[q].0), lx),
                j > 0 ==> !text_lt(lx, projector_name_key(s[j - 1].0)),
            decreases j,
        {
            if j == 0 {
                break;
            }
            let c = compare_text(kx.as_slice(), keys[j - 1].as_slice());
            assert(keys@[j - 1]@ == projector_name_key(s[j - 1].0));
            let goes_before = c < 0 || (c == 0 && path_precedes(
                x.0.path.as_str(),
                sorted[j - 1].0.path.as_str(),
            ));
            if !goes_before {
                break;
            }
            proof {
                if c < 0 {
                    lemma_text_lt_asymmetric(lx, projector_name_key(s[j - 1].0));
                } else {
                    lemma_text_lt_irreflexive(lx);
                }
            }
            j -= 1;
        }
        proof {
            s.insert_ensures(j as int, x);
            assert(all.take(done + 1) =~= all.take(done as int).push(x));
            assert forall|a: int, b: int|
                0 <= a < b < s.len() + 1 implies !text_lt(
                projector_name_key(#[trigger] s.insert(j as int, x)[b].0),
                projector_name_key(#[trigger] s.insert(j as int, x)[a].0),
            ) by {
                let u = s.insert(j as int, x);
                if b < j {
                    assert(u[a] == s[a] && u[b] == s[b]);
                } else if b == j {
                    assert(u[b] == x);
                    assert(u[a] == s[a]);
                    if a < j - 1 {
                        lemma_not_lt_chain(projector_name_key(s[a].0), projector_name_key(s[j - 1].0), lx);
                    }
                } else if a == j {
                    assert(u[a] == x);
                    assert(u[b] == s[b - 1]);
                } else if a < j {
                    assert(u[a] == s[a]);
                    assert(u[b] == s[b - 1]);
                    if a + 1 < b - 1 + 1 {
                    }
                } else {
                    assert(u[a] == s[a - 1]);
                    assert(u[b] == s[b - 1]);
                }
            }
        }
        let ghost keys_before = keys@;
        let ghost sorted_before = sorted@;
        sorted.insert(j, x);
        keys.insert(j, kx);
        assert(sorted@ == s.insert(j as int, x));
        proof {
            vstd::seq_lib::to_multiset_insert(s, j as int, x);
            vstd::seq_lib::to_multiset_build(all.take(done as int), x);
        }
        assert(sorted@.to_multiset() == s.to_multiset().insert(x));
        assert(all.take(done + 1).to_multiset() == all.take(done as int).push(x).to_multiset());
        assert(all.take(done as int).push(x).to_multiset() == all.take(done as int).to_multiset().insert(x));
        assert forall|q: int|
            0 <= q < keys@.len() implies (#[trigger] keys@[q])@ == projector_name_key(sorted@[q].0) by {
            if q < j {
                assert(keys@[q] == keys_before[q]);
                assert(sorted@[q] == sorted_before[q]);
            } else if q > j {
                assert(keys@[q] == keys_before[q - 1]);
                assert(sorted@[q] == sorted_before[q - 1]);
            }
        }
        done += 1;
    }
    assert(all.take(all.len() as int) =~= all);
    sorted
}

// ---------------------------------------------------------------------------------------------
// The catalog's lists
// ---------------------------------------------------------------------------------------------

/// The projector files among the scanned files, in scan order.
pub open spec fn projector_files(files: Seq<ParsedFile>) -> Seq<ParsedFile>
    decreases files.len(),
{
    if files.len() == 0 {
        Seq::empty()
    } else {
        let prev = projector_files(files.drop_last());
        let f = files.last();
        if is_projector_spec(f.filename@, f.metadata@) {
            prev.push(f)
        } else {
            prev
        }
    }
}

/// The regular model files among the scanned files, in scan order.
pub open spec fn regular_files(files: Seq<ParsedFile>) -> Seq<ParsedFile>
    decreases files.len(),
{
    if files.len() == 0 {
        Seq::empty()
    } else {
        let prev = regular_files(files.drop_last());
        let f = files.last();
        if is_regular_model_spec(f.filename@, f.metadata@) {
            prev.push(f)
        } else {
            prev
        }
    }
}

/// A projector record made from a file, with the file's stem.
pub open spec fn projector_entry_of(f: ParsedFile, e: (ProjectorRecord, Option<String>)) -> bool {
    &&& e.0.id@ == f.path@
    &&& e.0.display_name@ == match f.metadata@.name {
        Some(n) => n,
        None => f.filename@,
    }
    &&& e.0.path@ == f.path@
    &&& e.0.directory@ == f.directory@
    &&& e.0.size_bytes == f.size_bytes
    &&& e.0.modified_at == f.modified_at
    &&& e.0.metadata@ == f.metadata@
    &&& opt_text(e.1) == Some(stem_of_name(f.filename@))
}

pub open spec fn zipped(a: Seq<ProjectorRecord>, b: Seq<Option<String>>) -> Seq<(ProjectorRecord, Option<String>)> {
    Seq::new(a.len(), |i: int| (a[i], b[i]))
}

/// Whether the regular model files' sizes add up within `u64`, as grouping needs.
pub fn model_sizes_fit(files: &Vec<ParsedFile>) -> (r: bool)
    ensures
        r == (size_total(regular_files(files@)) <= u64::MAX),
{
    let mut total: u64 = 0;
    let mut i: usize = 0;
    assert(files@.take(0) =~= Seq::<ParsedFile>::empty());
    while i < files.len()
        invariant
            i <= files@.len(),
            total == size_total(regular_files(files@.take(i as int))),
        decreases files.len() - i,
    {
        assert(files@.take(i + 1).drop_last() =~= files@.take(i as int));
        assert(files@.take(i + 1).last() == files@[i as int]);
        if is_regular_model(&files[i]) {
            let size = files[i].size_bytes;
            let ghost prev = regular_files(files@.take(i as int));
            assert(prev.push(files@[i as int]).drop_last() =~= prev);
            if total > u64::MAX - size {
                proof {
                    lemma_regular_total_grows(files@, i + 1);
                }
                return false;
            }
            total = total + size;
        }
        i += 1;
    }
    assert(files@.take(files@.len() as int) =~= files@);
    true
}

proof fn lemma_regular_total_grows(files: Seq<ParsedFile>, k: int)
    requires
        0 <= k <= files.len(),
    ensures
        size_total(regular_files(files.take(k))) <= size_total(regular_files(files)),
    decreases files.len() - k,
{
    if k < files.len() {
        lemma_regular_total_grows(files, k + 1);
        let p = files.take(k + 1);
        assert(p.drop_last() =~= files.take(k));
        let prev = regular_files(files.take(k));
        if is_regular_model_spec(p.last().filename@, p.last().metadata@) {
            assert(prev.push(p.last()).drop_last() =~= prev);
        }
    } else {
        assert(files.take(k) =~= files);
    }
}

/// How the catalog's lists come from the scanned files: `entries` are the projector files'
/// records with their stems, which the projectors (with `stems`) reorder by name; `logical`
/// are the model files' logical paths and `fold_case` whether paths compare ignoring case;
/// `grouped` are the models grouped from their shards and `paired_models` the same after
/// pairing; the models are `paired_models` ordered by name.
pub open spec fn catalog_agrees(
    parsed: Seq<ParsedFile>,
    overrides: ModelOverrides,
    models: Seq<ModelRecord>,
    projectors: Seq<ProjectorRecord>,
    issues_before: Seq<(Seq<char>, Seq<char>)>,
    issues_after: Seq<(Seq<char>, Seq<char>)>,
    entries: Seq<(ProjectorRecord, Option<String>)>,
    stems: Seq<Option<String>>,
    logical: Seq<Seq<char>>,
    fold_case: bool,
    grouped: Seq<ModelRecord>,
    paired_models: Seq<ModelRecord>,
) -> bool {
    let files = regular_files(parsed);
    let keys = model_keys(logical, fold_case);
    &&& entries.len() == projector_files(parsed).len()
    &&& forall|i: int|
        0 <= i < entries.len() ==> projector_entry_of(#[trigger] projector_files(parsed)[i], entries[i])
    &&& stems.len() == projectors.len()
    &&& zipped(projectors, stems).to_multiset() == entries.to_multiset()
    &&& projectors_ordered(zipped(projectors, stems))
    &&& logical_paths_ok(files, logical)
    &&& model_views(grouped) == keys.map_values(|k: Seq<char>| group_record(files, logical, fold_case, k))
    &&& all_paired(
        grouped,
        paired_models,
        keys.map_values(|k: Seq<char>| primary_stem(files, logical, fold_case, k)),
        projectors,
        stem_views(stems),
        overrides,
        fold_case,
    )
    &&& models == sort_by(paired_models, by_model_name())
    &&& issues_after == issues_before + crate::models::shards::grouping_issues(files, logical, fold_case)
        + pairing_issues(grouped, projectors, overrides, fold_case)
}

/// The catalog's models and projectors from the scanned files: projectors ordered by name;
/// models grouped from their shards, paired with projectors (saved choices first), ordered
/// by name. Grouping and pairing issues are appended, in that order.
pub fn catalog_lists(
    parsed: Vec<ParsedFile>,
    overrides: &ModelOverrides,
    issues: &mut Vec<ModelScanIssue>,
) -> (r: (Vec<ModelRecord>, Vec<ProjectorRecord>))
    requires
        size_total(regular_files(parsed@)) <= u64::MAX,
        overrides.projectors.wf(),
    ensures
        exists|
            entries: Seq<(ProjectorRecord, Option<String>)>,
            stems: Seq<Option<String>>,
            logical: Seq<Seq<char>>,
            fold_case: bool,
            grouped: Seq<ModelRecord>,
            paired_models: Seq<ModelRecord>,
        |
            #[trigger] catalog_agrees(
                parsed@,
                *overrides,
                r.0@,
                r.1@,
                issue_views(old(issues)@),
                issue_views(final(issues)@),
                entries,
                stems,
                logical,
                fold_case,
                grouped,
                paired_models,
            ),
{
    let ghost all = parsed@;
    let mut rest = parsed;
    let n = rest.len();
    let mut entries: Vec<(ProjectorRecord, Option<String>)> = Vec::new();
    let mut model_files: Vec<ParsedFile> = Vec::new();
    let mut q: usize = 0;
    assert(all.take(0) =~= Seq::<ParsedFile>::empty());
    assert(rest@ =~= all.skip(0));
    while q < n
        invariant
            n == all.len(),
            q <= n,
            rest@ == all.skip(q as int),
            model_files@ == regular_files(all.take(q as int)),
            entries@.len() == projector_files(all.take(q as int)).len(),
            forall|i: int|
                0 <= i < entries@.len() ==> projector_entry_of(
                    #[trigger] projector_files(all.take(q as int))[i],
                    entries@[i],
                ),
        decreases n - q,
    {
        let f = rest.remove(0);
        assert(f == all[q as int]);
        assert(rest@ =~= all.skip(q + 1));
        let ghost p = all.take(q + 1);
        assert(p.drop_last() =~= all.take(q as int));
        assert(p.last() == f);
        let ghost prev_entries = projector_files(all.take(q as int));
        if is_projector(&f) {
            let record = projector_record(&f);
            let stem = stem_of(f.filename.as_str());
            let ghost eb = entries@;
            entries.push((record, Some(stem)));
            assert forall|i: int| 0 <= i < entries@.len() implies projector_entry_of(
                #[trigger] projector_files(p)[i],
                entries@[i],
            ) by {
                assert(projector_files(p) == prev_entries.push(f));
                if i < eb.len() {
                    assert(entries@[i] == eb[i]);
                }
            }
        } else if is_regular_model(&f) {
            model_files.push(f);
        }
        q += 1;
    }
    assert(all.take(n as int) =~= all);
    let ghost entries_view = entries@;
    let sorted = sort_projectors(entries);
    let mut projectors: Vec<ProjectorRecord> = Vec::new();
    let mut pstems: Vec<Option<String>> = Vec::new();
    let ghost sv = sorted@;
    let mut left = sorted;
    let m = left.len();
    let mut k: usize = 0;
    assert(left@ =~= sv.skip(0));
    while k < m
        invariant
            m == sv.len(),
            k <= m,
            left@ == sv.skip(k as int),
            projectors@.len() == k,
            pstems@.len() == k,
            forall|i: int| 0 <= i < k ==> (#[trigger] projectors@[i], pstems@[i]) == sv[i],
        decreases m - k,
    {
        let e = left.remove(0);
        assert(e == sv[k as int]);
        assert(left@ =~= sv.skip(k + 1));
        projectors.push(e.0);
        pstems.push(e.1);
        k += 1;
    }
    assert(zipped(projectors@, pstems@) =~= sv);
    let fold_case = crate::config::paths::main_separator() == '\\';
    let logical = crate::models::shards::logical_paths(&model_files);
    let (mut models, mstems) = crate::models::shards::group_model_files(&model_files, &logical, fold_case, issues);
    let ghost grouped = models@;
    let ghost after_grouping = issue_views(issues@);
    proof {
        let keys = model_keys(texts_of(logical@), fold_case);
        assert(grouped.len() == keys.len()) by {
            assert(model_views(grouped).len() == grouped.len());
        }
        assert(mstems@.len() == keys.len()) by {
            assert(mstems@.map_values(|s: Option<String>| opt_text(s)).len() == mstems@.len());
        }
    }
    pair_projectors(&mut models, &mstems, &projectors, &pstems, overrides, fold_case, issues);
    let ghost paired_models = models@;
    let sorted_models = sort_models(models);
    proof {
        let files = regular_files(all);
        let lg = texts_of(logical@);
        assert(stem_views(mstems@) == model_keys(lg, fold_case).map_values(
            |k: Seq<char>| primary_stem(files, lg, fold_case, k),
        ));
        assert(issue_views(issues@) =~= issue_views(old(issues)@) + crate::models::shards::grouping_issues(
            files,
            lg,
            fold_case,
        ) + pairing_issues(grouped, projectors@, *overrides, fold_case));
    }
    assert(all == parsed@);
    let r = (sorted_models, projectors);
    assert(catalog_agrees(
        parsed@,
        *overrides,
        r.0@,
        r.1@,
        issue_views(old(issues)@),
        issue_views(issues@),
        entries_view,
        pstems@,
        texts_of(logical@),
        fold_case,
        grouped,
        paired_models,
    ));
    r
}

pub open spec fn texts_of(v: Seq<String>) -> Seq<Seq<char>> {
    crate::text::texts(v)
}

} // verus!
