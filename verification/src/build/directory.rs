//! Naming of CMake build trees, keyed by everything that makes two trees incompatible.
use vstd::prelude::*;

use crate::build::profile::{backend_slug, configuration_slug, BuildProfile};
use crate::config::paths::{join_path, joined, plain_component};
use crate::error::opt_text;
use crate::text::{append_chars, chars_of, find_char, lemma_find_char, split_from, is_alnum, is_ascii_alphanumeric, join, join_exec, lines, lines_exec, lit, non_empty_parts, non_empty_parts_exec, split, split_exec, strip_prefix, strip_prefix_exec, string_of, to_lowercase, trim, trimmed, unicode_lowercase, views};

verus! {

/// Every character that is not kept becomes `-`: ASCII letters and digits are kept, and dots
/// too when `keep_dots` holds.
pub open spec fn slug_chars(s: Seq<char>, keep_dots: bool) -> Seq<char> {
    Seq::new(
        s.len(),
        |i: int|
            if is_alnum(s[i]) || (keep_dots && s[i] == '.') {
                s[i]
            } else {
                '-'
            },
    )
}

/// Runs of `-` collapsed into one, with none at either end.
pub open spec fn collapse_dashes(s: Seq<char>) -> Seq<char> {
    join(non_empty_parts(split(s, '-')), '-')
}

/// The slug of already lower-cased text.
pub open spec fn slug_of(lowered: Seq<char>, keep_dots: bool) -> Seq<char> {
    collapse_dashes(slug_chars(lowered, keep_dots))
}

/// Reduces lower-cased text to a filesystem-safe token.
pub fn slug_of_lowered(lowered: &str, keep_dots: bool) -> (r: Vec<char>)
    ensures
        r@ == slug_of(lowered@, keep_dots),
{
    let text = chars_of(lowered);
    let mut mapped: Vec<char> = Vec::new();
    let mut i: usize = 0;
    while i < text.len()
        invariant
            i <= text@.len(),
            mapped@ == slug_chars(text@.take(i as int), keep_dots),
        decreases text.len() - i,
    {
        let c = text[i];
        if is_ascii_alphanumeric(c) || (keep_dots && c == '.') {
            mapped.push(c);
        } else {
            mapped.push('-');
        }
        i += 1;
        assert(mapped@ =~= slug_chars(text@.take(i as int), keep_dots));
    }
    assert(text@.take(text@.len() as int) =~= text@);
    let pieces = non_empty_parts_exec(&split_exec(mapped.as_slice(), '-'));
    join_exec(&pieces, '-')
}

/// The generator token of a build tree: `default` when no generator is set or it is blank or
/// reduces to nothing, else the slug of its lower-cased, trimmed name.
pub open spec fn generator_slug_spec(generator: Option<Seq<char>>) -> Seq<char> {
    match generator {
        Some(g) => if trim(g).len() == 0 || slug_of(unicode_lowercase(trim(g)), false).len()
            == 0 {
            "default"@
        } else {
            slug_of(unicode_lowercase(trim(g)), false)
        },
        None => "default"@,
    }
}

/// Reduces a generator name to a short, filesystem-safe token.
fn generator_slug(generator: Option<&str>) -> (r: Vec<char>)
    ensures
        r@ == generator_slug_spec(match generator {
            Some(g) => Some(g@),
            None => None,
        }),
{
    match generator {
        Some(g) => {
            let t = trimmed(chars_of(g).as_slice());
            if t.len() == 0 {
                return lit("default");
            }
            let text = string_of(t.as_slice());
            let lowered = to_lowercase(text.as_str());
            let slug = slug_of_lowered(lowered.as_str(), false);
            if slug.len() == 0 {
                lit("default")
            } else {
                slug
            }
        },
        None => lit("default"),
    }
}

/// The source token of a build tree: the slug of the lower-cased name (dots kept), or `source`
/// when that is empty.
pub open spec fn source_slug_spec(source_name: Seq<char>) -> Seq<char> {
    if slug_of(unicode_lowercase(source_name), true).len() == 0 {
        "source"@
    } else {
        slug_of(unicode_lowercase(source_name), true)
    }
}

pub open spec fn directory_name_spec(
    source_name: Seq<char>,
    profile: BuildProfile,
    architecture: Seq<char>,
) -> Seq<char> {
    source_slug_spec(source_name) + seq!['-'] + backend_slug(profile.backend) + seq!['-']
        + architecture + seq!['-'] + generator_slug_spec(opt_text(profile.generator)) + seq!['-']
        + configuration_slug(profile.configuration)
}

/// Profiles that differ in backend, in configuration or in generator get different build
/// trees. Generators are compared by their token, so an unset or blank generator and one whose
/// name reduces to the same lower-case words count as the same.
pub proof fn different_profiles_get_different_trees(
    source_name: Seq<char>,
    architecture: Seq<char>,
    p1: BuildProfile,
    p2: BuildProfile,
)
    requires
        p1.backend != p2.backend || p1.configuration != p2.configuration || generator_slug_spec(
            opt_text(p1.generator),
        ) != generator_slug_spec(opt_text(p2.generator)),
    ensures
        directory_name_spec(source_name, p1, architecture) != directory_name_spec(
            source_name,
            p2,
            architecture,
        ),
{
    reveal_strlit("cpu");
    reveal_strlit("cuda");
    reveal_strlit("release");
    reveal_strlit("relwithdebinfo");
    reveal_strlit("debug");
    let n1 = directory_name_spec(source_name, p1, architecture);
    let n2 = directory_name_spec(source_name, p2, architecture);
    let pre = source_slug_spec(source_name) + seq!['-'];
    let b1 = backend_slug(p1.backend);
    let b2 = backend_slug(p2.backend);
    let g1 = generator_slug_spec(opt_text(p1.generator));
    let g2 = generator_slug_spec(opt_text(p2.generator));
    let c1 = configuration_slug(p1.configuration);
    let c2 = configuration_slug(p2.configuration);
    let rest1 = seq!['-'] + architecture + seq!['-'] + g1 + seq!['-'] + c1;
    let rest2 = seq!['-'] + architecture + seq!['-'] + g2 + seq!['-'] + c2;
    assert(n1 =~= pre + b1 + rest1);
    assert(n2 =~= pre + b2 + rest2);
    if p1.backend != p2.backend {
        assert(n1[pre.len() as int + 1] == b1[1]);
        assert(n2[pre.len() as int + 1] == b2[1]);
    } else if p1.configuration != p2.configuration {
        assert(n1[n1.len() - 1] == c1[c1.len() - 1]);
        assert(n2[n2.len() - 1] == c2[c2.len() - 1]);
    } else {
        let q = pre + b1 + seq!['-'] + architecture + seq!['-'];
        assert(n1 =~= q + g1 + (seq!['-'] + c1));
        assert(n2 =~= q + g2 + (seq!['-'] + c1));
        if n1 == n2 {
            assert(g1.len() == g2.len());
            assert forall|i: int| 0 <= i < g1.len() implies g1[i] == g2[i] by {
                assert(n1[q.len() + i] == g1[i]);
                assert(n2[q.len() + i] == g2[i]);
            }
            assert(g1 =~= g2);
        }
    }
}

/// A character a build tree's name may hold: ASCII letters and digits, `.`, `-` and `_`.
pub open spec fn safe_name_char(c: char) -> bool {
    is_alnum(c) || c == '.' || c == '-' || c == '_'
}

pub open spec fn safe_name(s: Seq<char>) -> bool {
    forall|i: int| 0 <= i < s.len() ==> safe_name_char(#[trigger] s[i])
}

pub open spec fn all_safe(parts: Seq<Seq<char>>) -> bool {
    forall|k: int| 0 <= k < parts.len() ==> safe_name(#[trigger] parts[k])
}

proof fn lemma_split_safe(s: Seq<char>, c: char, start: int)
    requires
        safe_name(s),
    ensures
        all_safe(split_from(s, c, start)),
    decreases s.len() - start,
{
    if start < 0 || start > s.len() {
    } else {
        lemma_find_char(s, c, start);
        let e = find_char(s, c, start);
        if e < s.len() && e >= start {
            lemma_split_safe(s, c, e + 1);
            let piece = s.subrange(start, e);
            assert(safe_name(piece)) by {
                assert forall|i: int| 0 <= i < piece.len() implies safe_name_char(#[trigger] piece[i]) by {
                    assert(piece[i] == s[start + i]);
                }
            }
            let rest = split_from(s, c, e + 1);
            assert forall|k: int| 0 <= k < (seq![piece] + rest).len() implies safe_name(
                #[trigger] (seq![piece] + rest)[k],
            ) by {
                if k > 0 {
                    assert((seq![piece] + rest)[k] == rest[k - 1]);
                }
            }
        } else {
            let piece = s.subrange(start, s.len() as int);
            assert forall|i: int| 0 <= i < piece.len() implies safe_name_char(#[trigger] piece[i]) by {
                assert(piece[i] == s[start + i]);
            }
        }
    }
}

proof fn lemma_non_empty_parts_safe(ps: Seq<Seq<char>>)
    requires
        all_safe(ps),
    ensures
        all_safe(non_empty_parts(ps)),
    decreases ps.len(),
{
    if ps.len() > 0 {
        assert(all_safe(ps.drop_last())) by {
            assert forall|k: int| 0 <= k < ps.drop_last().len() implies safe_name(
                #[trigger] ps.drop_last()[k],
            ) by {
                assert(ps.drop_last()[k] == ps[k]);
            }
        }
        lemma_non_empty_parts_safe(ps.drop_last());
        assert(safe_name(ps[ps.len() - 1]));
    }
}

proof fn lemma_join_safe(parts: Seq<Seq<char>>)
    requires
        all_safe(parts),
    ensures
        safe_name(join(parts, '-')),
    decreases parts.len(),
{
    if parts.len() == 1 {
        assert(safe_name(parts[0]));
    } else if parts.len() > 1 {
        assert(all_safe(parts.drop_last())) by {
            assert forall|k: int| 0 <= k < parts.drop_last().len() implies safe_name(
                #[trigger] parts.drop_last()[k],
            ) by {
                assert(parts.drop_last()[k] == parts[k]);
            }
        }
        lemma_join_safe(parts.drop_last());
        let head = join(parts.drop_last(), '-');
        let last = parts[parts.len() - 1];
        assert(safe_name(last));
        let whole = head + seq!['-'] + last;
        assert forall|i: int| 0 <= i < whole.len() implies safe_name_char(#[trigger] whole[i]) by {
            if i < head.len() {
                assert(whole[i] == head[i]);
            } else if i == head.len() {
            } else {
                assert(whole[i] == last[i - head.len() - 1]);
            }
        }
    }
}

proof fn lemma_slug_safe(lowered: Seq<char>, keep_dots: bool)
    ensures
        safe_name(slug_of(lowered, keep_dots)),
{
    let mapped = slug_chars(lowered, keep_dots);
    assert(safe_name(mapped));
    lemma_split_safe(mapped, '-', 0);
    lemma_non_empty_parts_safe(split(mapped, '-'));
    lemma_join_safe(non_empty_parts(split(mapped, '-')));
}

/// A build tree's name holds only ASCII letters and digits, `.`, `-` and `_`, whatever the
/// source and generator are called, as long as the architecture does: it can never leave the
/// builds folder or hold a space.
pub proof fn build_tree_names_are_safe(source_name: Seq<char>, profile: BuildProfile, architecture: Seq<char>)
    requires
        safe_name(architecture),
    ensures
        safe_name(directory_name_spec(source_name, profile, architecture)),
{
    reveal_strlit("cpu");
    reveal_strlit("cuda");
    reveal_strlit("release");
    reveal_strlit("relwithdebinfo");
    reveal_strlit("debug");
    reveal_strlit("default");
    reveal_strlit("source");
    lemma_slug_safe(unicode_lowercase(source_name), true);
    match opt_text(profile.generator) {
        Some(g) => lemma_slug_safe(unicode_lowercase(trim(g)), false),
        None => {},
    }
    let src = source_slug_spec(source_name);
    let b = backend_slug(profile.backend);
    let g = generator_slug_spec(opt_text(profile.generator));
    let c = configuration_slug(profile.configuration);
    assert(safe_name(src));
    assert(safe_name(b));
    assert(safe_name(g));
    assert(safe_name(c));
    let parts = seq![src, b, architecture, g, c];
    assert(all_safe(parts)) by {
        assert forall|k: int| 0 <= k < parts.len() implies safe_name(#[trigger] parts[k]) by {
            if k == 0 { assert(parts[k] == src); }
            else if k == 1 { assert(parts[k] == b); }
            else if k == 2 { assert(parts[k] == architecture); }
            else if k == 3 { assert(parts[k] == g); }
            else { assert(parts[k] == c); }
        }
    }
    lemma_join_safe(parts);
    let p1 = seq![src];
    let p2 = seq![src, b];
    let p3 = seq![src, b, architecture];
    let p4 = seq![src, b, architecture, g];
    assert(p2.drop_last() =~= p1);
    assert(p3.drop_last() =~= p2);
    assert(p4.drop_last() =~= p3);
    assert(parts.drop_last() =~= p4);
    assert(join(p1, '-') == src);
    assert(join(p2, '-') == src + seq!['-'] + b);
    assert(join(p3, '-') == src + seq!['-'] + b + seq!['-'] + architecture);
    assert(join(p4, '-') == src + seq!['-'] + b + seq!['-'] + architecture + seq!['-'] + g);
    assert(join(parts, '-') == src + seq!['-'] + b + seq!['-'] + architecture + seq!['-'] + g
        + seq!['-'] + c);
}

/// Build directory name: `<source>-<backend>-<architecture>-<generator>-<configuration>`.
pub fn build_directory_name(source_name: &str, profile: &BuildProfile, architecture: &str) -> (r:
    String)
    ensures
        r@ == directory_name_spec(source_name@, *profile, architecture@),
{
    let lowered = to_lowercase(source_name);
    let slug = slug_of_lowered(lowered.as_str(), true);
    let mut name = if slug.len() == 0 {
        lit("source")
    } else {
        slug
    };
    name.push('-');
    append_chars(&mut name, chars_of(profile.backend.slug()).as_slice());
    name.push('-');
    append_chars(&mut name, chars_of(architecture).as_slice());
    name.push('-');
    let generator = match &profile.generator {
        Some(g) => generator_slug(Some(g.as_str())),
        None => generator_slug(None),
    };
    append_chars(&mut name, generator.as_slice());
    name.push('-');
    append_chars(&mut name, chars_of(profile.configuration.slug()).as_slice());
    string_of(name.as_slice())
}

pub fn build_directory(
    builds_root: &str,
    source_name: &str,
    profile: &BuildProfile,
    architecture: &str,
) -> (r: String)
    ensures
        plain_component(directory_name_spec(source_name@, *profile, architecture@)) ==> joined(
            builds_root@,
            directory_name_spec(source_name@, *profile, architecture@),
            r@,
        ),
{
    let name = build_directory_name(source_name, profile, architecture);
    join_path(builds_root, name.as_str())
}

/// The value of the first `CMAKE_GENERATOR:INTERNAL=` line whose trimmed value is not empty.
pub open spec fn cached_generator_from(ls: Seq<Seq<char>>, i: int) -> Option<Seq<char>>
    decreases ls.len() - i,
{
    if i < 0 || i >= ls.len() {
        None
    } else {
        match strip_prefix(ls[i], "CMAKE_GENERATOR:INTERNAL="@) {
            Some(value) => if trim(value).len() > 0 {
                Some(trim(value))
            } else {
                cached_generator_from(ls, i + 1)
            },
            None => cached_generator_from(ls, i + 1),
        }
    }
}

/// Reads `CMAKE_GENERATOR` back out of an existing cache, so a generator change can be detected.
pub fn parse_cached_generator(cache: &str) -> (r: Option<String>)
    ensures
        opt_text(r) == cached_generator_from(lines(cache@), 0),
{
    let text = chars_of(cache);
    let all = lines_exec(text.as_slice());
    let prefix = lit("CMAKE_GENERATOR:INTERNAL=");
    let mut i: usize = 0;
    while i < all.len()
        invariant
            i <= all@.len(),
            views(all@) == lines(cache@),
            prefix@ == "CMAKE_GENERATOR:INTERNAL="@,
            cached_generator_from(views(all@), 0) == cached_generator_from(views(all@), i as int),
        decreases all.len() - i,
    {
        assert(views(all@)[i as int] == all@[i as int]@);
        if let Some(value) = strip_prefix_exec(all[i].as_slice(), prefix.as_slice()) {
            let t = trimmed(value.as_slice());
            if t.len() > 0 {
                return Some(string_of(t.as_slice()));
            }
        }
        i += 1;
    }
    None
}

} // verus!
