//! Build tools, their requirements, and parsing of `--version` banners and `cmake --help`.
use vstd::prelude::*;

use crate::error::opt_text;
use crate::text::{chars_equal, chars_of, contains, contains_exec, is_ascii_digit, is_digit, lines, lines_exec, lit, split_once, split_once_exec, split_once_seq, split_once_seq_exec, starts_with, starts_with_exec, string_of, trim, trim_end_char, trim_end_char_exec, trim_non_alnum, trim_non_alnum_exec, trim_start, trim_start_char, trim_start_char_exec, trim_start_seq, trim_start_seq_exec, trimmed, utf8_len, utf8_len_upto, views, words, words_exec, skip_ws_from};

verus! {

/// A CMake generator, discovered from `cmake --help` rather than hardcoded.
#[derive(Debug, Clone, PartialEq, Eq)]
pub struct CmakeGenerator {
    pub name: String,
    pub is_default: bool,
    /// Multi-config generators need `--config` at build time instead of `CMAKE_BUILD_TYPE`.
    pub multi_config: bool,
}

#[derive(Debug, Clone, Copy, PartialEq, Eq, Structural)]
pub enum ToolRequirement {
    /// Nothing can be built without it.
    Required,
    /// Only needed for the CUDA backend.
    RequiredForCuda,
    Optional,
}

#[derive(Debug, Clone, Copy, PartialEq, Eq, Structural)]
pub enum ToolId {
    Git,
    Cmake,
    VisualStudio,
    Msvc,
    Cxx,
    Make,
    Ninja,
    CudaToolkit,
    Nvcc,
    NvidiaDriver,
}

#[derive(Debug, Clone)]
pub struct ToolStatus {
    pub id: ToolId,
    pub name: String,
    pub found: bool,
    pub version: Option<String>,
    pub path: Option<String>,
    pub detail: Option<String>,
    pub requirement: ToolRequirement,
    /// What the user should do when it is missing. Never just "not found".
    pub remedy: Option<String>,
}

impl ToolStatus {
    pub fn missing(id: ToolId, name: &str, requirement: ToolRequirement, remedy: &str) -> (t:
        Self)
        ensures
            t.id == id && t.name@ == name@ && !t.found && t.requirement == requirement,
            t.version is None && t.path is None && t.detail is None,
            opt_text(t.remedy) == Some(remedy@),
    {
        ToolStatus {
            id,
            name: name.to_string(),
            found: false,
            version: None,
            path: None,
            detail: None,
            requirement,
            remedy: Some(remedy.to_string()),
        }
    }

    pub fn found(id: ToolId, name: &str, requirement: ToolRequirement) -> (t: Self)
        ensures
            t.id == id && t.name@ == name@ && t.found && t.requirement == requirement,
            t.version is None && t.path is None && t.detail is None && t.remedy is None,
    {
        ToolStatus {
            id,
            name: name.to_string(),
            found: true,
            version: None,
            path: None,
            detail: None,
            requirement,
            remedy: None,
        }
    }

    pub fn with_version(self, version: Option<String>) -> (t: Self)
        ensures
            t == (ToolStatus { version, ..self }),
    {
        ToolStatus { version, ..self }
    }

    pub fn with_path(self, path: Option<String>) -> (t: Self)
        ensures
            t == (ToolStatus { path, ..self }),
    {
        ToolStatus { path, ..self }
    }

    pub fn with_detail(self, detail: &str) -> (t: Self)
        ensures
            t.id == self.id && t.name == self.name && t.found == self.found && t.version
                == self.version && t.path == self.path && t.requirement == self.requirement
                && t.remedy == self.remedy,
            opt_text(t.detail) == Some(detail@),
    {
        ToolStatus { detail: Some(detail.to_string()), ..self }
    }
}

#[derive(Debug, Clone)]
pub struct Toolchain {
    pub tools: Vec<ToolStatus>,
    pub generators: Vec<CmakeGenerator>,
}

/// Index of the first tool with `id` at or after `i`, or `tools.len()`.
pub open spec fn tool_index(tools: Seq<ToolStatus>, id: ToolId, i: int) -> int
    decreases tools.len() - i,
{
    if i < 0 || i >= tools.len() {
        tools.len() as int
    } else if tools[i].id == id {
        i
    } else {
        tool_index(tools, id, i + 1)
    }
}

/// Index of the first generator matching `default_only`/`name` at or after `i`.
pub open spec fn generator_index(
    generators: Seq<CmakeGenerator>,
    by_default: bool,
    name: Seq<char>,
    i: int,
) -> int
    decreases generators.len() - i,
{
    if i < 0 || i >= generators.len() {
        generators.len() as int
    } else if (by_default && generators[i].is_default) || (!by_default && generators[i].name@
        == name) {
        i
    } else {
        generator_index(generators, by_default, name, i + 1)
    }
}

/// Every tool with requirement `requirement` was found.
pub open spec fn all_found(tools: Seq<ToolStatus>, requirement: ToolRequirement) -> bool {
    forall|i: int| 0 <= i < tools.len() && tools[i].requirement == requirement ==> tools[i].found
}

impl Toolchain {
    pub fn tool(&self, id: ToolId) -> (r: Option<&ToolStatus>)
        ensures
            ({
                let k = tool_index(self.tools@, id, 0);
                match r {
                    Some(t) => 0 <= k < self.tools@.len() && *t == self.tools@[k],
                    None => k == self.tools@.len(),
                }
            }),
    {
        let mut i: usize = 0;
        while i < self.tools.len()
            invariant
                i <= self.tools@.len(),
                tool_index(self.tools@, id, 0) == tool_index(self.tools@, id, i as int),
            decreases self.tools.len() - i,
        {
            if self.tools[i].id == id {
                return Some(&self.tools[i]);
            }
            i += 1;
        }
        None
    }

    fn requirement_met(&self, requirement: ToolRequirement) -> (r: bool)
        ensures
            r == all_found(self.tools@, requirement),
    {
        let mut i: usize = 0;
        while i < self.tools.len()
            invariant
                i <= self.tools@.len(),
                forall|j: int|
                    0 <= j < i && self.tools@[j].requirement == requirement
                        ==> self.tools@[j].found,
            decreases self.tools.len() - i,
        {
            if self.tools[i].requirement == requirement && !self.tools[i].found {
                return false;
            }
            i += 1;
        }
        true
    }

    /// True when everything needed for a CPU build is present.
    pub fn can_build_cpu(&self) -> (r: bool)
        ensures
            r == all_found(self.tools@, ToolRequirement::Required),
    {
        self.requirement_met(ToolRequirement::Required)
    }

    /// True when everything needed for a CUDA build is present.
    pub fn can_build_cuda(&self) -> (r: bool)
        ensures
            r == (all_found(self.tools@, ToolRequirement::Required) && all_found(
                self.tools@,
                ToolRequirement::RequiredForCuda,
            )),
    {
        self.can_build_cpu() && self.requirement_met(ToolRequirement::RequiredForCuda)
    }

    fn find_generator(&self, by_default: bool, name: &[char]) -> (r: Option<&CmakeGenerator>)
        ensures
            ({
                let k = generator_index(self.generators@, by_default, name@, 0);
                match r {
                    Some(g) => 0 <= k < self.generators@.len() && *g == self.generators@[k],
                    None => k == self.generators@.len(),
                }
            }),
    {
        let mut i: usize = 0;
        while i < self.generators.len()
            invariant
                i <= self.generators@.len(),
                generator_index(self.generators@, by_default, name@, 0) == generator_index(
                    self.generators@,
                    by_default,
                    name@,
                    i as int,
                ),
            decreases self.generators.len() - i,
        {
            let matches = if by_default {
                self.generators[i].is_default
            } else {
                chars_equal(chars_of(self.generators[i].name.as_str()).as_slice(), name)
            };
            if matches {
                return Some(&self.generators[i]);
            }
            i += 1;
        }
        None
    }

    pub fn default_generator(&self) -> (r: Option<&CmakeGenerator>)
        ensures
            ({
                let k = generator_index(self.generators@, true, Seq::empty(), 0);
                match r {
                    Some(g) => 0 <= k < self.generators@.len() && *g == self.generators@[k],
                    None => k == self.generators@.len(),
                }
            }),
    {
        let none: [char; 0] = [];
        assert(none@ =~= Seq::<char>::empty());
        self.find_generator(true, &none)
    }

    pub fn generator(&self, name: &str) -> (r: Option<&CmakeGenerator>)
        ensures
            ({
                let k = generator_index(self.generators@, false, name@, 0);
                match r {
                    Some(g) => 0 <= k < self.generators@.len() && *g == self.generators@[k],
                    None => k == self.generators@.len(),
                }
            }),
    {
        self.find_generator(false, chars_of(name).as_slice())
    }
}

/// A token looks like a version once stripped of surrounding punctuation: it starts with a digit
/// and contains a dot.
pub open spec fn version_like(cleaned: Seq<char>) -> bool {
    contains(cleaned, seq!['.']) && cleaned.len() > 0 && is_digit(cleaned[0])
}

/// The first version-looking token among `tokens[i..]`, stripped of surrounding punctuation.
pub open spec fn version_token_from(tokens: Seq<Seq<char>>, i: int) -> Option<Seq<char>>
    decreases tokens.len() - i,
{
    if i < 0 || i >= tokens.len() {
        None
    } else if version_like(trim_non_alnum(tokens[i])) {
        Some(trim_non_alnum(tokens[i]))
    } else {
        version_token_from(tokens, i + 1)
    }
}

pub open spec fn first_version_token_spec(output: Seq<char>) -> Option<Seq<char>> {
    version_token_from(words(output), 0)
}

/// Reads the first version-looking token out of a `--version` banner.
fn first_version_token(output: &[char]) -> (r: Option<String>)
    ensures
        opt_text(r) == first_version_token_spec(output@),
{
    let tokens = words_exec(output);
    let dot = ['.'];
    assert(dot@ =~= seq!['.']);
    let mut i: usize = 0;
    while i < tokens.len()
        invariant
            i <= tokens@.len(),
            views(tokens@) == words(output@),
            dot@ == seq!['.'],
            version_token_from(views(tokens@), 0) == version_token_from(views(tokens@), i as int),
        decreases tokens.len() - i,
    {
        let ghost ts = views(tokens@);
        assert(ts[i as int] == tokens@[i as int]@);
        let cleaned = trim_non_alnum_exec(tokens[i].as_slice());
        let has_dot = contains_exec(cleaned.as_slice(), &dot);
        let like = has_dot && cleaned.len() > 0 && is_ascii_digit(cleaned[0]);
        assert(like == version_like(cleaned@));
        assert(version_token_from(ts, i as int) == if like {
            Some(cleaned@)
        } else {
            version_token_from(ts, i + 1)
        });
        if like {
            let text = string_of(cleaned.as_slice());
            assert(opt_text(Some(text)) == Some(cleaned@));
            return Some(text);
        }
        i += 1;
    }
    None
}

/// Index of the first line at or after `i` that contains `needle`.
pub open spec fn line_containing(ls: Seq<Seq<char>>, needle: Seq<char>, i: int) -> int
    decreases ls.len() - i,
{
    if i < 0 || i >= ls.len() {
        ls.len() as int
    } else if contains(ls[i], needle) {
        i
    } else {
        line_containing(ls, needle, i + 1)
    }
}

fn find_line_containing(all: &Vec<Vec<char>>, needle: &[char]) -> (r: usize)
    ensures
        r as int == line_containing(views(all@), needle@, 0),
        r <= all@.len(),
{
    let mut i: usize = 0;
    while i < all.len()
        invariant
            i <= all@.len(),
            line_containing(views(all@), needle@, 0) == line_containing(
                views(all@),
                needle@,
                i as int,
            ),
        decreases all.len() - i,
    {
        assert(views(all@)[i as int] == all@[i as int]@);
        if contains_exec(all[i].as_slice(), needle) {
            return i;
        }
        i += 1;
    }
    i
}

/// The version on the first line containing `label`, read after any leading repetitions of
/// `label`.
pub open spec fn labelled_version(output: Seq<char>, label: Seq<char>) -> Option<Seq<char>> {
    let ls = lines(output);
    let k = line_containing(ls, label, 0);
    if 0 <= k < ls.len() {
        first_version_token_spec(trim_start_seq(ls[k], label))
    } else {
        None
    }
}

fn labelled_version_exec(output: &str, label: &str) -> (r: Option<String>)
    ensures
        opt_text(r) == labelled_version(output@, label@),
{
    let all = lines_exec(chars_of(output).as_slice());
    let needle = chars_of(label);
    let k = find_line_containing(&all, needle.as_slice());
    if k < all.len() {
        assert(views(all@)[k as int] == all@[k as int]@);
        let rest = trim_start_seq_exec(all[k].as_slice(), needle.as_slice());
        first_version_token(rest.as_slice())
    } else {
        None
    }
}

pub fn parse_cmake_version(output: &str) -> (r: Option<String>)
    ensures
        opt_text(r) == labelled_version(output@, "cmake version"@),
{
    labelled_version_exec(output, "cmake version")
}

pub fn parse_git_version(output: &str) -> (r: Option<String>)
    ensures
        opt_text(r) == labelled_version(output@, "git version"@),
{
    labelled_version_exec(output, "git version")
}

pub fn parse_ninja_version(output: &str) -> (r: Option<String>)
    ensures
        opt_text(r) == first_version_token_spec(output@),
{
    first_version_token(chars_of(output).as_slice())
}

/// The CUDA release on the first line containing `release `: the text after it, up to a further
/// `release ` and then up to the first comma, trimmed and without trailing dots.
pub open spec fn nvcc_version_spec(output: Seq<char>) -> Option<Seq<char>> {
    let ls = lines(output);
    let k = line_containing(ls, "release "@, 0);
    if 0 <= k < ls.len() {
        match split_once_seq(ls[k], "release "@) {
            Some((_, after)) => {
                let piece = match split_once_seq(after, "release "@) {
                    Some((first, _)) => first,
                    None => after,
                };
                let field = match split_once(piece, ',') {
                    Some((first, _)) => first,
                    None => piece,
                };
                let candidate = trim_end_char(trim(field), '.');
                if candidate.len() > 0 {
                    Some(candidate)
                } else {
                    None
                }
            },
            None => None,
        }
    } else {
        None
    }
}

/// `nvcc --version` ends with `Cuda compilation tools, release 13.3, V13.3.33`.
pub fn parse_nvcc_version(output: &str) -> (r: Option<String>)
    ensures
        opt_text(r) == nvcc_version_spec(output@),
{
    let all = lines_exec(chars_of(output).as_slice());
    let needle = lit("release ");
    let k = find_line_containing(&all, needle.as_slice());
    if k >= all.len() {
        return None;
    }
    assert(views(all@)[k as int] == all@[k as int]@);
    let after = match split_once_seq_exec(all[k].as_slice(), needle.as_slice()) {
        Some((_, after)) => after,
        None => return None,
    };
    let piece = match split_once_seq_exec(after.as_slice(), needle.as_slice()) {
        Some((first, _)) => first,
        None => after,
    };
    let field = match split_once_exec(piece.as_slice(), ',') {
        Some((first, _)) => first,
        None => piece,
    };
    let candidate = trim_end_char_exec(trimmed(field.as_slice()).as_slice(), '.');
    if candidate.len() > 0 {
        Some(string_of(candidate.as_slice()))
    } else {
        None
    }
}

/// Multi-config generators build every configuration from one tree and select at build time.
pub open spec fn multi_config_spec(generator: Seq<char>) -> bool {
    starts_with(generator, "Visual Studio"@) || generator == "Xcode"@ || contains(
        generator,
        "Multi-Config"@,
    )
}

pub fn is_multi_config(generator: &str) -> (r: bool)
    ensures
        r == multi_config_spec(generator@),
{
    let g = chars_of(generator);
    starts_with_exec(g.as_slice(), lit("Visual Studio").as_slice()) || chars_equal(
        g.as_slice(),
        lit("Xcode").as_slice(),
    ) || contains_exec(g.as_slice(), lit("Multi-Config").as_slice())
}

pub ghost struct GeneratorModel {
    pub name: Seq<char>,
    pub is_default: bool,
    pub multi_config: bool,
}

pub open spec fn generator_models(v: Seq<CmakeGenerator>) -> Seq<GeneratorModel> {
    Seq::new(
        v.len(),
        |i: int|
            GeneratorModel {
                name: v[i].name@,
                is_default: v[i].is_default,
                multi_config: v[i].multi_config,
            },
    )
}

pub open spec fn named(gs: Seq<GeneratorModel>, name: Seq<char>) -> bool {
    exists|i: int| 0 <= i < gs.len() && gs[i].name == name
}

/// The name a generator-table line declares, after the `*` default marker and any `[arch]`
/// placeholder are removed; `None` for continuation lines (indented by more than four bytes) and
/// lines that are not generator entries.
pub open spec fn generator_line_name(line: Seq<char>) -> Option<(Seq<char>, bool)> {
    match split_once(line, '=') {
        None => None,
        Some((left, _)) => if utf8_len(left) - utf8_len(trim_start(left)) > 4 {
            None
        } else {
            let trimmed_left = trim(left);
            let is_default = trimmed_left.len() > 0 && trimmed_left[0] == '*';
            let name = trim(trim_start_char(trimmed_left, '*'));
            if name.len() == 0 || contains(name, "  "@) {
                None
            } else {
                let base = trim(
                    match split_once(name, '[') {
                        Some((first, _)) => first,
                        None => name,
                    },
                );
                if base.len() == 0 {
                    None
                } else {
                    Some((base, is_default))
                }
            }
        },
    }
}

/// Generators declared by the first `n` lines; a name is kept only the first time it appears.
pub open spec fn generators_upto(ls: Seq<Seq<char>>, n: int) -> Seq<GeneratorModel>
    decreases n,
{
    if n <= 0 || n > ls.len() {
        Seq::empty()
    } else {
        let before = generators_upto(ls, n - 1);
        match generator_line_name(ls[n - 1]) {
            Some((name, is_default)) => if named(before, name) {
                before
            } else {
                before.push(
                    GeneratorModel { name, is_default, multi_config: multi_config_spec(name) },
                )
            },
            None => before,
        }
    }
}

pub open spec fn generators_spec(output: Seq<char>) -> Seq<GeneratorModel> {
    generators_upto(lines(output), lines(output).len() as int)
}

fn generator_line(line: &[char]) -> (r: Option<(Vec<char>, bool)>)
    ensures
        match r {
            Some((name, is_default)) => generator_line_name(line@) == Some((name@, is_default)),
            None => generator_line_name(line@) is None,
        },
{
    let (left, _) = match split_once_exec(line, '=') {
        Some(parts) => parts,
        None => return None,
    };
    let start = skip_ws_from(left.as_slice(), 0);
    let indent = utf8_len_upto(left.as_slice(), 0, start, 4);
    proof {
        crate::text::lemma_skip_ws_bounds(left@, 0);
        lemma_utf8_split(left@, start as int);
    }
    if indent > 4 {
        return None;
    }
    let trimmed_left = trimmed(left.as_slice());
    let is_default = trimmed_left.len() > 0 && trimmed_left[0] == '*';
    let name = trimmed(trim_start_char_exec(trimmed_left.as_slice(), '*').as_slice());
    if name.len() == 0 || contains_exec(name.as_slice(), lit("  ").as_slice()) {
        return None;
    }
    let first = match split_once_exec(name.as_slice(), '[') {
        Some((first, _)) => first,
        None => name,
    };
    let base = trimmed(first.as_slice());
    if base.len() == 0 {
        return None;
    }
    Some((base, is_default))
}

proof fn lemma_utf8_split(s: Seq<char>, k: int)
    requires
        0 <= k <= s.len(),
    ensures
        utf8_len(s) - utf8_len(s.subrange(k, s.len() as int)) == utf8_len(s.subrange(0, k)),
    decreases s.len(),
{
    if s.len() > k {
        lemma_utf8_split(s.drop_last(), k);
        assert(s.subrange(k, s.len() as int).drop_last() =~= s.drop_last().subrange(
            k,
            s.len() - 1,
        ));
        assert(s.drop_last().subrange(0, k) =~= s.subrange(0, k));
    } else {
        assert(s.subrange(0, k) =~= s);
        assert(s.subrange(k, s.len() as int) =~= Seq::<char>::empty());
    }
}

fn is_named(generators: &Vec<CmakeGenerator>, name: &[char]) -> (r: bool)
    ensures
        r == named(generator_models(generators@), name@),
{
    let ghost models = generator_models(generators@);
    let mut i: usize = 0;
    while i < generators.len()
        invariant
            i <= generators@.len(),
            models == generator_models(generators@),
            forall|j: int| 0 <= j < i ==> models[j].name != name@,
        decreases generators.len() - i,
    {
        if chars_equal(chars_of(generators[i].name.as_str()).as_slice(), name) {
            assert(models[i as int].name == name@);
            return true;
        }
        i += 1;
    }
    false
}

/// Parses the generator table from `cmake --help`.
pub fn parse_generators(output: &str) -> (r: Vec<CmakeGenerator>)
    ensures
        generator_models(r@) == generators_spec(output@),
{
    let all = lines_exec(chars_of(output).as_slice());
    let mut generators: Vec<CmakeGenerator> = Vec::new();
    let mut i: usize = 0;
    while i < all.len()
        invariant
            i <= all@.len(),
            views(all@) == lines(output@),
            generator_models(generators@) == generators_upto(views(all@), i as int),
        decreases all.len() - i,
    {
        assert(views(all@)[i as int] == all@[i as int]@);
        if let Some((name, is_default)) = generator_line(all[i].as_slice()) {
            if !is_named(&generators, name.as_slice()) {
                let text = string_of(name.as_slice());
                let multi_config = is_multi_config(text.as_str());
                let ghost before = generators@;
                generators.push(CmakeGenerator { name: text, is_default, multi_config });
                assert(generator_models(generators@) =~= generator_models(before).push(
                    GeneratorModel { name: name@, is_default, multi_config },
                ));
            }
        }
        i += 1;
    }
    generators
}

#[derive(Debug, Clone, PartialEq, Eq)]
pub struct VisualStudioInstall {
    pub display_name: String,
    pub version: String,
    pub installation_path: String,
}

/// The install that one `vswhere -format json` instance describes: its display name (by default
/// `Visual Studio`), its version (by default empty) and its installation path, without which it
/// describes no install.
pub fn visual_studio_install(
    display_name: Option<String>,
    installation_version: Option<String>,
    installation_path: Option<String>,
) -> (r: Option<VisualStudioInstall>)
    ensures
        match installation_path {
            None => r is None,
            Some(path) => r matches Some(install) && install.installation_path@ == path@
                && install.display_name@ == (match display_name {
                Some(name) => name@,
                None => "Visual Studio"@,
            }) && install.version@ == (match installation_version {
                Some(version) => version@,
                None => ""@,
            }),
        },
{
    let path = match installation_path {
        Some(path) => path,
        None => {
            return None;
        },
    };
    let display_name = match display_name {
        Some(name) => name,
        None => "Visual Studio".to_string(),
    };
    let version = match installation_version {
        Some(version) => version,
        None => "".to_string(),
    };
    Some(VisualStudioInstall { display_name, version, installation_path: path })
}

} // verus!
