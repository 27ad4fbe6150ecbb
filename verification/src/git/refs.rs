//! Parsing of `git for-each-ref`, `git log` and `git ls-remote` output, and checkout planning.
use vstd::prelude::*;

use crate::error::opt_text;
use crate::text::{
    chars_equal, chars_of, ends_with, ends_with_exec, is_blank, lines, lines_exec, lit, split,
    split_exec, split_once, split_once_exec, starts_with, string_of, string_range, strip_prefix,
    strip_prefix_exec, trim, trimmed, views, words, words_exec,
};

verus! {

/// Field separator requested from `git for-each-ref` via `%1f`; a control character, so branch
/// names, tag names and commit subjects can never collide with it.
pub const FIELD_SEPARATOR: char = '\u{1f}';

pub const FOR_EACH_REF_FORMAT: &'static str = "%(refname)%1f%(objectname)%1f%(*objectname)%1f%(creatordate:iso-strict)%1f%(upstream:short)%1f%(HEAD)";

pub const LOG_COMMIT_FORMAT: &'static str = "%H%x1f%h%x1f%cI%x1f%an%x1f%s";

#[derive(Debug, Clone, Copy, PartialEq, Eq, Structural)]
pub enum GitRefKind {
    LocalBranch,
    RemoteBranch,
    Tag,
}

#[derive(Debug, Clone)]
pub struct GitRef {
    pub name: String,
    pub full_name: String,
    pub kind: GitRefKind,
    pub commit: String,
    pub short_commit: String,
    pub created_at: Option<String>,
    pub remote: Option<String>,
    pub upstream: Option<String>,
    pub is_head: bool,
}

/// The content of a [`GitRef`].
pub ghost struct GitRefModel {
    pub name: Seq<char>,
    pub full_name: Seq<char>,
    pub kind: GitRefKind,
    pub commit: Seq<char>,
    pub short_commit: Seq<char>,
    pub created_at: Option<Seq<char>>,
    pub remote: Option<Seq<char>>,
    pub upstream: Option<Seq<char>>,
    pub is_head: bool,
}

impl View for GitRef {
    type V = GitRefModel;

    open spec fn view(&self) -> GitRefModel {
        GitRefModel {
            name: self.name@,
            full_name: self.full_name@,
            kind: self.kind,
            commit: self.commit@,
            short_commit: self.short_commit@,
            created_at: opt_text(self.created_at),
            remote: opt_text(self.remote),
            upstream: opt_text(self.upstream),
            is_head: self.is_head,
        }
    }
}

#[derive(Debug, Clone)]
pub struct CommitInfo {
    pub commit: String,
    pub short_commit: String,
    pub committed_at: String,
    pub author: String,
    pub subject: String,
}

/// How a user-supplied ref should be checked out.
#[derive(Debug, Clone, Copy, PartialEq, Eq, Structural)]
pub enum RefCheckout {
    /// A local branch: stays attached to HEAD.
    LocalBranch,
    /// A remote-only branch: creates a local tracking branch.
    TrackRemoteBranch,
    /// A tag or commit: HEAD becomes detached, intentionally.
    Detach,
}

/// The models of a sequence of refs.
pub open spec fn ref_models(v: Seq<GitRef>) -> Seq<GitRefModel> {
    Seq::new(v.len(), |i: int| v[i]@)
}

/// The present values of a sequence of options, in order.
pub open spec fn somes<T>(s: Seq<Option<T>>) -> Seq<T>
    decreases s.len(),
{
    if s.len() == 0 {
        Seq::empty()
    } else {
        match s.last() {
            Some(x) => somes(s.drop_last()).push(x),
            None => somes(s.drop_last()),
        }
    }
}

/// Field `i` of a split line, or the empty text when the line has fewer fields.
pub open spec fn field(fields: Seq<Seq<char>>, i: int) -> Seq<char> {
    if 0 <= i < fields.len() {
        fields[i]
    } else {
        Seq::empty()
    }
}

/// The first `n` characters of `s` (`chars().take(n)`).
pub open spec fn prefix(s: Seq<char>, n: int) -> Seq<char> {
    if s.len() <= n {
        s
    } else {
        s.take(n)
    }
}

/// Trimmed text, or nothing when it is blank.
pub open spec fn non_empty_text(value: Seq<char>) -> Option<Seq<char>> {
    if trim(value).len() == 0 {
        None
    } else {
        Some(trim(value))
    }
}

/// The ref namespace a full ref name belongs to, with the namespace removed.
pub open spec fn classify_spec(full_name: Seq<char>) -> Option<(GitRefKind, Seq<char>)> {
    if starts_with(full_name, "refs/heads/"@) {
        Some((GitRefKind::LocalBranch, full_name.skip("refs/heads/"@.len() as int)))
    } else if starts_with(full_name, "refs/remotes/"@) {
        Some((GitRefKind::RemoteBranch, full_name.skip("refs/remotes/"@.len() as int)))
    } else if starts_with(full_name, "refs/tags/"@) {
        Some((GitRefKind::Tag, full_name.skip("refs/tags/"@.len() as int)))
    } else {
        None
    }
}

/// What one line of `for-each-ref` output describes.
pub open spec fn ref_line_spec(line: Seq<char>) -> Option<GitRefModel> {
    if trim(line).len() == 0 {
        None
    } else {
        let fields = split(line, FIELD_SEPARATOR);
        let full_name = field(fields, 0);
        let object_name = field(fields, 1);
        let dereferenced = field(fields, 2);
        match classify_spec(full_name) {
            None => None,
            Some((kind, name)) => if kind == GitRefKind::RemoteBranch && ends_with(
                name,
                "/HEAD"@,
            ) {
                None
            } else {
                let commit = if dereferenced.len() == 0 {
                    object_name
                } else {
                    dereferenced
                };
                Some(
                    GitRefModel {
                        name,
                        full_name,
                        kind,
                        commit,
                        short_commit: prefix(commit, 7),
                        created_at: non_empty_text(field(fields, 3)),
                        remote: if kind == GitRefKind::RemoteBranch {
                            match split_once(name, '/') {
                                Some((remote, _)) => Some(remote),
                                None => None,
                            }
                        } else {
                            None
                        },
                        upstream: non_empty_text(field(fields, 4)),
                        is_head: trim(field(fields, 5)) == seq!['*'],
                    },
                )
            },
        }
    }
}

pub open spec fn refs_spec(output: Seq<char>) -> Seq<GitRefModel> {
    somes(lines(output).map_values(|line: Seq<char>| ref_line_spec(line)))
}

pub proof fn lemma_somes_push<T>(s: Seq<Option<T>>, o: Option<T>)
    ensures
        somes(s.push(o)) == match o {
            Some(x) => somes(s).push(x),
            None => somes(s),
        },
{
    assert(s.push(o).drop_last() =~= s);
}

/// Parses `git for-each-ref` output in [`FOR_EACH_REF_FORMAT`].
pub fn parse_refs(output: &str) -> (refs: Vec<GitRef>)
    ensures
        ref_models(refs@) == refs_spec(output@),
{
    let text = chars_of(output);
    let all = lines_exec(text.as_slice());
    let ghost mapped = views(all@).map_values(|line: Seq<char>| ref_line_spec(line));
    let mut refs: Vec<GitRef> = Vec::new();
    let mut i: usize = 0;
    while i < all.len()
        invariant
            i <= all@.len(),
            views(all@) == lines(output@),
            mapped == views(all@).map_values(|line: Seq<char>| ref_line_spec(line)),
            ref_models(refs@) == somes(mapped.take(i as int)),
        decreases all.len() - i,
    {
        let parsed = parse_ref_line(all[i].as_slice());
        proof {
            assert(mapped.take(i + 1) =~= mapped.take(i as int).push(mapped[i as int]));
            lemma_somes_push(mapped.take(i as int), mapped[i as int]);
        }
        match parsed {
            Some(reference) => {
                let ghost before = refs@;
                refs.push(reference);
                assert(ref_models(refs@) =~= ref_models(before).push(reference@));
            },
            None => {},
        }
        i += 1;
    }
    assert(mapped.take(all@.len() as int) =~= mapped);
    refs
}

fn classify(full_name: &[char]) -> (r: Option<(GitRefKind, Vec<char>)>)
    ensures
        match r {
            Some((kind, name)) => classify_spec(full_name@) == Some((kind, name@)),
            None => classify_spec(full_name@) is None,
        },
{
    if let Some(name) = strip_prefix_exec(full_name, lit("refs/heads/").as_slice()) {
        return Some((GitRefKind::LocalBranch, name));
    }
    if let Some(name) = strip_prefix_exec(full_name, lit("refs/remotes/").as_slice()) {
        return Some((GitRefKind::RemoteBranch, name));
    }
    if let Some(name) = strip_prefix_exec(full_name, lit("refs/tags/").as_slice()) {
        return Some((GitRefKind::Tag, name));
    }
    None
}

fn non_empty(value: &[char]) -> (r: Option<String>)
    ensures
        opt_text(r) == non_empty_text(value@),
{
    let trimmed_value = trimmed(value);
    if trimmed_value.len() == 0 {
        None
    } else {
        Some(string_of(trimmed_value.as_slice()))
    }
}

fn field_at(fields: &Vec<Vec<char>>, i: usize) -> (r: Vec<char>)
    ensures
        r@ == field(views(fields@), i as int),
{
    if i < fields.len() {
        fields[i].clone()
    } else {
        Vec::new()
    }
}

fn first_chars(s: &[char], n: usize) -> (r: String)
    ensures
        r@ == prefix(s@, n as int),
{
    if s.len() <= n {
        assert(s@.subrange(0, s@.len() as int) =~= s@);
        string_range(s, 0, s.len())
    } else {
        string_range(s, 0, n)
    }
}

fn parse_ref_line(line: &[char]) -> (r: Option<GitRef>)
    ensures
        match r {
            Some(reference) => ref_line_spec(line@) == Some(reference@),
            None => ref_line_spec(line@) is None,
        },
{
    if is_blank(line) {
        return None;
    }
    let fields = split_exec(line, FIELD_SEPARATOR);
    let full_name = field_at(&fields, 0);
    let object_name = field_at(&fields, 1);
    let dereferenced = field_at(&fields, 2);
    let created_at = field_at(&fields, 3);
    let upstream = field_at(&fields, 4);
    let head_marker = field_at(&fields, 5);

    let (kind, name) = match classify(full_name.as_slice()) {
        Some(found) => found,
        None => return None,
    };

    // `origin/HEAD` is a symbolic pointer at the remote default branch, not a branch itself.
    if kind == GitRefKind::RemoteBranch && ends_with_exec(name.as_slice(), lit("/HEAD").as_slice()) {
        return None;
    }

    // For annotated tags `objectname` is the tag object; the commit is the dereferenced object.
    let commit = if dereferenced.len() == 0 {
        object_name
    } else {
        dereferenced
    };

    let remote = match kind {
        GitRefKind::RemoteBranch => match split_once_exec(name.as_slice(), '/') {
            Some((remote, _)) => Some(string_of(remote.as_slice())),
            None => None,
        },
        GitRefKind::LocalBranch | GitRefKind::Tag => None,
    };

    let marker = trimmed(head_marker.as_slice());
    let is_head = marker.len() == 1 && marker[0] == '*';
    assert(is_head == (marker@ == seq!['*'])) by {
        if marker@.len() == 1 && marker@[0] == '*' {
            assert(marker@ =~= seq!['*']);
        }
    }

    Some(
        GitRef {
            short_commit: first_chars(commit.as_slice(), 7),
            commit: string_of(commit.as_slice()),
            created_at: non_empty(created_at.as_slice()),
            upstream: non_empty(upstream.as_slice()),
            is_head,
            remote,
            kind,
            name: string_of(name.as_slice()),
            full_name: string_of(full_name.as_slice()),
        },
    )
}

/// What `git log -1 --format=LOG_COMMIT_FORMAT` output describes: the first non-blank line.
pub open spec fn first_non_blank_from(ls: Seq<Seq<char>>, i: int) -> int
    decreases ls.len() - i,
{
    if i < 0 || i >= ls.len() {
        ls.len() as int
    } else if trim(ls[i]).len() != 0 {
        i
    } else {
        first_non_blank_from(ls, i + 1)
    }
}

pub ghost struct CommitModel {
    pub commit: Seq<char>,
    pub short_commit: Seq<char>,
    pub committed_at: Seq<char>,
    pub author: Seq<char>,
    pub subject: Seq<char>,
}

pub open spec fn commit_spec(output: Seq<char>) -> Option<CommitModel> {
    let ls = lines(output);
    let i = first_non_blank_from(ls, 0);
    if 0 <= i < ls.len() {
        let fields = split(ls[i], FIELD_SEPARATOR);
        Some(
            CommitModel {
                commit: field(fields, 0),
                short_commit: field(fields, 1),
                committed_at: field(fields, 2),
                author: field(fields, 3),
                subject: field(fields, 4),
            },
        )
    } else {
        None
    }
}

pub fn parse_commit(output: &str) -> (r: Option<CommitInfo>)
    ensures
        match r {
            Some(info) => commit_spec(output@) == Some(
                CommitModel {
                    commit: info.commit@,
                    short_commit: info.short_commit@,
                    committed_at: info.committed_at@,
                    author: info.author@,
                    subject: info.subject@,
                },
            ),
            None => commit_spec(output@) is None,
        },
{
    let text = chars_of(output);
    let all = lines_exec(text.as_slice());
    let mut i: usize = 0;
    while i < all.len()
        invariant
            i <= all@.len(),
            views(all@) == lines(output@),
            first_non_blank_from(views(all@), 0) == first_non_blank_from(views(all@), i as int),
        decreases all.len() - i,
    {
        if !is_blank(all[i].as_slice()) {
            let fields = split_exec(all[i].as_slice(), FIELD_SEPARATOR);
            return Some(
                CommitInfo {
                    commit: string_of(field_at(&fields, 0).as_slice()),
                    short_commit: string_of(field_at(&fields, 1).as_slice()),
                    committed_at: string_of(field_at(&fields, 2).as_slice()),
                    author: string_of(field_at(&fields, 3).as_slice()),
                    subject: string_of(field_at(&fields, 4).as_slice()),
                },
            );
        }
        i += 1;
    }
    None
}

/// The branch named by the first `ref: refs/heads/<branch> ...` line of
/// `git ls-remote --symref <url> HEAD`.
pub open spec fn symref_line(line: Seq<char>) -> Option<Seq<char>> {
    match strip_prefix(line, "ref: "@) {
        Some(rest) => if words(rest).len() > 0 {
            strip_prefix(words(rest)[0], "refs/heads/"@)
        } else {
            None
        },
        None => None,
    }
}

pub open spec fn symref_from(ls: Seq<Seq<char>>, i: int) -> Option<Seq<char>>
    decreases ls.len() - i,
{
    if i < 0 || i >= ls.len() {
        None
    } else {
        match symref_line(ls[i]) {
            Some(branch) => Some(branch),
            None => symref_from(ls, i + 1),
        }
    }
}

fn symref_line_exec(line: &[char]) -> (r: Option<Vec<char>>)
    ensures
        match r {
            Some(v) => symref_line(line@) == Some(v@),
            None => symref_line(line@) is None,
        },
{
    let rest = match strip_prefix_exec(line, lit("ref: ").as_slice()) {
        Some(rest) => rest,
        None => return None,
    };
    let tokens = words_exec(rest.as_slice());
    if tokens.len() == 0 {
        return None;
    }
    strip_prefix_exec(tokens[0].as_slice(), lit("refs/heads/").as_slice())
}

/// Reads the default branch out of `git ls-remote --symref <url> HEAD`.
pub fn parse_symref_default_branch(output: &str) -> (r: Option<String>)
    ensures
        opt_text(r) == symref_from(lines(output@), 0),
{
    let text = chars_of(output);
    let all = lines_exec(text.as_slice());
    let mut i: usize = 0;
    while i < all.len()
        invariant
            i <= all@.len(),
            views(all@) == lines(output@),
            symref_from(views(all@), 0) == symref_from(views(all@), i as int),
        decreases all.len() - i,
    {
        if let Some(branch) = symref_line_exec(all[i].as_slice()) {
            return Some(string_of(branch.as_slice()));
        }
        i += 1;
    }
    None
}

/// Reads the default branch out of `git symbolic-ref --short refs/remotes/<remote>/HEAD`.
pub fn parse_remote_head(output: &str, remote: &str) -> (r: Option<String>)
    ensures
        opt_text(r) == if trim(output@).len() == 0 {
            None
        } else {
            strip_prefix(trim(output@), remote@.push('/'))
        },
{
    let value = trimmed(chars_of(output).as_slice());
    if value.len() == 0 {
        return None;
    }
    let mut pattern = chars_of(remote);
    pattern.push('/');
    match strip_prefix_exec(value.as_slice(), pattern.as_slice()) {
        Some(branch) => Some(string_of(branch.as_slice())),
        None => None,
    }
}

/// How a chosen ref must be checked out given the refs the repository already has: an existing
/// local branch stays attached, a remote-only branch gets a tracking branch, anything else
/// (a tag or a commit) is checked out detached.
pub open spec fn plan_checkout_spec(target: Seq<char>, refs: Seq<GitRefModel>) -> RefCheckout {
    if exists|i: int|
        0 <= i < refs.len() && refs[i].kind == GitRefKind::LocalBranch && refs[i].name == target {
        RefCheckout::LocalBranch
    } else if exists|i: int|
        0 <= i < refs.len() && refs[i].kind == GitRefKind::RemoteBranch && refs[i].name
            == target {
        RefCheckout::TrackRemoteBranch
    } else {
        RefCheckout::Detach
    }
}

fn has_ref(target: &str, refs: &[GitRef], kind: GitRefKind) -> (r: bool)
    ensures
        r == exists|i: int|
            0 <= i < refs@.len() && refs@[i].kind == kind && refs@[i].name@ == target@,
{
    let wanted = chars_of(target);
    let mut i: usize = 0;
    while i < refs.len()
        invariant
            i <= refs@.len(),
            wanted@ == target@,
            forall|j: int|
                0 <= j < i ==> !(refs@[j].kind == kind && refs@[j].name@ == target@),
        decreases refs.len() - i,
    {
        if refs[i].kind == kind && chars_equal(
            chars_of(refs[i].name.as_str()).as_slice(),
            wanted.as_slice(),
        ) {
            return true;
        }
        i += 1;
    }
    false
}

/// Decides how a chosen ref must be checked out, given what the repository already contains.
pub fn plan_checkout(target: &str, refs: &[GitRef]) -> (r: RefCheckout)
    ensures
        r == plan_checkout_spec(target@, ref_models(refs@)),
{
    let ghost models = ref_models(refs@);
    let has_local_branch = has_ref(target, refs, GitRefKind::LocalBranch);
    if has_local_branch {
        proof {
            let i = choose|i: int|
                0 <= i < refs@.len() && refs@[i].kind == GitRefKind::LocalBranch && refs@[i].name@
                    == target@;
            assert(models[i] == refs@[i]@);
        }
        return RefCheckout::LocalBranch;
    }
    assert forall|i: int| 0 <= i < models.len() implies !(models[i].kind
        == GitRefKind::LocalBranch && models[i].name == target@) by {
        assert(models[i] == refs@[i]@);
    }
    let is_remote_branch = has_ref(target, refs, GitRefKind::RemoteBranch);
    if is_remote_branch {
        proof {
            let i = choose|i: int|
                0 <= i < refs@.len() && refs@[i].kind == GitRefKind::RemoteBranch
                    && refs@[i].name@ == target@;
            assert(models[i] == refs@[i]@);
        }
        return RefCheckout::TrackRemoteBranch;
    }
    assert forall|i: int| 0 <= i < models.len() implies !(models[i].kind
        == GitRefKind::RemoteBranch && models[i].name == target@) by {
        assert(models[i] == refs@[i]@);
    }
    RefCheckout::Detach
}

/// Local branch name implied by tracking a remote branch: everything after the first `/`,
/// when that is not empty.
pub fn local_branch_for_remote(remote_branch: &str) -> (r: Option<String>)
    ensures
        opt_text(r) == match split_once(remote_branch@, '/') {
            Some((_, branch)) => if branch.len() > 0 {
                Some(branch)
            } else {
                None
            },
            None => None,
        },
{
    match split_once_exec(chars_of(remote_branch).as_slice(), '/') {
        Some((_, branch)) => if branch.len() > 0 {
            Some(string_of(branch.as_slice()))
        } else {
            None
        },
        None => None,
    }
}

} // verus!
