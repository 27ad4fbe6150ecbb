//! Parsing of `git remote -v` and display names for clone URLs.
use vstd::prelude::*;

use crate::error::opt_text;
use crate::text::{
    chars_equal, chars_of, concat3, lines, lines_exec, lit, non_empty_parts,
    non_empty_parts_exec, split, split_exec, split_once, split_once_exec, split_once_seq,
    split_once_seq_exec, string_of, strip_suffix, strip_suffix_exec, trim, trim_end_char,
    trim_end_char_exec, trimmed, views, words, words_exec,
};

verus! {

#[derive(Debug, Clone, PartialEq, Eq)]
pub struct GitRemote {
    pub name: String,
    pub fetch_url: Option<String>,
    pub push_url: Option<String>,
}

/// The content of a [`GitRemote`].
pub ghost struct RemoteModel {
    pub name: Seq<char>,
    pub fetch_url: Option<Seq<char>>,
    pub push_url: Option<Seq<char>>,
}

impl View for GitRemote {
    type V = RemoteModel;

    open spec fn view(&self) -> RemoteModel {
        RemoteModel {
            name: self.name@,
            fetch_url: opt_text(self.fetch_url),
            push_url: opt_text(self.push_url),
        }
    }
}

pub open spec fn remote_models(v: Seq<GitRemote>) -> Seq<RemoteModel> {
    Seq::new(v.len(), |i: int| v[i]@)
}

/// Position of the first remote called `name` at or after `i`, or `remotes.len()`.
pub open spec fn position_from(remotes: Seq<RemoteModel>, name: Seq<char>, i: int) -> int
    decreases remotes.len() - i,
{
    if i < 0 || i >= remotes.len() {
        remotes.len() as int
    } else if remotes[i].name == name {
        i
    } else {
        position_from(remotes, name, i + 1)
    }
}

/// The effect of one `name<TAB>url (direction)` line: remotes keep the order in which Git first
/// reported them, a `(push)` line sets the push URL and any other direction the fetch URL.
pub open spec fn remote_line_spec(remotes: Seq<RemoteModel>, line: Seq<char>) -> Seq<RemoteModel> {
    let fields = words(line);
    if fields.len() < 2 {
        remotes
    } else {
        let name = fields[0];
        let url = fields[1];
        let is_push = fields.len() > 2 && fields[2] == "(push)"@;
        let p = position_from(remotes, name, 0);
        let base = if p < remotes.len() {
            remotes
        } else {
            remotes.push(RemoteModel { name, fetch_url: None, push_url: None })
        };
        let entry = base[p];
        base.update(
            p,
            if is_push {
                RemoteModel { push_url: Some(url), ..entry }
            } else {
                RemoteModel { fetch_url: Some(url), ..entry }
            },
        )
    }
}

pub open spec fn remotes_upto(ls: Seq<Seq<char>>, n: int) -> Seq<RemoteModel>
    decreases n,
{
    if n <= 0 || n > ls.len() {
        Seq::empty()
    } else {
        remote_line_spec(remotes_upto(ls, n - 1), ls[n - 1])
    }
}

pub open spec fn remotes_spec(output: Seq<char>) -> Seq<RemoteModel> {
    remotes_upto(lines(output), lines(output).len() as int)
}

proof fn lemma_position_from(remotes: Seq<RemoteModel>, name: Seq<char>, i: int)
    requires
        0 <= i <= remotes.len(),
    ensures
        i <= position_from(remotes, name, i) <= remotes.len(),
        position_from(remotes, name, i) < remotes.len() ==> remotes[position_from(
            remotes,
            name,
            i,
        )].name == name,
    decreases remotes.len() - i,
{
    if i < remotes.len() && remotes[i].name != name {
        lemma_position_from(remotes, name, i + 1);
    }
}

fn find_remote(remotes: &Vec<GitRemote>, name: &[char]) -> (r: usize)
    ensures
        r as int == position_from(remote_models(remotes@), name@, 0),
        r <= remotes@.len(),
{
    let ghost models = remote_models(remotes@);
    let mut i: usize = 0;
    while i < remotes.len()
        invariant
            i <= remotes@.len(),
            models == remote_models(remotes@),
            position_from(models, name@, 0) == position_from(models, name@, i as int),
        decreases remotes.len() - i,
    {
        assert(models[i as int] == remotes@[i as int]@);
        if chars_equal(chars_of(remotes[i].name.as_str()).as_slice(), name) {
            return i;
        }
        i += 1;
    }
    i
}

fn clone_text(o: &Option<String>) -> (r: Option<String>)
    ensures
        opt_text(r) == opt_text(*o),
{
    match o {
        Some(s) => Some(s.clone()),
        None => None,
    }
}

/// Parses `git remote -v`, whose lines look like `origin<TAB><url> (fetch)`.
pub fn parse_remotes(output: &str) -> (remotes: Vec<GitRemote>)
    ensures
        remote_models(remotes@) == remotes_spec(output@),
{
    let text = chars_of(output);
    let all = lines_exec(text.as_slice());
    let mut remotes: Vec<GitRemote> = Vec::new();
    let mut i: usize = 0;
    while i < all.len()
        invariant
            i <= all@.len(),
            views(all@) == lines(output@),
            remote_models(remotes@) == remotes_upto(views(all@), i as int),
        decreases all.len() - i,
    {
        let line = all[i].as_slice();
        assert(views(all@)[i as int] == line@);
        let fields = words_exec(line);
        if fields.len() >= 2 {
            let name = &fields[0];
            let url = &fields[1];
            assert(views(fields@)[0] == name@);
            assert(views(fields@)[1] == url@);
            let is_push = fields.len() > 2 && chars_equal(fields[2].as_slice(), lit("(push)").as_slice());
            assert(fields@.len() > 2 ==> views(fields@)[2] == fields@[2]@);
            let ghost before = remote_models(remotes@);
            let p = find_remote(&remotes, name.as_slice());
            if p == remotes.len() {
                let ghost old_remotes = remotes@;
                remotes.push(GitRemote { name: string_of(name.as_slice()), fetch_url: None, push_url: None });
                assert(remote_models(remotes@) =~= before.push(
                    RemoteModel { name: name@, fetch_url: None, push_url: None },
                ));
            }
            let ghost base = remote_models(remotes@);
            assert(base[p as int] == remotes@[p as int]@);
            let updated = if is_push {
                GitRemote {
                    name: remotes[p].name.clone(),
                    fetch_url: clone_text(&remotes[p].fetch_url),
                    push_url: Some(string_of(url.as_slice())),
                }
            } else {
                GitRemote {
                    name: remotes[p].name.clone(),
                    fetch_url: Some(string_of(url.as_slice())),
                    push_url: clone_text(&remotes[p].push_url),
                }
            };
            remotes.set(p, updated);
            assert(remote_models(remotes@) =~= base.update(p as int, updated@));
        }
        i += 1;
    }
    remotes
}

/// Removes `user@` from the authority only, leaving any `@` inside the path untouched.
pub open spec fn strip_credentials_spec(value: Seq<char>) -> Seq<char> {
    match split_once(value, '/') {
        Some((authority, path)) => {
            let host = match split_once(authority, '@') {
                Some((_, host)) => host,
                None => authority,
            };
            host + seq!['/'] + path
        },
        None => match split_once(value, '@') {
            Some((_, host)) => host,
            None => value,
        },
    }
}

/// A display name such as `owner/repository` for a clone URL: the last two non-empty path
/// segments once a trailing `/`, a `.git` suffix, the scheme and any credentials are removed;
/// only scp-style URLs (no `://`) treat a `:` as a path separator.
pub open spec fn describe_spec(url: Seq<char>) -> Seq<char> {
    let trimmed_url = trim_end_char(trim(url), '/');
    let without_suffix = match strip_suffix(trimmed_url, ".git"@) {
        Some(rest) => rest,
        None => trimmed_url,
    };
    let path = match split_once_seq(without_suffix, "://"@) {
        Some((_, authority_and_path)) => strip_credentials_spec(authority_and_path),
        None => {
            let value = strip_credentials_spec(without_suffix);
            match split_once(value, ':') {
                Some((host, rest)) => host + seq!['/'] + rest,
                None => value,
            }
        },
    };
    let segments = non_empty_parts(split(path, '/'));
    if segments.len() >= 2 {
        segments[segments.len() - 2] + seq!['/'] + segments[segments.len() - 1]
    } else if segments.len() == 1 {
        segments[0]
    } else {
        without_suffix
    }
}

fn strip_credentials(value: &[char]) -> (r: Vec<char>)
    ensures
        r@ == strip_credentials_spec(value@),
{
    let slash = ['/'];
    match split_once_exec(value, '/') {
        Some((authority, path)) => {
            let host = match split_once_exec(authority.as_slice(), '@') {
                Some((_, host)) => host,
                None => authority,
            };
            concat3(host.as_slice(), &slash, path.as_slice())
        },
        None => match split_once_exec(value, '@') {
            Some((_, host)) => host,
            None => crate::text::copy_range(value, 0, value.len()),
        },
    }
}

/// Derives a display name such as `ggml-org/llama.cpp` from a clone URL.
pub fn describe_repository(url: &str) -> (r: String)
    ensures
        r@ == describe_spec(url@),
{
    let slash = ['/'];
    assert(slash@ =~= seq!['/']);
    let trimmed_url = trim_end_char_exec(trimmed(chars_of(url).as_slice()).as_slice(), '/');
    let without_suffix = match strip_suffix_exec(trimmed_url.as_slice(), lit(".git").as_slice()) {
        Some(rest) => rest,
        None => trimmed_url,
    };
    let path = match split_once_seq_exec(without_suffix.as_slice(), lit("://").as_slice()) {
        Some((_, authority_and_path)) => strip_credentials(authority_and_path.as_slice()),
        None => {
            let value = strip_credentials(without_suffix.as_slice());
            match split_once_exec(value.as_slice(), ':') {
                Some((host, rest)) => concat3(host.as_slice(), &slash, rest.as_slice()),
                None => value,
            }
        },
    };
    let segments = non_empty_parts_exec(&split_exec(path.as_slice(), '/'));
    let n = segments.len();
    if n >= 2 {
        assert(views(segments@)[n - 2] == segments@[n - 2]@);
        assert(views(segments@)[n - 1] == segments@[n - 1]@);
        string_of(concat3(segments[n - 2].as_slice(), &slash, segments[n - 1].as_slice()).as_slice())
    } else if n == 1 {
        assert(views(segments@)[0] == segments@[0]@);
        string_of(segments[0].as_slice())
    } else {
        string_of(without_suffix.as_slice())
    }
}

} // verus!
