//! Working-tree state derived from `git status --porcelain=v2 --branch`.
use vstd::prelude::*;

use crate::error::opt_text;
use crate::git::refs::prefix;
use crate::text::{
    chars_equal, chars_of, lemma_lines_from_len, lines, lines_exec, lit, parse_u32,
    parse_u32_exec, split_once, split_once_exec, starts_with, starts_with_exec, string_of,
    string_range, strip_prefix, strip_prefix_exec, views, words, words_exec,
};

verus! {

#[derive(Debug, Clone, PartialEq, Eq)]
pub struct GitStatus {
    pub commit: Option<String>,
    pub branch: Option<String>,
    pub detached: bool,
    pub upstream: Option<String>,
    pub ahead: u32,
    pub behind: u32,
    pub staged: u32,
    pub unstaged: u32,
    pub untracked: u32,
    pub conflicted: u32,
}

/// The content of a [`GitStatus`].
pub ghost struct StatusModel {
    pub commit: Option<Seq<char>>,
    pub branch: Option<Seq<char>>,
    pub detached: bool,
    pub upstream: Option<Seq<char>>,
    pub ahead: int,
    pub behind: int,
    pub staged: int,
    pub unstaged: int,
    pub untracked: int,
    pub conflicted: int,
}

impl View for GitStatus {
    type V = StatusModel;

    open spec fn view(&self) -> StatusModel {
        StatusModel {
            commit: opt_text(self.commit),
            branch: opt_text(self.branch),
            detached: self.detached,
            upstream: opt_text(self.upstream),
            ahead: self.ahead as int,
            behind: self.behind as int,
            staged: self.staged as int,
            unstaged: self.unstaged as int,
            untracked: self.untracked as int,
            conflicted: self.conflicted as int,
        }
    }
}

pub open spec fn clean_status() -> StatusModel {
    StatusModel {
        commit: None,
        branch: None,
        detached: false,
        upstream: None,
        ahead: 0,
        behind: 0,
        staged: 0,
        unstaged: 0,
        untracked: 0,
        conflicted: 0,
    }
}

impl Default for GitStatus {
    fn default() -> (s: Self)
        ensures
            s@ == clean_status(),
    {
        GitStatus {
            commit: None,
            branch: None,
            detached: false,
            upstream: None,
            ahead: 0,
            behind: 0,
            staged: 0,
            unstaged: 0,
            untracked: 0,
            conflicted: 0,
        }
    }
}

impl GitStatus {
    /// Modifications to files Git tracks. These block updates and ref switches.
    pub fn has_tracked_changes(&self) -> (r: bool)
        ensures
            r == (self.staged > 0 || self.unstaged > 0 || self.conflicted > 0),
    {
        self.staged > 0 || self.unstaged > 0 || self.conflicted > 0
    }

    /// Any local deviation at all, including untracked files.
    pub fn is_dirty(&self) -> (r: bool)
        ensures
            r == (self.staged > 0 || self.unstaged > 0 || self.conflicted > 0 || self.untracked
                > 0),
    {
        self.has_tracked_changes() || self.untracked > 0
    }

    pub fn short_commit(&self) -> (r: Option<String>)
        ensures
            opt_text(r) == match opt_text(self.commit) {
                Some(c) => Some(prefix(c, 7)),
                None => None,
            },
    {
        match &self.commit {
            Some(commit) => {
                let characters = chars_of(commit.as_str());
                if characters.len() <= 7 {
                    assert(characters@.subrange(0, characters@.len() as int) =~= characters@);
                    Some(string_range(characters.as_slice(), 0, characters.len()))
                } else {
                    Some(string_range(characters.as_slice(), 0, 7))
                }
            },
            None => None,
        }
    }
}

/// `(ahead, behind)` after reading the first `n` tokens of a `branch.ab` value: `+N` sets the
/// ahead count, `-N` the behind count, and anything unparsable is ignored.
pub open spec fn ahead_behind_upto(tokens: Seq<Seq<char>>, n: int) -> (int, int)
    decreases n,
{
    if n <= 0 || n > tokens.len() {
        (0, 0)
    } else {
        let (ahead, behind) = ahead_behind_upto(tokens, n - 1);
        let token = tokens[n - 1];
        if token.len() > 0 && token[0] == '+' && parse_u32(token.drop_first()) is Some {
            (parse_u32(token.drop_first())->0 as int, behind)
        } else if token.len() > 0 && token[0] == '-' && parse_u32(token.drop_first()) is Some {
            (ahead, parse_u32(token.drop_first())->0 as int)
        } else {
            (ahead, behind)
        }
    }
}

pub open spec fn ahead_behind(value: Seq<char>) -> (int, int) {
    ahead_behind_upto(words(value), words(value).len() as int)
}

/// The effect of one `# <key> <value>` header line.
pub open spec fn header_spec(st: StatusModel, header: Seq<char>) -> StatusModel {
    match split_once(header, ' ') {
        None => st,
        Some((key, value)) => if key == "branch.oid"@ && value != "(initial)"@ {
            StatusModel { commit: Some(value), ..st }
        } else if key == "branch.head"@ {
            if value == "(detached)"@ {
                StatusModel { detached: true, ..st }
            } else {
                StatusModel { branch: Some(value), ..st }
            }
        } else if key == "branch.upstream"@ {
            StatusModel { upstream: Some(value), ..st }
        } else if key == "branch.ab"@ {
            StatusModel { ahead: ahead_behind(value).0, behind: ahead_behind(value).1, ..st }
        } else {
            st
        },
    }
}

/// The effect of one ordinary or renamed entry: its `XY` code counts as staged when `X` is not
/// `.` and as unstaged when `Y` is not `.`.
pub open spec fn change_spec(st: StatusModel, entry: Seq<char>) -> StatusModel {
    if words(entry).len() == 0 {
        st
    } else {
        let codes = words(entry)[0];
        StatusModel {
            staged: if codes.len() > 0 && codes[0] != '.' {
                st.staged + 1
            } else {
                st.staged
            },
            unstaged: if codes.len() > 1 && codes[1] != '.' {
                st.unstaged + 1
            } else {
                st.unstaged
            },
            ..st
        }
    }
}

pub open spec fn status_line_spec(st: StatusModel, line: Seq<char>) -> StatusModel {
    match strip_prefix(line, "# "@) {
        Some(header) => header_spec(st, header),
        None => match strip_prefix(line, "1 "@) {
            Some(entry) => change_spec(st, entry),
            None => match strip_prefix(line, "2 "@) {
                Some(entry) => change_spec(st, entry),
                None => if starts_with(line, "u "@) {
                    StatusModel { conflicted: st.conflicted + 1, ..st }
                } else if starts_with(line, "? "@) {
                    StatusModel { untracked: st.untracked + 1, ..st }
                } else {
                    st
                },
            },
        },
    }
}

/// The status after the first `n` lines.
pub open spec fn status_upto(ls: Seq<Seq<char>>, n: int) -> StatusModel
    decreases n,
{
    if n <= 0 || n > ls.len() {
        clean_status()
    } else {
        status_line_spec(status_upto(ls, n - 1), ls[n - 1])
    }
}

pub open spec fn status_spec(output: Seq<char>) -> StatusModel {
    status_upto(lines(output), lines(output).len() as int)
}

/// Every count grows by at most one per line.
pub open spec fn counts_within(st: StatusModel, n: int) -> bool {
    &&& 0 <= st.staged <= n
    &&& 0 <= st.unstaged <= n
    &&& 0 <= st.untracked <= n
    &&& 0 <= st.conflicted <= n
    &&& 0 <= st.ahead <= u32::MAX
    &&& 0 <= st.behind <= u32::MAX
}

proof fn lemma_ahead_behind_bounds(tokens: Seq<Seq<char>>, n: int)
    ensures
        0 <= ahead_behind_upto(tokens, n).0 <= u32::MAX,
        0 <= ahead_behind_upto(tokens, n).1 <= u32::MAX,
    decreases n,
{
    if n > 0 && n <= tokens.len() {
        lemma_ahead_behind_bounds(tokens, n - 1);
    }
}

proof fn lemma_counts(ls: Seq<Seq<char>>, n: int)
    requires
        0 <= n <= ls.len(),
    ensures
        counts_within(status_upto(ls, n), n),
    decreases n,
{
    if n > 0 {
        lemma_counts(ls, n - 1);
        let line = ls[n - 1];
        match strip_prefix(line, "# "@) {
            Some(header) => match split_once(header, ' ') {
                Some((key, value)) => {
                    lemma_ahead_behind_bounds(words(value), words(value).len() as int);
                },
                None => {},
            },
            None => {},
        }
    }
}

fn parse_ahead_behind(value: &[char]) -> (r: (u32, u32))
    ensures
        r.0 as int == ahead_behind(value@).0,
        r.1 as int == ahead_behind(value@).1,
{
    let tokens = words_exec(value);
    let mut ahead: u32 = 0;
    let mut behind: u32 = 0;
    let mut i: usize = 0;
    while i < tokens.len()
        invariant
            i <= tokens@.len(),
            views(tokens@) == words(value@),
            (ahead as int, behind as int) == ahead_behind_upto(views(tokens@), i as int),
        decreases tokens.len() - i,
    {
        let token = &tokens[i];
        assert(views(tokens@)[i as int] == token@);
        if token.len() > 0 && (token[0] == '+' || token[0] == '-') {
            let digits = crate::text::copy_range(token.as_slice(), 1, token.len());
            assert(digits@ =~= token@.drop_first());
            match parse_u32_exec(digits.as_slice()) {
                Some(count) => {
                    if token[0] == '+' {
                        ahead = count;
                    } else {
                        behind = count;
                    }
                },
                None => {},
            }
        }
        i += 1;
    }
    (ahead, behind)
}

fn apply_header(status: &mut GitStatus, header: &[char])
    ensures
        final(status)@ == header_spec(old(status)@, header@),
{
    let (key, value) = match split_once_exec(header, ' ') {
        Some(parts) => parts,
        None => return ,
    };
    if chars_equal(key.as_slice(), lit("branch.oid").as_slice()) && !chars_equal(
        value.as_slice(),
        lit("(initial)").as_slice(),
    ) {
        status.commit = Some(string_of(value.as_slice()));
    } else if chars_equal(key.as_slice(), lit("branch.head").as_slice()) {
        if chars_equal(value.as_slice(), lit("(detached)").as_slice()) {
            status.detached = true;
        } else {
            status.branch = Some(string_of(value.as_slice()));
        }
    } else if chars_equal(key.as_slice(), lit("branch.upstream").as_slice()) {
        status.upstream = Some(string_of(value.as_slice()));
    } else if chars_equal(key.as_slice(), lit("branch.ab").as_slice()) {
        let (ahead, behind) = parse_ahead_behind(value.as_slice());
        status.ahead = ahead;
        status.behind = behind;
    }
}

/// Entry format: `<XY> <sub> <mH> <mI> <mW> <hH> <hI> <path>` where `X` is the staged state and
/// `Y` the unstaged state; `.` means unchanged in that position.
fn apply_change(status: &mut GitStatus, entry: &[char])
    requires
        old(status).staged < u32::MAX,
        old(status).unstaged < u32::MAX,
    ensures
        final(status)@ == change_spec(old(status)@, entry@),
{
    let tokens = words_exec(entry);
    if tokens.len() == 0 {
        return ;
    }
    let codes = &tokens[0];
    assert(views(tokens@)[0] == codes@);
    if codes.len() > 0 && codes[0] != '.' {
        status.staged += 1;
    }
    if codes.len() > 1 && codes[1] != '.' {
        status.unstaged += 1;
    }
}

pub fn parse_status(output: &str) -> (status: GitStatus)
    requires
        output@.len() < u32::MAX,
    ensures
        status@ == status_spec(output@),
{
    let text = chars_of(output);
    let all = lines_exec(text.as_slice());
    proof {
        lemma_lines_from_len(output@, 0);
    }
    let mut status = GitStatus::default();
    let mut i: usize = 0;
    while i < all.len()
        invariant
            i <= all@.len(),
            all@.len() < u32::MAX,
            views(all@) == lines(output@),
            status@ == status_upto(views(all@), i as int),
        decreases all.len() - i,
    {
        proof {
            lemma_counts(views(all@), i as int);
        }
        let line = all[i].as_slice();
        assert(views(all@)[i as int] == line@);
        if let Some(header) = strip_prefix_exec(line, lit("# ").as_slice()) {
            apply_header(&mut status, header.as_slice());
        } else if let Some(entry) = strip_prefix_exec(line, lit("1 ").as_slice()) {
            apply_change(&mut status, entry.as_slice());
        } else if let Some(entry) = strip_prefix_exec(line, lit("2 ").as_slice()) {
            apply_change(&mut status, entry.as_slice());
        } else if starts_with_exec(line, lit("u ").as_slice()) {
            status.conflicted += 1;
        } else if starts_with_exec(line, lit("? ").as_slice()) {
            status.untracked += 1;
        }
        i += 1;
    }
    status
}

/// A renamed or copied entry (`2 ...`) counts exactly like an ordinary entry (`1 ...`) with the
/// same text after its marker: it is staged when its `X` code is not `.`, and unstaged when its
/// `Y` code is not `.`; nothing else changes.
pub proof fn renamed_entries_count_like_ordinary_ones(st: StatusModel, entry: Seq<char>)
    ensures
        status_line_spec(st, "2 "@ + entry) == status_line_spec(st, "1 "@ + entry),
        ({
            let after = status_line_spec(st, "2 "@ + entry);
            let codes = words(entry)[0];
            &&& words(entry).len() > 0 && codes.len() > 0 && codes[0] != '.' ==> after.staged
                == st.staged + 1
            &&& words(entry).len() > 0 && codes.len() > 1 && codes[1] != '.' ==> after.unstaged
                == st.unstaged + 1
            &&& (words(entry).len() == 0 || codes.len() == 0 || codes[0] == '.') ==> after.staged
                == st.staged
            &&& (words(entry).len() == 0 || codes.len() <= 1 || codes[1] == '.') ==> after.unstaged
                == st.unstaged
            &&& after.commit == st.commit && after.branch == st.branch && after.upstream
                == st.upstream && after.detached == st.detached
            &&& after.untracked == st.untracked && after.conflicted == st.conflicted
        }),
{
    reveal_strlit("2 ");
    reveal_strlit("1 ");
    reveal_strlit("# ");
    let two = "2 "@ + entry;
    let one = "1 "@ + entry;
    assert(two[0] == '2' && one[0] == '1');
    assert(!starts_with(two, "# "@)) by {
        if starts_with(two, "# "@) {
            assert(two.take(2)[0] == two[0]);
        }
    }
    assert(!starts_with(one, "# "@)) by {
        if starts_with(one, "# "@) {
            assert(one.take(2)[0] == one[0]);
        }
    }
    assert(!starts_with(two, "1 "@)) by {
        if starts_with(two, "1 "@) {
            assert(two.take(2)[0] == two[0]);
        }
    }
    assert(two.take(2) =~= "2 "@);
    assert(one.take(2) =~= "1 "@);
    assert(two.skip(2) =~= entry);
    assert(one.skip(2) =~= entry);
    assert(strip_prefix(two, "2 "@) == Some(entry));
    assert(strip_prefix(one, "1 "@) == Some(entry));
}

} // verus!
