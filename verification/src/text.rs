//! Character-level text handling shared by every parser in the crate.
//!
//! Text is modelled as `Seq<char>`. Executable helpers work on `&[char]` and are proved against
//! index-walking spec functions that state what the corresponding `str` operation yields.
use vstd::prelude::*;

verus! {

// ---------------------------------------------------------------------------------------------
// Character classes
// ---------------------------------------------------------------------------------------------

/// The Unicode `White_Space` property (PropList.txt), which `char::is_whitespace` and `str::trim`
/// use.
pub open spec fn is_ws(c: char) -> bool {
    let u: u32 = c as u32;
    u == 0x20 || (0x09 <= u && u <= 0x0D) || u == 0x85 || u == 0xA0 || u == 0x1680 || (0x2000
        <= u && u <= 0x200A) || u == 0x2028 || u == 0x2029 || u == 0x202F || u == 0x205F || u
        == 0x3000
}

/// `u8::is_ascii_whitespace`: space, tab, line feed, form feed and carriage return.
pub open spec fn is_ascii_ws(c: char) -> bool {
    c == ' ' || c == '\t' || c == '\n' || c == '\x0C' || c == '\r'
}

pub open spec fn is_digit(c: char) -> bool {
    '0' <= c && c <= '9'
}

pub open spec fn is_upper(c: char) -> bool {
    'A' <= c && c <= 'Z'
}

pub open spec fn is_lower(c: char) -> bool {
    'a' <= c && c <= 'z'
}

pub open spec fn is_alpha(c: char) -> bool {
    is_upper(c) || is_lower(c)
}

pub open spec fn is_alnum(c: char) -> bool {
    is_alpha(c) || is_digit(c)
}

pub open spec fn is_hex(c: char) -> bool {
    is_digit(c) || ('a' <= c && c <= 'f') || ('A' <= c && c <= 'F')
}

/// `char::is_control`: the general category `Cc`.
pub open spec fn is_control(c: char) -> bool {
    let u: u32 = c as u32;
    u <= 0x1F || (0x7F <= u && u <= 0x9F)
}

pub open spec fn lower_char(c: char) -> char {
    if is_upper(c) {
        ((c as u32) + 32) as char
    } else {
        c
    }
}

pub open spec fn ascii_lower(s: Seq<char>) -> Seq<char> {
    Seq::new(s.len(), |i: int| lower_char(s[i]))
}

pub fn is_whitespace(c: char) -> (b: bool)
    ensures
        b == is_ws(c),
{
    let u: u32 = c as u32;
    u == 0x20 || (0x09 <= u && u <= 0x0D) || u == 0x85 || u == 0xA0 || u == 0x1680 || (0x2000
        <= u && u <= 0x200A) || u == 0x2028 || u == 0x2029 || u == 0x202F || u == 0x205F || u
        == 0x3000
}

pub fn is_ascii_whitespace(c: char) -> (b: bool)
    ensures
        b == is_ascii_ws(c),
{
    c == ' ' || c == '\t' || c == '\n' || c == '\x0C' || c == '\r'
}

pub fn is_ascii_digit(c: char) -> (b: bool)
    ensures
        b == is_digit(c),
{
    '0' <= c && c <= '9'
}

pub fn is_ascii_alphabetic(c: char) -> (b: bool)
    ensures
        b == is_alpha(c),
{
    ('A' <= c && c <= 'Z') || ('a' <= c && c <= 'z')
}

pub fn is_ascii_alphanumeric(c: char) -> (b: bool)
    ensures
        b == is_alnum(c),
{
    ('A' <= c && c <= 'Z') || ('a' <= c && c <= 'z') || ('0' <= c && c <= '9')
}

pub fn is_ascii_hexdigit(c: char) -> (b: bool)
    ensures
        b == is_hex(c),
{
    ('0' <= c && c <= '9') || ('a' <= c && c <= 'f') || ('A' <= c && c <= 'F')
}

pub fn is_control_char(c: char) -> (b: bool)
    ensures
        b == is_control(c),
{
    let u: u32 = c as u32;
    u <= 0x1F || (0x7F <= u && u <= 0x9F)
}

pub fn to_lower_char(c: char) -> (r: char)
    ensures
        r == lower_char(c),
{
    if 'A' <= c && c <= 'Z' {
        let u: u32 = (c as u32) + 32;
        assert(u <= 0x7F);
        (u as u8) as char
    } else {
        c
    }
}

// ---------------------------------------------------------------------------------------------
// Conversions between `str`/`String` and character vectors
// ---------------------------------------------------------------------------------------------

pub fn chars_of(s: &str) -> (v: Vec<char>)
    ensures
        v@ == s@,
{
    broadcast use vstd::string::group_string_axioms;

    let mut v: Vec<char> = Vec::new();
    for c in it: s.chars()
        invariant
            v@ == it.seq().take(it.index() as int),
            it.seq() == s@,
    {
        v.push(c);
    }
    v
}

/// Collects characters into a `String` (`FromIterator<char>` for `String`).
#[verifier::external_body]
pub(crate) fn string_of(v: &[char]) -> (s: String)
    ensures
        s@ == v@,
{
    v.iter().collect()
}

pub fn copy_range(s: &[char], from: usize, to: usize) -> (r: Vec<char>)
    requires
        from <= to <= s@.len(),
    ensures
        r@ == s@.subrange(from as int, to as int),
{
    let mut r: Vec<char> = Vec::new();
    let mut i: usize = from;
    while i < to
        invariant
            from <= i <= to <= s@.len(),
            r@ == s@.subrange(from as int, i as int),
        decreases to - i,
    {
        r.push(s[i]);
        i += 1;
    }
    r
}

pub fn string_range(s: &[char], from: usize, to: usize) -> (r: String)
    requires
        from <= to <= s@.len(),
    ensures
        r@ == s@.subrange(from as int, to as int),
{
    let v = copy_range(s, from, to);
    string_of(v.as_slice())
}

pub fn chars_equal(a: &[char], b: &[char]) -> (r: bool)
    ensures
        r == (a@ == b@),
{
    if a.len() != b.len() {
        return false;
    }
    let mut i: usize = 0;
    while i < a.len()
        invariant
            a@.len() == b@.len(),
            0 <= i <= a@.len(),
            forall|j: int| 0 <= j < i ==> a@[j] == b@[j],
        decreases a.len() - i,
    {
        if a[i] != b[i] {
            return false;
        }
        i += 1;
    }
    assert(a@ =~= b@);
    true
}

pub fn lower_all(s: &[char]) -> (r: Vec<char>)
    ensures
        r@ == ascii_lower(s@),
{
    let mut r: Vec<char> = Vec::new();
    let mut i: usize = 0;
    while i < s.len()
        invariant
            0 <= i <= s@.len(),
            r@ == ascii_lower(s@.take(i as int)),
        decreases s.len() - i,
    {
        r.push(to_lower_char(s[i]));
        i += 1;
        assert(r@ =~= ascii_lower(s@.take(i as int)));
    }
    assert(s@.take(s@.len() as int) =~= s@);
    r
}

// ---------------------------------------------------------------------------------------------
// Trimming
// ---------------------------------------------------------------------------------------------

/// Index of the first non-whitespace character at or after `i`.
pub open spec fn skip_ws(s: Seq<char>, i: int) -> int
    decreases s.len() - i,
{
    if i >= s.len() {
        s.len() as int
    } else if is_ws(s[i]) {
        skip_ws(s, i + 1)
    } else {
        i
    }
}

/// Index just past the last non-whitespace character before `j`.
pub open spec fn skip_ws_back(s: Seq<char>, j: int) -> int
    decreases j,
{
    if j <= 0 {
        0
    } else if is_ws(s[j - 1]) {
        skip_ws_back(s, j - 1)
    } else {
        j
    }
}

/// `str::trim_start`.
pub open spec fn trim_start(s: Seq<char>) -> Seq<char> {
    s.subrange(skip_ws(s, 0), s.len() as int)
}

/// `str::trim_end`.
pub open spec fn trim_end(s: Seq<char>) -> Seq<char> {
    s.subrange(0, skip_ws_back(s, s.len() as int))
}

/// `str::trim`.
pub open spec fn trim(s: Seq<char>) -> Seq<char> {
    trim_end(trim_start(s))
}

pub proof fn lemma_skip_ws_bounds(s: Seq<char>, i: int)
    requires
        0 <= i <= s.len(),
    ensures
        i <= skip_ws(s, i) <= s.len(),
        forall|k: int| i <= k < skip_ws(s, i) ==> is_ws(s[k]),
        skip_ws(s, i) < s.len() ==> !is_ws(s[skip_ws(s, i)]),
    decreases s.len() - i,
{
    if i < s.len() && is_ws(s[i]) {
        lemma_skip_ws_bounds(s, i + 1);
    }
}

pub proof fn lemma_skip_ws_back_bounds(s: Seq<char>, j: int)
    requires
        0 <= j <= s.len(),
    ensures
        0 <= skip_ws_back(s, j) <= j,
        forall|k: int| skip_ws_back(s, j) <= k < j ==> is_ws(s[k]),
        skip_ws_back(s, j) > 0 ==> !is_ws(s[skip_ws_back(s, j) - 1]),
    decreases j,
{
    if j > 0 && is_ws(s[j - 1]) {
        lemma_skip_ws_back_bounds(s, j - 1);
    }
}

pub proof fn lemma_trim_empty(s: Seq<char>)
    ensures
        (trim(s).len() == 0) == (forall|k: int| 0 <= k < s.len() ==> is_ws(s[k])),
{
    lemma_skip_ws_bounds(s, 0);
    let t = trim_start(s);
    lemma_skip_ws_back_bounds(t, t.len() as int);
    if trim(s).len() == 0 {
        assert forall|k: int| 0 <= k < s.len() implies is_ws(s[k]) by {
            if k >= skip_ws(s, 0) {
                assert(t[k - skip_ws(s, 0)] == s[k]);
            }
        }
    } else {
        if skip_ws(s, 0) >= s.len() {
            assert(t.len() == 0);
        }
    }
}

pub fn skip_ws_from(s: &[char], start: usize) -> (r: usize)
    requires
        start <= s@.len(),
    ensures
        r == skip_ws(s@, start as int),
        start <= r <= s@.len(),
{
    let mut i: usize = start;
    while i < s.len() && is_whitespace(s[i])
        invariant
            start <= i <= s@.len(),
            skip_ws(s@, start as int) == skip_ws(s@, i as int),
        decreases s.len() - i,
    {
        i += 1;
    }
    i
}

pub fn skip_ws_back_from(s: &[char], end: usize) -> (r: usize)
    requires
        end <= s@.len(),
    ensures
        r == skip_ws_back(s@, end as int),
        r <= end,
{
    let mut j: usize = end;
    while j > 0 && is_whitespace(s[j - 1])
        invariant
            j <= end <= s@.len(),
            skip_ws_back(s@, end as int) == skip_ws_back(s@, j as int),
        decreases j,
    {
        j -= 1;
    }
    j
}

/// Bounds of `trim(s)` inside `s`.
pub fn trim_bounds(s: &[char]) -> (r: (usize, usize))
    ensures
        r.0 <= r.1 <= s@.len(),
        s@.subrange(r.0 as int, r.1 as int) == trim(s@),
{
    let a = skip_ws_from(s, 0);
    let j = skip_ws_back_from(s, s.len());
    proof {
        lemma_skip_ws_bounds(s@, 0);
        lemma_skip_ws_back_bounds(s@, s@.len() as int);
        lemma_trim_via_bounds(s@);
    }
    if j < a {
        (a, a)
    } else {
        (a, j)
    }
}

pub proof fn lemma_trim_via_bounds(s: Seq<char>)
    ensures
        ({
            let a = skip_ws(s, 0);
            let j = skip_ws_back(s, s.len() as int);
            trim(s) == if j < a {
                s.subrange(a, a)
            } else {
                s.subrange(a, j)
            }
        }),
{
    let a = skip_ws(s, 0);
    let j = skip_ws_back(s, s.len() as int);
    lemma_skip_ws_bounds(s, 0);
    lemma_skip_ws_back_bounds(s, s.len() as int);
    let t = s.subrange(a, s.len() as int);
    lemma_skip_ws_back_bounds(t, t.len() as int);
    let jt = skip_ws_back(t, t.len() as int);
    // Whitespace at the end of `t` is whitespace at the end of `s`, and vice versa.
    assert forall|k: int| a + jt <= k < s.len() implies is_ws(s[k]) by {
        assert(t[k - a] == s[k]);
    }
    if j < a {
        // Everything is whitespace.
        assert forall|k: int| 0 <= k < t.len() implies is_ws(t[k]) by {
            assert(t[k] == s[k + a]);
            if k + a < j {
                assert(false);
            }
        }
        if jt > 0 {
            assert(t[jt - 1] == s[jt - 1 + a]);
        }
        assert(trim(s) =~= s.subrange(a, a));
    } else {
        if a + jt < j {
            assert(is_ws(s[j - 1]));
            assert(false);
        }
        if a + jt > j {
            assert(t[jt - 1] == s[a + jt - 1]);
            assert(false);
        }
        assert(trim(s) =~= s.subrange(a, j));
    }
}

pub fn trimmed(s: &[char]) -> (r: Vec<char>)
    ensures
        r@ == trim(s@),
{
    let (a, b) = trim_bounds(s);
    copy_range(s, a, b)
}

pub fn is_blank(s: &[char]) -> (r: bool)
    ensures
        r == (trim(s@).len() == 0),
        r == (forall|k: int| 0 <= k < s@.len() ==> is_ws(s@[k])),
{
    let (a, b) = trim_bounds(s);
    proof {
        lemma_trim_empty(s@);
    }
    a == b
}

pub fn trim_start_vec(s: &[char]) -> (r: Vec<char>)
    ensures
        r@ == trim_start(s@),
{
    let a = skip_ws_from(s, 0);
    copy_range(s, a, s.len())
}

pub fn trim_end_vec(s: &[char]) -> (r: Vec<char>)
    ensures
        r@ == trim_end(s@),
{
    let j = skip_ws_back_from(s, s.len());
    copy_range(s, 0, j)
}

// ---------------------------------------------------------------------------------------------
// Searching
// ---------------------------------------------------------------------------------------------

/// Index of the first `c` at or after `i`, or `s.len()` when there is none.
pub open spec fn find_char(s: Seq<char>, c: char, i: int) -> int
    decreases s.len() - i,
{
    if i >= s.len() {
        s.len() as int
    } else if s[i] == c {
        i
    } else {
        find_char(s, c, i + 1)
    }
}

/// Index of the last `c` before `j`, or `-1` when there is none.
pub open spec fn rfind_char(s: Seq<char>, c: char, j: int) -> int
    decreases j,
{
    if j <= 0 {
        -1
    } else if s[j - 1] == c {
        j - 1
    } else {
        rfind_char(s, c, j - 1)
    }
}

pub proof fn lemma_find_char(s: Seq<char>, c: char, i: int)
    requires
        0 <= i <= s.len(),
    ensures
        i <= find_char(s, c, i) <= s.len(),
        forall|k: int| i <= k < find_char(s, c, i) ==> s[k] != c,
        find_char(s, c, i) < s.len() ==> s[find_char(s, c, i)] == c,
    decreases s.len() - i,
{
    if i < s.len() && s[i] != c {
        lemma_find_char(s, c, i + 1);
    }
}

pub proof fn lemma_rfind_char(s: Seq<char>, c: char, j: int)
    requires
        0 <= j <= s.len(),
    ensures
        -1 <= rfind_char(s, c, j) < j,
        forall|k: int| rfind_char(s, c, j) < k < j ==> s[k] != c,
        rfind_char(s, c, j) >= 0 ==> s[rfind_char(s, c, j)] == c,
    decreases j,
{
    if j > 0 && s[j - 1] != c {
        lemma_rfind_char(s, c, j - 1);
    }
}

pub fn find_char_from(s: &[char], c: char, start: usize) -> (r: usize)
    requires
        start <= s@.len(),
    ensures
        r == find_char(s@, c, start as int),
        start <= r <= s@.len(),
{
    let mut i: usize = start;
    while i < s.len()
        invariant
            start <= i <= s@.len(),
            find_char(s@, c, start as int) == find_char(s@, c, i as int),
        decreases s.len() - i,
    {
        if s[i] == c {
            return i;
        }
        i += 1;
    }
    i
}

/// Returns `None` when there is no `c` before `end`.
pub fn rfind_char_before(s: &[char], c: char, end: usize) -> (r: Option<usize>)
    requires
        end <= s@.len(),
    ensures
        match r {
            Some(k) => k < end && k as int == rfind_char(s@, c, end as int),
            None => rfind_char(s@, c, end as int) == -1,
        },
{
    let mut j: usize = end;
    while j > 0
        invariant
            j <= end <= s@.len(),
            rfind_char(s@, c, end as int) == rfind_char(s@, c, j as int),
        decreases j,
    {
        if s[j - 1] == c {
            return Some(j - 1);
        }
        j -= 1;
    }
    None
}

/// `p` occurs in `s` starting at `i`.
pub open spec fn occurs_at(s: Seq<char>, p: Seq<char>, i: int) -> bool {
    0 <= i && i + p.len() <= s.len() && s.subrange(i, i + p.len()) == p
}

/// `str::contains` for a string pattern.
pub open spec fn contains(s: Seq<char>, p: Seq<char>) -> bool {
    exists|i: int| occurs_at(s, p, i)
}

/// Index of the first occurrence of `p` at or after `i`, or `-1`.
pub open spec fn find_seq(s: Seq<char>, p: Seq<char>, i: int) -> int
    decreases s.len() + 1 - i,
{
    if i < 0 || i + p.len() > s.len() {
        -1
    } else if s.subrange(i, i + p.len()) == p {
        i
    } else {
        find_seq(s, p, i + 1)
    }
}

pub proof fn lemma_find_seq(s: Seq<char>, p: Seq<char>, i: int)
    requires
        0 <= i,
    ensures
        find_seq(s, p, i) == -1 || (i <= find_seq(s, p, i) && occurs_at(s, p, find_seq(s, p, i))),
        forall|k: int|
            i <= k && (find_seq(s, p, i) == -1 || k < find_seq(s, p, i)) ==> !occurs_at(s, p, k),
    decreases s.len() + 1 - i,
{
    if i + p.len() <= s.len() && s.subrange(i, i + p.len()) != p {
        lemma_find_seq(s, p, i + 1);
    }
}

pub proof fn lemma_contains_find(s: Seq<char>, p: Seq<char>)
    ensures
        contains(s, p) == (find_seq(s, p, 0) >= 0),
{
    lemma_find_seq(s, p, 0);
}

pub fn occurs_at_exec(s: &[char], p: &[char], i: usize) -> (r: bool)
    ensures
        r == occurs_at(s@, p@, i as int),
{
    if i > s.len() || p.len() > s.len() - i {
        return false;
    }
    let mut k: usize = 0;
    while k < p.len()
        invariant
            i + p@.len() <= s@.len(),
            s@.len() <= usize::MAX,
            0 <= k <= p@.len(),
            forall|m: int| 0 <= m < k ==> s@[i + m] == p@[m],
        decreases p.len() - k,
    {
        assert(i + k < s@.len());
        let idx: usize = i + k;
        if s[idx] != p[k] {
            assert(s@.subrange(i as int, i + p@.len())[k as int] != p@[k as int]);
            return false;
        }
        k += 1;
    }
    assert(s@.subrange(i as int, i + p@.len()) =~= p@);
    true
}

/// First occurrence of `p` at or after `start`.
pub fn find_seq_from(s: &[char], p: &[char], start: usize) -> (r: Option<usize>)
    ensures
        match r {
            Some(k) => k as int == find_seq(s@, p@, start as int),
            None => find_seq(s@, p@, start as int) == -1,
        },
{
    if start > s.len() {
        return None;
    }
    let mut i: usize = start;
    while i <= s.len()
        invariant
            start <= i <= s@.len() + 1,
            find_seq(s@, p@, start as int) == find_seq(s@, p@, i as int),
        decreases s.len() + 1 - i,
    {
        if p.len() > s.len() - i {
            return None;
        }
        if occurs_at_exec(s, p, i) {
            return Some(i);
        }
        if i == s.len() {
            assert(find_seq(s@, p@, i + 1) == -1);
            return None;
        }
        i += 1;
    }
    None
}

pub fn contains_exec(s: &[char], p: &[char]) -> (r: bool)
    ensures
        r == contains(s@, p@),
{
    proof {
        lemma_contains_find(s@, p@);
    }
    match find_seq_from(s, p, 0) {
        Some(_) => {
            proof {
                lemma_find_seq(s@, p@, 0);
            }
            true
        },
        None => false,
    }
}

/// `str::starts_with` for a string pattern.
pub open spec fn starts_with(s: Seq<char>, p: Seq<char>) -> bool {
    p.len() <= s.len() && s.take(p.len() as int) == p
}

/// `str::ends_with` for a string pattern.
pub open spec fn ends_with(s: Seq<char>, p: Seq<char>) -> bool {
    p.len() <= s.len() && s.skip(s.len() - p.len()) == p
}

/// `str::strip_prefix` for a string pattern.
pub open spec fn strip_prefix(s: Seq<char>, p: Seq<char>) -> Option<Seq<char>> {
    if starts_with(s, p) {
        Some(s.skip(p.len() as int))
    } else {
        None
    }
}

/// `str::strip_suffix` for a string pattern.
pub open spec fn strip_suffix(s: Seq<char>, p: Seq<char>) -> Option<Seq<char>> {
    if ends_with(s, p) {
        Some(s.take(s.len() - p.len()))
    } else {
        None
    }
}

pub fn starts_with_exec(s: &[char], p: &[char]) -> (r: bool)
    ensures
        r == starts_with(s@, p@),
{
    let r = occurs_at_exec(s, p, 0);
    assert(s@.subrange(0, p@.len() as int) =~= s@.take(p@.len() as int));
    r
}

pub fn ends_with_exec(s: &[char], p: &[char]) -> (r: bool)
    ensures
        r == ends_with(s@, p@),
{
    if p.len() > s.len() {
        return false;
    }
    let r = occurs_at_exec(s, p, s.len() - p.len());
    assert(s@.subrange(s@.len() - p@.len(), s@.len() as int) =~= s@.skip(s@.len() - p@.len()));
    r
}

/// `strip_prefix` that yields the remainder as a character vector.
pub fn strip_prefix_exec(s: &[char], p: &[char]) -> (r: Option<Vec<char>>)
    ensures
        match r {
            Some(v) => strip_prefix(s@, p@) == Some(v@),
            None => strip_prefix(s@, p@) is None,
        },
{
    if starts_with_exec(s, p) {
        let v = copy_range(s, p.len(), s.len());
        assert(v@ =~= s@.skip(p@.len() as int));
        Some(v)
    } else {
        None
    }
}

pub fn strip_suffix_exec(s: &[char], p: &[char]) -> (r: Option<Vec<char>>)
    ensures
        match r {
            Some(v) => strip_suffix(s@, p@) == Some(v@),
            None => strip_suffix(s@, p@) is None,
        },
{
    if ends_with_exec(s, p) {
        let v = copy_range(s, 0, s.len() - p.len());
        assert(v@ =~= s@.take(s@.len() - p@.len()));
        Some(v)
    } else {
        None
    }
}

/// The texts held by a vector of character vectors.
pub open spec fn views(v: Seq<Vec<char>>) -> Seq<Seq<char>> {
    Seq::new(v.len(), |i: int| v[i]@)
}

pub proof fn lemma_views_push(v: Seq<Vec<char>>, x: Vec<char>)
    ensures
        views(v.push(x)) == views(v).push(x@),
{
    assert(views(v.push(x)) =~= views(v).push(x@));
}

// ---------------------------------------------------------------------------------------------
// Splitting
// ---------------------------------------------------------------------------------------------

/// `str::split_once` on a character.
pub open spec fn split_once(s: Seq<char>, c: char) -> Option<(Seq<char>, Seq<char>)> {
    let i = find_char(s, c, 0);
    if i < s.len() {
        Some((s.take(i), s.skip(i + 1)))
    } else {
        None
    }
}

/// `str::rsplit_once` on a character.
pub open spec fn rsplit_once(s: Seq<char>, c: char) -> Option<(Seq<char>, Seq<char>)> {
    let i = rfind_char(s, c, s.len() as int);
    if i >= 0 {
        Some((s.take(i), s.skip(i + 1)))
    } else {
        None
    }
}

/// `str::split_once` on a string pattern.
pub open spec fn split_once_seq(s: Seq<char>, p: Seq<char>) -> Option<(Seq<char>, Seq<char>)> {
    let i = find_seq(s, p, 0);
    if i >= 0 {
        Some((s.take(i), s.skip(i + p.len())))
    } else {
        None
    }
}

pub fn split_once_exec(s: &[char], c: char) -> (r: Option<(Vec<char>, Vec<char>)>)
    ensures
        match r {
            Some((a, b)) => split_once(s@, c) == Some((a@, b@)),
            None => split_once(s@, c) is None,
        },
{
    let i = find_char_from(s, c, 0);
    if i < s.len() {
        let a = copy_range(s, 0, i);
        let b = copy_range(s, i + 1, s.len());
        assert(a@ =~= s@.take(i as int));
        assert(b@ =~= s@.skip(i + 1));
        Some((a, b))
    } else {
        None
    }
}

pub fn rsplit_once_exec(s: &[char], c: char) -> (r: Option<(Vec<char>, Vec<char>)>)
    ensures
        match r {
            Some((a, b)) => rsplit_once(s@, c) == Some((a@, b@)),
            None => rsplit_once(s@, c) is None,
        },
{
    match rfind_char_before(s, c, s.len()) {
        Some(i) => {
            let a = copy_range(s, 0, i);
            let b = copy_range(s, i + 1, s.len());
            assert(a@ =~= s@.take(i as int));
            assert(b@ =~= s@.skip(i + 1));
            Some((a, b))
        },
        None => None,
    }
}

pub fn split_once_seq_exec(s: &[char], p: &[char]) -> (r: Option<(Vec<char>, Vec<char>)>)
    ensures
        match r {
            Some((a, b)) => split_once_seq(s@, p@) == Some((a@, b@)),
            None => split_once_seq(s@, p@) is None,
        },
{
    s.len();
    match find_seq_from(s, p, 0) {
        Some(i) => {
            proof {
                lemma_find_seq(s@, p@, 0);
            }
            assert(occurs_at(s@, p@, i as int));
            assert(i + p@.len() <= s@.len());
            let after: usize = i + p.len();
            let a = copy_range(s, 0, i);
            let b = copy_range(s, after, s.len());
            assert(a@ =~= s@.take(i as int));
            assert(b@ =~= s@.skip(i + p@.len()));
            Some((a, b))
        },
        None => None,
    }
}

/// Start of the last occurrence of `p` that starts at or before `j`, or `-1`.
pub open spec fn rfind_seq(s: Seq<char>, p: Seq<char>, j: int) -> int
    decreases j + 1,
{
    if j < 0 {
        -1
    } else if occurs_at(s, p, j) {
        j
    } else {
        rfind_seq(s, p, j - 1)
    }
}

/// `str::rsplit_once` on a string pattern.
pub open spec fn rsplit_once_seq(s: Seq<char>, p: Seq<char>) -> Option<(Seq<char>, Seq<char>)> {
    let i = rfind_seq(s, p, s.len() - p.len());
    if i >= 0 {
        Some((s.take(i), s.skip(i + p.len())))
    } else {
        None
    }
}

pub fn rsplit_once_seq_exec(s: &[char], p: &[char]) -> (r: Option<(Vec<char>, Vec<char>)>)
    ensures
        match r {
            Some((a, b)) => rsplit_once_seq(s@, p@) == Some((a@, b@)),
            None => rsplit_once_seq(s@, p@) is None,
        },
{
    if p.len() > s.len() {
        assert(rfind_seq(s@, p@, s@.len() - p@.len()) == -1);
        return None;
    }
    let mut j: usize = s.len() - p.len();
    loop
        invariant
            p@.len() <= s@.len(),
            s@.len() <= usize::MAX,
            j <= s@.len() - p@.len(),
            rfind_seq(s@, p@, s@.len() - p@.len()) == rfind_seq(s@, p@, j as int),
        decreases j,
    {
        if occurs_at_exec(s, p, j) {
            let after: usize = j + p.len();
            let a = copy_range(s, 0, j);
            let b = copy_range(s, after, s.len());
            assert(a@ =~= s@.take(j as int));
            assert(b@ =~= s@.skip(j + p@.len()));
            return Some((a, b));
        }
        if j == 0 {
            assert(rfind_seq(s@, p@, -1) == -1);
            return None;
        }
        j -= 1;
    }
}

/// Pieces of `s` from `start` on, separated by `c` (`str::split` on a character).
pub open spec fn split_from(s: Seq<char>, c: char, start: int) -> Seq<Seq<char>>
    decreases s.len() - start,
{
    if start < 0 || start > s.len() {
        Seq::empty()
    } else {
        let e = find_char(s, c, start);
        if e < s.len() && e >= start {
            seq![s.subrange(start, e)] + split_from(s, c, e + 1)
        } else {
            seq![s.subrange(start, s.len() as int)]
        }
    }
}

/// Splitting always yields at least one piece.
pub proof fn lemma_split_nonempty(s: Seq<char>, c: char)
    ensures
        split(s, c).len() >= 1,
{
    let e = find_char(s, c, 0);
    if e < s.len() && e >= 0 {
        assert(split_from(s, c, 0) == seq![s.subrange(0, e)] + split_from(s, c, e + 1));
    }
}

proof fn lemma_split_from_piece_len(s: Seq<char>, c: char, start: int)
    ensures
        forall|k: int|
            0 <= k < split_from(s, c, start).len() ==> #[trigger] split_from(s, c, start)[k].len()
                <= s.len(),
    decreases s.len() - start,
{
    if start < 0 || start > s.len() {
    } else {
        lemma_find_char(s, c, start);
        let e = find_char(s, c, start);
        if e < s.len() && e >= start {
            lemma_split_from_piece_len(s, c, e + 1);
            let rest = split_from(s, c, e + 1);
            let all = seq![s.subrange(start, e)] + rest;
            assert forall|k: int| 0 <= k < all.len() implies #[trigger] all[k].len() <= s.len() by {
                if k > 0 {
                    assert(all[k] == rest[k - 1]);
                }
            }
        }
    }
}

/// No piece of a split is longer than the text.
pub proof fn lemma_split_piece_len(s: Seq<char>, c: char, k: int)
    requires
        0 <= k < split(s, c).len(),
    ensures
        split(s, c)[k].len() <= s.len(),
{
    lemma_split_from_piece_len(s, c, 0);
}

/// `str::split` on a character.
pub open spec fn split(s: Seq<char>, c: char) -> Seq<Seq<char>> {
    split_from(s, c, 0)
}

pub fn split_exec(s: &[char], c: char) -> (r: Vec<Vec<char>>)
    ensures
        views(r@) == split(s@, c),
{
    let mut out: Vec<Vec<char>> = Vec::new();
    let mut start: usize = 0;
    loop
        invariant
            start <= s@.len(),
            split(s@, c) == views(out@) + split_from(s@, c, start as int),
        decreases s.len() - start,
    {
        let e = find_char_from(s, c, start);
        let piece = copy_range(s, start, e);
        let ghost before = out@;
        out.push(piece);
        proof { lemma_views_push(before, piece); }
        if e < s.len() {
            assert(split(s@, c) =~= views(out@) + split_from(s@, c, e + 1));
            start = e + 1;
        } else {
            assert(split(s@, c) =~= views(out@));
            return out;
        }
    }
}

/// Lines of `s` from `start` on: `str::lines`, which splits at `\n`, drops one `\r` that
/// directly precedes it, and yields no empty final line.
pub open spec fn lines_from(s: Seq<char>, start: int) -> Seq<Seq<char>>
    decreases s.len() - start,
{
    if start < 0 || start >= s.len() {
        Seq::empty()
    } else {
        let e = find_char(s, '\n', start);
        if e < s.len() && e >= start {
            let line = s.subrange(start, e);
            let stripped = if line.len() > 0 && line.last() == '\r' {
                line.drop_last()
            } else {
                line
            };
            seq![stripped] + lines_from(s, e + 1)
        } else {
            seq![s.subrange(start, s.len() as int)]
        }
    }
}

/// `str::lines`.
pub open spec fn lines(s: Seq<char>) -> Seq<Seq<char>> {
    lines_from(s, 0)
}

pub fn lines_exec(s: &[char]) -> (r: Vec<Vec<char>>)
    ensures
        views(r@) == lines(s@),
{
    let mut out: Vec<Vec<char>> = Vec::new();
    let mut start: usize = 0;
    while start < s.len()
        invariant
            start <= s@.len(),
            lines(s@) == views(out@) + lines_from(s@, start as int),
        decreases s.len() - start,
    {
        let e = find_char_from(s, '\n', start);
        let ghost before = out@;
        if e < s.len() {
            let end = if e > start && s[e - 1] == '\r' {
                e - 1
            } else {
                e
            };
            let piece = copy_range(s, start, end);
            let ghost line = s@.subrange(start as int, e as int);
            assert(piece@ =~= (if line.len() > 0 && line.last() == '\r' {
                line.drop_last()
            } else {
                line
            }));
            out.push(piece);
            proof { lemma_views_push(before, piece); }
            assert(lines(s@) =~= views(out@) + lines_from(s@, e + 1));
            start = e + 1;
        } else {
            let piece = copy_range(s, start, s.len());
            out.push(piece);
            proof { lemma_views_push(before, piece); }
            assert(lines(s@) =~= views(out@));
            return out;
        }
    }
    assert(lines(s@) =~= views(out@));
    out
}


pub proof fn lemma_lines_from_len(s: Seq<char>, start: int)
    requires
        0 <= start,
    ensures
        lines_from(s, start).len() <= if start < s.len() {
            s.len() - start
        } else {
            0
        },
    decreases s.len() - start,
{
    if start < s.len() {
        let e = find_char(s, '\n', start);
        lemma_find_char(s, '\n', start);
        if e < s.len() {
            lemma_lines_from_len(s, e + 1);
        }
    }
}

/// `str::trim_end_matches` for a single character.
pub open spec fn trim_end_char(s: Seq<char>, c: char) -> Seq<char>
    decreases s.len(),
{
    if s.len() > 0 && s.last() == c {
        trim_end_char(s.drop_last(), c)
    } else {
        s
    }
}

/// `str::trim_start_matches` for a single character.
pub open spec fn trim_start_char(s: Seq<char>, c: char) -> Seq<char>
    decreases s.len(),
{
    if s.len() > 0 && s[0] == c {
        trim_start_char(s.drop_first(), c)
    } else {
        s
    }
}

pub fn trim_end_char_exec(s: &[char], c: char) -> (r: Vec<char>)
    ensures
        r@ == trim_end_char(s@, c),
{
    let mut j: usize = s.len();
    assert(s@.take(j as int) =~= s@);
    while j > 0 && s[j - 1] == c
        invariant
            j <= s@.len(),
            trim_end_char(s@, c) == trim_end_char(s@.take(j as int), c),
        decreases j,
    {
        assert(s@.take(j as int).drop_last() =~= s@.take(j - 1));
        j -= 1;
    }
    assert(s@.take(s@.len() as int) =~= s@);
    let r = copy_range(s, 0, j);
    assert(r@ =~= s@.take(j as int));
    r
}

pub fn trim_start_char_exec(s: &[char], c: char) -> (r: Vec<char>)
    ensures
        r@ == trim_start_char(s@, c),
{
    let mut i: usize = 0;
    assert(s@.skip(0) =~= s@);
    while i < s.len() && s[i] == c
        invariant
            i <= s@.len(),
            trim_start_char(s@, c) == trim_start_char(s@.skip(i as int), c),
        decreases s.len() - i,
    {
        assert(s@.skip(i as int).drop_first() =~= s@.skip(i + 1));
        i += 1;
    }
    assert(s@.skip(0) =~= s@);
    let r = copy_range(s, i, s.len());
    assert(r@ =~= s@.skip(i as int));
    r
}

/// The non-empty texts among `ps`, in order.
pub open spec fn non_empty_parts(ps: Seq<Seq<char>>) -> Seq<Seq<char>>
    decreases ps.len(),
{
    if ps.len() == 0 {
        Seq::empty()
    } else if ps.last().len() > 0 {
        non_empty_parts(ps.drop_last()).push(ps.last())
    } else {
        non_empty_parts(ps.drop_last())
    }
}

pub fn non_empty_parts_exec(ps: &Vec<Vec<char>>) -> (r: Vec<Vec<char>>)
    ensures
        views(r@) == non_empty_parts(views(ps@)),
{
    let mut out: Vec<Vec<char>> = Vec::new();
    let mut i: usize = 0;
    while i < ps.len()
        invariant
            i <= ps@.len(),
            views(out@) == non_empty_parts(views(ps@).take(i as int)),
        decreases ps.len() - i,
    {
        assert(views(ps@).take(i + 1).drop_last() =~= views(ps@).take(i as int));
        if ps[i].len() > 0 {
            let ghost before = out@;
            out.push(ps[i].clone());
            proof {
                lemma_views_push(before, ps@[i as int]);
            }
        }
        i += 1;
    }
    assert(views(ps@).take(ps@.len() as int) =~= views(ps@));
    out
}

/// Concatenates character vectors.
pub fn concat3(a: &[char], b: &[char], c: &[char]) -> (r: Vec<char>)
    ensures
        r@ == a@ + b@ + c@,
{
    let mut r = copy_range(a, 0, a.len());
    let mut i: usize = 0;
    while i < b.len()
        invariant
            i <= b@.len(),
            r@ == a@ + b@.take(i as int),
        decreases b.len() - i,
    {
        r.push(b[i]);
        i += 1;
        assert(r@ =~= a@ + b@.take(i as int));
    }
    let mut k: usize = 0;
    while k < c.len()
        invariant
            k <= c@.len(),
            r@ == a@ + b@ + c@.take(k as int),
        decreases c.len() - k,
    {
        r.push(c[k]);
        k += 1;
        assert(r@ =~= a@ + b@ + c@.take(k as int));
    }
    assert(a@.subrange(0, a@.len() as int) =~= a@);
    assert(b@.take(b@.len() as int) =~= b@);
    assert(c@.take(c@.len() as int) =~= c@);
    r
}


/// `parts.join(sep)` for a one-character separator.
pub open spec fn join(parts: Seq<Seq<char>>, sep: char) -> Seq<char>
    decreases parts.len(),
{
    if parts.len() == 0 {
        Seq::empty()
    } else if parts.len() == 1 {
        parts[0]
    } else {
        join(parts.drop_last(), sep) + seq![sep] + parts.last()
    }
}

pub fn append_chars(out: &mut Vec<char>, tail: &[char])
    ensures
        final(out)@ == old(out)@ + tail@,
{
    let ghost head = out@;
    let mut i: usize = 0;
    while i < tail.len()
        invariant
            i <= tail@.len(),
            out@ == head + tail@.take(i as int),
        decreases tail.len() - i,
    {
        out.push(tail[i]);
        i += 1;
        assert(out@ =~= head + tail@.take(i as int));
    }
    assert(tail@.take(tail@.len() as int) =~= tail@);
}

pub fn join_exec(parts: &Vec<Vec<char>>, sep: char) -> (r: Vec<char>)
    ensures
        r@ == join(views(parts@), sep),
{
    let mut out: Vec<char> = Vec::new();
    let mut i: usize = 0;
    while i < parts.len()
        invariant
            i <= parts@.len(),
            out@ == join(views(parts@).take(i as int), sep),
        decreases parts.len() - i,
    {
        let ghost taken = views(parts@).take(i + 1);
        assert(taken.drop_last() =~= views(parts@).take(i as int));
        assert(taken.last() == parts@[i as int]@);
        if i > 0 {
            out.push(sep);
        } else {
            assert(taken.len() == 1);
        }
        append_chars(&mut out, parts[i].as_slice());
        i += 1;
        assert(out@ =~= join(views(parts@).take(i as int), sep));
    }
    assert(views(parts@).take(parts@.len() as int) =~= views(parts@));
    out
}


/// Bytes `c` takes in UTF-8.
pub open spec fn utf8_width(c: char) -> int {
    let u = c as u32;
    if u < 0x80 {
        1
    } else if u < 0x800 {
        2
    } else if u < 0x10000 {
        3
    } else {
        4
    }
}

/// Bytes `s` takes in UTF-8 (`str::len`).
pub open spec fn utf8_len(s: Seq<char>) -> int
    decreases s.len(),
{
    if s.len() == 0 {
        0
    } else {
        utf8_len(s.drop_last()) + utf8_width(s.last())
    }
}

pub proof fn lemma_utf8_len_bounds(s: Seq<char>)
    ensures
        s.len() <= utf8_len(s) <= 4 * s.len(),
    decreases s.len(),
{
    if s.len() > 0 {
        lemma_utf8_len_bounds(s.drop_last());
    }
}

/// UTF-8 length of `s[from..to]`, saturated at `limit + 1`: enough to compare it with `limit`.
pub fn utf8_len_upto(s: &[char], from: usize, to: usize, limit: usize) -> (r: usize)
    requires
        from <= to <= s@.len(),
        limit < usize::MAX - 4,
    ensures
        r <= limit ==> r == utf8_len(s@.subrange(from as int, to as int)),
        r > limit ==> utf8_len(s@.subrange(from as int, to as int)) > limit,
{
    let mut total: usize = 0;
    let mut i: usize = from;
    while i < to
        invariant
            from <= i <= to <= s@.len(),
            limit < usize::MAX - 4,
            total <= limit ==> total == utf8_len(s@.subrange(from as int, i as int)),
            total > limit ==> utf8_len(s@.subrange(from as int, i as int)) > limit,
            total <= limit + 4,
        decreases to - i,
    {
        let u = s[i] as u32;
        let width: usize = if u < 0x80 {
            1
        } else if u < 0x800 {
            2
        } else if u < 0x10000 {
            3
        } else {
            4
        };
        let ghost before = s@.subrange(from as int, i as int);
        assert(s@.subrange(from as int, i + 1).drop_last() =~= before);
        proof {
            lemma_utf8_len_bounds(before);
        }
        if total <= limit {
            total = total + width;
        }
        i += 1;
    }
    total
}

/// Removes leading ASCII non-alphanumeric characters.
pub open spec fn drop_non_alnum_front(s: Seq<char>) -> Seq<char>
    decreases s.len(),
{
    if s.len() > 0 && !is_alnum(s[0]) {
        drop_non_alnum_front(s.drop_first())
    } else {
        s
    }
}

/// Removes trailing ASCII non-alphanumeric characters.
pub open spec fn drop_non_alnum_back(s: Seq<char>) -> Seq<char>
    decreases s.len(),
{
    if s.len() > 0 && !is_alnum(s.last()) {
        drop_non_alnum_back(s.drop_last())
    } else {
        s
    }
}

/// `trim_matches(|c: char| !c.is_ascii_alphanumeric())`.
pub open spec fn trim_non_alnum(s: Seq<char>) -> Seq<char> {
    drop_non_alnum_back(drop_non_alnum_front(s))
}

pub fn trim_non_alnum_exec(s: &[char]) -> (r: Vec<char>)
    ensures
        r@ == trim_non_alnum(s@),
{
    let mut i: usize = 0;
    assert(s@.skip(0) =~= s@);
    while i < s.len() && !is_ascii_alphanumeric(s[i])
        invariant
            i <= s@.len(),
            drop_non_alnum_front(s@) == drop_non_alnum_front(s@.skip(i as int)),
        decreases s.len() - i,
    {
        assert(s@.skip(i as int).drop_first() =~= s@.skip(i + 1));
        i += 1;
    }
    let front = copy_range(s, i, s.len());
    assert(front@ =~= s@.skip(i as int));
    let mut j: usize = front.len();
    assert(front@.take(j as int) =~= front@);
    while j > 0 && !is_ascii_alphanumeric(front[j - 1])
        invariant
            j <= front@.len(),
            drop_non_alnum_back(front@) == drop_non_alnum_back(front@.take(j as int)),
        decreases j,
    {
        assert(front@.take(j as int).drop_last() =~= front@.take(j - 1));
        j -= 1;
    }
    let r = copy_range(front.as_slice(), 0, j);
    assert(r@ =~= front@.take(j as int));
    r
}

/// `str::trim_start_matches` for a non-empty string pattern.
pub open spec fn trim_start_seq(s: Seq<char>, p: Seq<char>) -> Seq<char>
    decreases s.len(),
{
    if p.len() > 0 && starts_with(s, p) {
        trim_start_seq(s.skip(p.len() as int), p)
    } else {
        s
    }
}

pub fn trim_start_seq_exec(s: &[char], p: &[char]) -> (r: Vec<char>)
    ensures
        r@ == trim_start_seq(s@, p@),
{
    let mut rest = copy_range(s, 0, s.len());
    assert(rest@ =~= s@);
    if p.len() == 0 {
        return rest;
    }
    loop
        invariant
            p@.len() > 0,
            trim_start_seq(s@, p@) == trim_start_seq(rest@, p@),
        decreases rest@.len(),
    {
        match strip_prefix_exec(rest.as_slice(), p) {
            Some(next) => {
                rest = next;
            },
            None => {
                return rest;
            },
        }
    }
}

/// Index of the first whitespace character at or after `i`.
pub open spec fn find_ws(s: Seq<char>, i: int) -> int
    decreases s.len() - i,
{
    if i >= s.len() {
        s.len() as int
    } else if is_ws(s[i]) {
        i
    } else {
        find_ws(s, i + 1)
    }
}

pub proof fn lemma_find_ws(s: Seq<char>, i: int)
    requires
        0 <= i <= s.len(),
    ensures
        i <= find_ws(s, i) <= s.len(),
        forall|k: int| i <= k < find_ws(s, i) ==> !is_ws(s[k]),
        find_ws(s, i) < s.len() ==> is_ws(s[find_ws(s, i)]),
    decreases s.len() - i,
{
    if i < s.len() && !is_ws(s[i]) {
        lemma_find_ws(s, i + 1);
    }
}

/// Words of `s` from `i` on (`str::split_whitespace`).
pub open spec fn words_from(s: Seq<char>, i: int) -> Seq<Seq<char>>
    decreases s.len() - i,
{
    if i < 0 || i >= s.len() {
        Seq::empty()
    } else {
        let j = skip_ws(s, i);
        if j >= s.len() || j < i {
            Seq::empty()
        } else {
            let k = find_ws(s, j);
            if k > j && k <= s.len() {
                seq![s.subrange(j, k)] + words_from(s, k)
            } else {
                Seq::empty()
            }
        }
    }
}

/// `str::split_whitespace`.
pub open spec fn words(s: Seq<char>) -> Seq<Seq<char>> {
    words_from(s, 0)
}

pub fn find_ws_from(s: &[char], start: usize) -> (r: usize)
    requires
        start <= s@.len(),
    ensures
        r == find_ws(s@, start as int),
        start <= r <= s@.len(),
{
    let mut i: usize = start;
    while i < s.len() && !is_whitespace(s[i])
        invariant
            start <= i <= s@.len(),
            find_ws(s@, start as int) == find_ws(s@, i as int),
        decreases s.len() - i,
    {
        i += 1;
    }
    i
}

pub fn words_exec(s: &[char]) -> (r: Vec<Vec<char>>)
    ensures
        views(r@) == words(s@),
{
    let mut out: Vec<Vec<char>> = Vec::new();
    let mut i: usize = 0;
    while i < s.len()
        invariant
            i <= s@.len(),
            words(s@) == views(out@) + words_from(s@, i as int),
        decreases s.len() - i,
    {
        let j = skip_ws_from(s, i);
        if j >= s.len() {
            assert(words(s@) =~= views(out@));
            return out;
        }
        let k = find_ws_from(s, j);
        proof {
            lemma_skip_ws_bounds(s@, i as int);
            lemma_find_ws(s@, j as int);
        }
        let piece = copy_range(s, j, k);
        let ghost before = out@;
        out.push(piece);
        proof { lemma_views_push(before, piece); }
        assert(words(s@) =~= views(out@) + words_from(s@, k as int));
        i = k;
    }
    assert(words(s@) =~= views(out@));
    out
}

/// The first word of `s`, if any (`split_whitespace().next()`).
pub open spec fn first_word(s: Seq<char>) -> Option<Seq<char>> {
    if words(s).len() > 0 {
        Some(words(s)[0])
    } else {
        None
    }
}

// ---------------------------------------------------------------------------------------------
// Numbers
// ---------------------------------------------------------------------------------------------

pub open spec fn digit_value(c: char) -> int {
    (c as u32) - ('0' as u32)
}

pub open spec fn all_digits(s: Seq<char>) -> bool {
    forall|k: int| 0 <= k < s.len() ==> is_digit(s[k])
}

/// Decimal value of a sequence of digits.
pub open spec fn decimal(s: Seq<char>) -> int
    decreases s.len(),
{
    if s.len() == 0 {
        0
    } else {
        decimal(s.drop_last()) * 10 + digit_value(s.last())
    }
}

/// The value `str::parse` gives for an unsigned integer type, before the range check: an
/// optional `+` followed by at least one ASCII digit.
pub open spec fn parse_unsigned(s: Seq<char>) -> Option<int> {
    let d = if s.len() > 0 && s[0] == '+' {
        s.drop_first()
    } else {
        s
    };
    if d.len() > 0 && all_digits(d) {
        Some(decimal(d))
    } else {
        None
    }
}

/// `str::parse::<u32>`.
pub open spec fn parse_u32(s: Seq<char>) -> Option<u32> {
    match parse_unsigned(s) {
        Some(v) => if v <= u32::MAX {
            Some(v as u32)
        } else {
            None
        },
        None => None,
    }
}

/// `str::parse::<u64>`.
pub open spec fn parse_u64(s: Seq<char>) -> Option<u64> {
    match parse_unsigned(s) {
        Some(v) => if v <= u64::MAX {
            Some(v as u64)
        } else {
            None
        },
        None => None,
    }
}

pub proof fn lemma_decimal_nonneg(s: Seq<char>)
    requires
        all_digits(s),
    ensures
        decimal(s) >= 0,
    decreases s.len(),
{
    if s.len() > 0 {
        lemma_decimal_nonneg(s.drop_last());
    }
}

pub proof fn lemma_decimal_prefix_le(s: Seq<char>, k: int)
    requires
        all_digits(s),
        0 <= k <= s.len(),
    ensures
        decimal(s.take(k)) <= decimal(s),
    decreases s.len(),
{
    if k < s.len() {
        assert(s.drop_last().take(k) =~= s.take(k));
        lemma_decimal_prefix_le(s.drop_last(), k);
        lemma_decimal_nonneg(s.drop_last());
    } else {
        assert(s.take(k) =~= s);
    }
}

/// Parses digits `s[from..]` as an unsigned number no greater than `max`.
pub fn parse_digits(s: &[char], from: usize, max: u64) -> (r: Option<u64>)
    requires
        from <= s@.len(),
    ensures
        ({
            let d = s@.skip(from as int);
            match r {
                Some(v) => d.len() > 0 && all_digits(d) && decimal(d) == v && v <= max,
                None => !(d.len() > 0 && all_digits(d) && decimal(d) <= max),
            }
        }),
{
    let ghost d = s@.skip(from as int);
    if from >= s.len() {
        return None;
    }
    let mut value: u64 = 0;
    let mut i: usize = from;
    while i < s.len()
        invariant
            from <= i <= s@.len(),
            d == s@.skip(from as int),
            all_digits(d.take(i - from)),
            value == decimal(d.take(i - from)),
            value <= max,
        decreases s.len() - i,
    {
        let c = s[i];
        if !is_ascii_digit(c) {
            assert(!is_digit(d[i - from]));
            return None;
        }
        let digit = (c as u32 - '0' as u32) as u64;
        assert(d.take(i - from + 1).drop_last() =~= d.take(i - from));
        if digit > max || value > (max - digit) / 10 {
            proof {
                assert(value * 10 + digit > max) by (nonlinear_arith)
                    requires
                        digit > max || value > (max - digit) / 10,
                        value >= 0,
                ;
                if all_digits(d) {
                    lemma_decimal_prefix_le(d, i - from + 1);
                }
            }
            return None;
        }
        proof {
            assert(value * 10 + digit <= max) by (nonlinear_arith)
                requires
                    value <= (max - digit) / 10,
                    digit <= max,
            ;
        }
        value = value * 10 + digit;
        i += 1;
    }
    assert(d.take(i - from) =~= d);
    Some(value)
}

pub fn parse_u64_exec(s: &[char]) -> (r: Option<u64>)
    ensures
        r == parse_u64(s@),
{
    let from: usize = if s.len() > 0 && s[0] == '+' {
        1
    } else {
        0
    };
    let ghost d = if s@.len() > 0 && s@[0] == '+' {
        s@.drop_first()
    } else {
        s@
    };
    assert(d =~= s@.skip(from as int));
    proof {
        if d.len() > 0 && all_digits(d) {
            lemma_decimal_nonneg(d);
        }
    }
    parse_digits(s, from, u64::MAX)
}

pub fn parse_u32_exec(s: &[char]) -> (r: Option<u32>)
    ensures
        r == parse_u32(s@),
{
    let from: usize = if s.len() > 0 && s[0] == '+' {
        1
    } else {
        0
    };
    let ghost d = if s@.len() > 0 && s@[0] == '+' {
        s@.drop_first()
    } else {
        s@
    };
    assert(d =~= s@.skip(from as int));
    proof {
        if d.len() > 0 && all_digits(d) {
            lemma_decimal_nonneg(d);
        }
    }
    match parse_digits(s, from, u32::MAX as u64) {
        Some(v) => Some(v as u32),
        None => None,
    }
}


/// The decimal digit character for `d < 10`.
pub open spec fn digit_char(d: int) -> char {
    ((d + 48) as u8) as char
}

/// Decimal rendering of a natural number (`u64::to_string`).
pub open spec fn decimal_text(n: nat) -> Seq<char>
    decreases n,
{
    if n < 10 {
        seq![digit_char(n as int)]
    } else {
        decimal_text(n / 10).push(digit_char((n % 10) as int))
    }
}

/// Decimal rendering of an integer (`i32::to_string` and friends).
pub open spec fn signed_text(v: int) -> Seq<char> {
    if v < 0 {
        seq!['-'] + decimal_text((-v) as nat)
    } else {
        decimal_text(v as nat)
    }
}

pub fn push_decimal(out: &mut Vec<char>, n: u64)
    ensures
        final(out)@ == old(out)@ + decimal_text(n as nat),
    decreases n,
{
    if n >= 10 {
        push_decimal(out, n / 10);
    }
    let d = (n % 10) as u8;
    out.push((d + 48) as char);
    proof {
        if n < 10 {
            assert(old(out)@ + decimal_text(n as nat) =~= old(out)@.push(digit_char(n as int)));
        } else {
            assert(old(out)@ + decimal_text(n as nat) =~= (old(out)@ + decimal_text(
                (n / 10) as nat,
            )).push(digit_char((n % 10) as int)));
        }
    }
}

pub fn decimal_string(n: u64) -> (r: String)
    ensures
        r@ == decimal_text(n as nat),
{
    let mut v: Vec<char> = Vec::new();
    push_decimal(&mut v, n);
    assert(v@ =~= decimal_text(n as nat));
    string_of(v.as_slice())
}

pub fn push_signed(out: &mut Vec<char>, v: i64)
    ensures
        final(out)@ == old(out)@ + signed_text(v as int),
{
    if v < 0 {
        out.push('-');
        let magnitude: u64 = if v == i64::MIN {
            9223372036854775808u64
        } else {
            (-v) as u64
        };
        push_decimal(out, magnitude);
        assert(final(out)@ =~= old(out)@ + signed_text(v as int));
    } else {
        push_decimal(out, v as u64);
    }
}

/// `str::to_lowercase`: the Unicode lowercase mapping of every character.
pub uninterp spec fn unicode_lowercase(s: Seq<char>) -> Seq<char>;

/// Calls `str::to_lowercase`; the result is named, as it depends on the characters alone.
#[verifier::external_body]
pub(crate) fn to_lowercase(s: &str) -> (r: String)
    ensures
        r@ == unicode_lowercase(s@),
{
    s.to_lowercase()
}

/// `char::to_uppercase`: the Unicode uppercase mapping of one character, which may be several.
pub uninterp spec fn char_uppercase(c: char) -> Seq<char>;

/// Calls `char::to_uppercase`; the result is named, as it depends on the character alone.
#[verifier::external_body]
pub(crate) fn uppercase_of(c: char) -> (r: String)
    ensures
        r@ == char_uppercase(c),
{
    c.to_uppercase().collect()
}

// ---------------------------------------------------------------------------------------------
// Literals
// ---------------------------------------------------------------------------------------------

/// Whether `text` contains any of `patterns`.
pub fn contains_any(text: &[char], patterns: &[&str]) -> (r: bool)
    ensures
        r == exists|i: int| 0 <= i < patterns@.len() && contains(text@, patterns@[i]@),
{
    let mut i: usize = 0;
    while i < patterns.len()
        invariant
            i <= patterns@.len(),
            forall|j: int| 0 <= j < i ==> !contains(text@, patterns@[j]@),
        decreases patterns.len() - i,
    {
        if contains_exec(text, lit(patterns[i]).as_slice()) {
            return true;
        }
        i += 1;
    }
    false
}

/// Character classes that parsers skip over or keep.
#[derive(Debug, Clone, Copy, PartialEq, Eq, Structural)]
pub enum CharClass {
    /// Unicode whitespace.
    Whitespace,
    /// ASCII whitespace.
    AsciiWhitespace,
    /// ASCII letters and digits.
    AsciiAlphanumeric,
    /// ASCII letters and `_`.
    AsciiAlphabeticOrUnderscore,
    /// Whitespace, `:`, `=`, `,` and `(`.
    Separator,
    /// `<`, `>`, `[` and `]`.
    AngleOrSquare,
    /// `<`, `>`, `[`, `]`, `{` and `}`.
    Bracket,
    /// ASCII letters and digits, `-` and `_`.
    Identifier,
}

pub open spec fn in_class(c: char, k: CharClass) -> bool {
    match k {
        CharClass::Whitespace => is_ws(c),
        CharClass::AsciiWhitespace => is_ascii_ws(c),
        CharClass::AsciiAlphanumeric => is_alnum(c),
        CharClass::AsciiAlphabeticOrUnderscore => is_alpha(c) || c == '_',
        CharClass::Separator => is_ws(c) || c == ':' || c == '=' || c == ',' || c == '(',
        CharClass::AngleOrSquare => c == '<' || c == '>' || c == '[' || c == ']',
        CharClass::Bracket => c == '<' || c == '>' || c == '[' || c == ']' || c == '{' || c
            == '}',
        CharClass::Identifier => is_alnum(c) || c == '-' || c == '_',
    }
}

pub fn in_class_exec(c: char, k: CharClass) -> (r: bool)
    ensures
        r == in_class(c, k),
{
    match k {
        CharClass::Whitespace => is_whitespace(c),
        CharClass::AsciiWhitespace => is_ascii_whitespace(c),
        CharClass::AsciiAlphanumeric => is_ascii_alphanumeric(c),
        CharClass::AsciiAlphabeticOrUnderscore => is_ascii_alphabetic(c) || c == '_',
        CharClass::Separator => is_whitespace(c) || c == ':' || c == '=' || c == ',' || c == '(',
        CharClass::AngleOrSquare => c == '<' || c == '>' || c == '[' || c == ']',
        CharClass::Bracket => c == '<' || c == '>' || c == '[' || c == ']' || c == '{' || c
            == '}',
        CharClass::Identifier => is_ascii_alphanumeric(c) || c == '-' || c == '_',
    }
}

/// End of the run of class-`k` characters that starts at `i`.
pub open spec fn run_end(s: Seq<char>, k: CharClass, i: int) -> int
    decreases s.len() - i,
{
    if i < 0 || i >= s.len() || !in_class(s[i], k) {
        i
    } else {
        run_end(s, k, i + 1)
    }
}

/// Start of the run of class-`k` characters that ends at `j`.
pub open spec fn run_start(s: Seq<char>, k: CharClass, j: int) -> int
    decreases j,
{
    if j <= 0 || j > s.len() || !in_class(s[j - 1], k) {
        j
    } else {
        run_start(s, k, j - 1)
    }
}

pub proof fn lemma_run_end(s: Seq<char>, k: CharClass, i: int)
    requires
        0 <= i <= s.len(),
    ensures
        i <= run_end(s, k, i) <= s.len(),
        forall|m: int| i <= m < run_end(s, k, i) ==> in_class(#[trigger] s[m], k),
        run_end(s, k, i) < s.len() ==> !in_class(s[run_end(s, k, i)], k),
    decreases s.len() - i,
{
    if i < s.len() && in_class(s[i], k) {
        lemma_run_end(s, k, i + 1);
    }
}

pub proof fn lemma_run_start(s: Seq<char>, k: CharClass, j: int)
    requires
        0 <= j <= s.len(),
    ensures
        0 <= run_start(s, k, j) <= j,
        forall|m: int| run_start(s, k, j) <= m < j ==> in_class(#[trigger] s[m], k),
    decreases j,
{
    if j > 0 && in_class(s[j - 1], k) {
        lemma_run_start(s, k, j - 1);
    }
}

pub fn run_end_exec(s: &[char], k: CharClass, i: usize) -> (r: usize)
    requires
        i <= s@.len(),
    ensures
        r == run_end(s@, k, i as int),
        i <= r <= s@.len(),
{
    proof {
        lemma_run_end(s@, k, i as int);
    }
    let mut j: usize = i;
    while j < s.len() && in_class_exec(s[j], k)
        invariant
            i <= j <= s@.len(),
            run_end(s@, k, i as int) == run_end(s@, k, j as int),
        decreases s.len() - j,
    {
        j += 1;
    }
    j
}

pub fn run_start_exec(s: &[char], k: CharClass, j: usize) -> (r: usize)
    requires
        j <= s@.len(),
    ensures
        r == run_start(s@, k, j as int),
        r <= j,
{
    proof {
        lemma_run_start(s@, k, j as int);
    }
    let mut i: usize = j;
    while i > 0 && in_class_exec(s[i - 1], k)
        invariant
            i <= j <= s@.len(),
            run_start(s@, k, j as int) == run_start(s@, k, i as int),
        decreases i,
    {
        i -= 1;
    }
    i
}

/// `s` without the class-`k` characters at either end (`str::trim_matches`).
pub open spec fn trim_class(s: Seq<char>, k: CharClass) -> Seq<char> {
    let a = run_end(s, k, 0);
    if a >= s.len() {
        seq![]
    } else {
        s.subrange(a, run_start(s, k, s.len() as int))
    }
}

pub fn trim_class_exec(s: &[char], k: CharClass) -> (r: Vec<char>)
    ensures
        r@ == trim_class(s@, k),
{
    let a = run_end_exec(s, k, 0);
    if a >= s.len() {
        assert(seq![] =~= trim_class(s@, k));
        return Vec::new();
    }
    let b = run_start_exec(s, k, s.len());
    proof {
        lemma_run_end(s@, k, 0);
        lemma_run_start(s@, k, s@.len() as int);
        if b < a {
            assert(in_class(s@[a as int], k));
        }
    }
    let r = copy_range(s, a, b);
    r
}

/// Every character of `s` is in class `k`.
pub open spec fn all_in_class(s: Seq<char>, k: CharClass) -> bool {
    forall|m: int| 0 <= m < s.len() ==> in_class(#[trigger] s[m], k)
}

pub fn all_in_class_exec(s: &[char], k: CharClass) -> (r: bool)
    ensures
        r == all_in_class(s@, k),
{
    proof {
        lemma_run_end(s@, k, 0);
    }
    run_end_exec(s, k, 0) == s.len()
}

/// The texts of a list of strings.
pub open spec fn texts(v: Seq<String>) -> Seq<Seq<char>> {
    Seq::new(v.len(), |i: int| v[i]@)
}

pub proof fn lemma_texts_push(v: Seq<String>, x: String)
    ensures
        texts(v.push(x)) == texts(v).push(x@),
{
    assert(texts(v.push(x)) =~= texts(v).push(x@));
}

/// `a` followed by `b`, as a new string.
pub fn concat_text(a: &str, b: &str) -> (r: String)
    ensures
        r@ == a@ + b@,
{
    let mut v = chars_of(a);
    let w = chars_of(b);
    append_chars(&mut v, w.as_slice());
    string_of(v.as_slice())
}

/// The characters of a string literal, with a proof of what they are.
pub fn lit(s: &str) -> (v: Vec<char>)
    ensures
        v@ == s@,
{
    chars_of(s)
}

} // verus!
