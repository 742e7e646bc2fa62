//! Character-level string operations with mathematical specifications.
//!
//! Every operation here works on the character sequence `s@` of a string, so
//! indices are character positions rather than byte offsets.

use vstd::prelude::*;
use vstd::utf8::{decode_utf8, valid_utf8};

verus! {

broadcast use vstd::string::group_string_axioms;

/// `pat` occurs in `s` starting at character index `i`.
pub open spec fn matches_at(s: Seq<char>, pat: Seq<char>, i: int) -> bool {
    &&& 0 <= i
    &&& i + pat.len() <= s.len()
    &&& s.subrange(i, i + pat.len()) == pat
}

/// The first index `i >= start` at which `pat` occurs in `s`.
pub open spec fn find_from(s: Seq<char>, pat: Seq<char>, start: int) -> Option<int>
    decreases s.len() - start,
{
    if start < 0 || start + pat.len() > s.len() {
        None
    } else if matches_at(s, pat, start) {
        Some(start)
    } else if start >= s.len() {
        None
    } else {
        find_from(s, pat, start + 1)
    }
}

/// `pat` occurs somewhere in `s`.
pub open spec fn contains(s: Seq<char>, pat: Seq<char>) -> bool {
    find_from(s, pat, 0) is Some
}

/// What `find_from` returns is the first occurrence at or after `start`.
pub proof fn lemma_find_from(s: Seq<char>, pat: Seq<char>, start: int)
    requires
        0 <= start,
    ensures
        match find_from(s, pat, start) {
            Some(i) => {
                &&& start <= i
                &&& i + pat.len() <= s.len()
                &&& matches_at(s, pat, i)
                &&& forall|j: int| start <= j < i ==> !matches_at(s, pat, j)
            },
            None => forall|j: int| start <= j ==> !matches_at(s, pat, j),
        },
    decreases s.len() - start,
{
    if start + pat.len() > s.len() {
    } else if matches_at(s, pat, start) {
    } else if start >= s.len() {
        assert(s.subrange(start, start + pat.len()) =~= pat);
    } else {
        lemma_find_from(s, pat, start + 1);
    }
}

/// An occurrence at `i` with none between `start` and `i` is the one that
/// `find_from` returns.
pub proof fn lemma_find_from_first(s: Seq<char>, pat: Seq<char>, start: int, i: int)
    requires
        0 <= start <= i,
        matches_at(s, pat, i),
        forall|j: int| start <= j < i ==> !matches_at(s, pat, j),
    ensures
        find_from(s, pat, start) == Some(i),
    decreases i - start,
{
    if i > start {
        assert(!matches_at(s, pat, start));
        lemma_find_from_first(s, pat, start + 1, i);
    }
}

/// Two texts that agree on their first `n` characters give the same result
/// to a search whose hit ends within those characters.
pub proof fn lemma_find_from_shared_prefix(
    s1: Seq<char>,
    s2: Seq<char>,
    pat: Seq<char>,
    start: int,
    n: int,
)
    requires
        0 <= start,
        n <= s1.len(),
        n <= s2.len(),
        forall|x: int| 0 <= x < n ==> s1[x] == s2[x],
        find_from(s1, pat, start) matches Some(i) && i + pat.len() <= n,
    ensures
        find_from(s2, pat, start) == find_from(s1, pat, start),
{
    lemma_find_from(s1, pat, start);
    let i = find_from(s1, pat, start)->0;
    assert forall|j: int| start <= j <= i implies (matches_at(s1, pat, j) <==> matches_at(
        s2,
        pat,
        j,
    )) by {
        assert(s1.subrange(j, j + pat.len()) =~= s2.subrange(j, j + pat.len()));
    }
    lemma_find_from_first(s2, pat, start, i);
}

/// `contains` holds exactly when `pat` occurs at some index of `s`.
pub proof fn lemma_contains(s: Seq<char>, pat: Seq<char>)
    ensures
        contains(s, pat) <==> exists|i: int| matches_at(s, pat, i),
{
    lemma_find_from(s, pat, 0);
    if exists|i: int| matches_at(s, pat, i) {
        let i = choose|i: int| matches_at(s, pat, i);
        assert(0 <= i);
    }
}

/// An occurrence stays an occurrence when text is added on either side.
pub proof fn lemma_matches_extend(a: Seq<char>, pat: Seq<char>, i: int, pre: Seq<char>, post: Seq<char>)
    requires
        matches_at(a, pat, i),
    ensures
        matches_at(pre + a + post, pat, i + pre.len()),
{
    assert((pre + a + post).subrange(i + pre.len(), i + pre.len() + pat.len()) =~= a.subrange(
        i,
        i + pat.len(),
    ));
}

/// The characters of `s`, in order.
pub fn chars_of(s: &str) -> (res: Vec<char>)
    ensures
        res@ == s@,
{
    let mut v: Vec<char> = Vec::new();
    for c in it: s.chars()
        invariant
            it.seq() == s@,
            v@ == it.seq().take(it.index() as int),
    {
        assert(it.seq().take(it.index() as int + 1) == it.seq().take(it.index() as int).push(c));
        v.push(c);
    }
    assert(v@ == s@);
    v
}


/// Whether `pat` occurs in `s` at index `i`.
fn matches_at_exec(s: &Vec<char>, pat: &Vec<char>, i: usize) -> (res: bool)
    requires
        i <= s@.len(),
    ensures
        res == matches_at(s@, pat@, i as int),
{
    if pat.len() > s.len() - i {
        return false;
    }
    let mut k: usize = 0;
    while k < pat.len()
        invariant
            k <= pat@.len(),
            i + pat.len() <= s.len(),
            forall|m: int| 0 <= m < k ==> s@[i + m] == pat@[m],
        decreases pat@.len() - k,
    {
        if s[i + k] != pat[k] {
            assert(s@.subrange(i as int, i + pat@.len())[k as int] != pat@[k as int]);
            return false;
        }
        k += 1;
    }
    assert(s@.subrange(i as int, i + pat@.len()) =~= pat@);
    true
}

/// The first occurrence of `pat` in `s` at or after `start`.
pub fn find_chars(s: &Vec<char>, pat: &Vec<char>, start: usize) -> (res: Option<usize>)
    requires
        start <= s@.len(),
    ensures
        res matches Some(i) ==> find_from(s@, pat@, start as int) == Some(i as int),
        res is None ==> find_from(s@, pat@, start as int) is None,
{
    let mut i = start;
    while i <= s.len()
        invariant
            start <= i,
            i <= s@.len() + 1,
            find_from(s@, pat@, start as int) == find_from(s@, pat@, i as int),
        decreases s@.len() + 1 - i,
    {
        if pat.len() > s.len() - i {
            return None;
        }
        if matches_at_exec(s, pat, i) {
            return Some(i);
        }
        if i == s.len() {
            return None;
        }
        i += 1;
    }
    None
}

/// The character index of the first occurrence of `pat` in `s`.
pub fn find(s: &str, pat: &str) -> (res: Option<usize>)
    ensures
        res matches Some(i) ==> find_from(s@, pat@, 0) == Some(i as int),
        res is None ==> find_from(s@, pat@, 0) is None,
{
    let sv = chars_of(s);
    let pv = chars_of(pat);
    find_chars(&sv, &pv, 0)
}

/// Whether `pat` occurs in `s`.
pub fn contains_str(s: &str, pat: &str) -> (res: bool)
    ensures
        res == contains(s@, pat@),
{
    find(s, pat).is_some()
}


/// The text of `s` from index `start` on, with every occurrence of `pat`
/// (taken left to right, without overlap) replaced by `rep`.
pub open spec fn replace_from(s: Seq<char>, pat: Seq<char>, rep: Seq<char>, start: int) -> Seq<char>
    decreases s.len() - start,
{
    if pat.len() == 0 || start < 0 || start > s.len() {
        Seq::empty()
    } else {
        match find_from(s, pat, start) {
            Some(j) => {
                proof {
                    lemma_find_from(s, pat, start);
                }
                s.subrange(start, j) + rep + replace_from(s, pat, rep, j + pat.len())
            },
            None => s.subrange(start, s.len() as int),
        }
    }
}

/// `s` with every occurrence of the non-empty `pat` replaced by `rep`, as
/// `str::replace` does.
pub open spec fn replace_all(s: Seq<char>, pat: Seq<char>, rep: Seq<char>) -> Seq<char> {
    replace_from(s, pat, rep, 0)
}

/// `s` with its first occurrence of `pat` replaced by `rep`, as
/// `str::replacen(pat, rep, 1)` does.
pub open spec fn replace_first(s: Seq<char>, pat: Seq<char>, rep: Seq<char>) -> Seq<char> {
    match find_from(s, pat, 0) {
        Some(j) => s.subrange(0, j) + rep + s.subrange(j + pat.len(), s.len() as int),
        None => s,
    }
}

/// Replaces every occurrence of the non-empty `pat` in `s` by `rep`.
pub fn replace_all_str(s: &str, pat: &str, rep: &str) -> (res: String)
    requires
        pat@.len() > 0,
    ensures
        res@ == replace_all(s@, pat@, rep@),
{
    let sv = chars_of(s);
    let pv = chars_of(pat);
    let mut out = String::new();
    let mut start: usize = 0;
    loop
        invariant
            start <= sv@.len(),
            sv@ == s@,
            pv@ == pat@,
            pat@.len() > 0,
            out@ + replace_from(s@, pat@, rep@, start as int) == replace_all(s@, pat@, rep@),
        decreases sv@.len() - start,
    {
        proof {
            lemma_find_from(s@, pat@, start as int);
        }
        match find_chars(&sv, &pv, start) {
            None => {
                let tail = s.substring_char(start, sv.len());
                let ghost before = out@;
                out.append(tail);
                assert(out@ == before + replace_from(s@, pat@, rep@, start as int));
                return out;
            },
            Some(j) => {
                let piece = s.substring_char(start, j);
                let ghost before = out@;
                out.append(piece);
                out.append(rep);
                assert(j + pv@.len() <= sv@.len());
                assert(sv@.len() == sv.len());
                let next = j + pv.len();
                assert(replace_from(s@, pat@, rep@, start as int) == s@.subrange(start as int, j as int)
                    + rep@ + replace_from(s@, pat@, rep@, next as int));
                assert(out@ + replace_from(s@, pat@, rep@, next as int) =~= before + replace_from(
                    s@,
                    pat@,
                    rep@,
                    start as int,
                ));
                start = next;
            },
        }
    }
}

/// Replaces the first occurrence of `pat` in `s` by `rep`.
pub fn replace_first_str(s: &str, pat: &str, rep: &str) -> (res: String)
    ensures
        res@ == replace_first(s@, pat@, rep@),
{
    let sv = chars_of(s);
    let pv = chars_of(pat);
    proof {
        lemma_find_from(s@, pat@, 0);
    }
    match find_chars(&sv, &pv, 0) {
        None => String::from_str(s),
        Some(j) => {
            assert(j + pv@.len() <= sv@.len());
            assert(sv@.len() == sv.len());
            let mut out = String::from_str(s.substring_char(0, j));
            out.append(rep);
            out.append(s.substring_char(j + pv.len(), sv.len()));
            out
        },
    }
}


/// The characters with the Unicode `White_Space` property, which is what
/// `char::is_whitespace` tests.
pub open spec fn is_whitespace(c: char) -> bool {
    ||| ('\t' <= c && c <= '\r')
    ||| c == ' '
    ||| c == '\u{85}'
    ||| c == '\u{a0}'
    ||| c == '\u{1680}'
    ||| ('\u{2000}' <= c && c <= '\u{200a}')
    ||| c == '\u{2028}'
    ||| c == '\u{2029}'
    ||| c == '\u{202f}'
    ||| c == '\u{205f}'
    ||| c == '\u{3000}'
}

/// The whitespace characters are exactly the 25 code points of Unicode's
/// `White_Space` property: U+0009–U+000D, U+0020, U+0085, U+00A0, U+1680,
/// U+2000–U+200A, U+2028, U+2029, U+202F, U+205F and U+3000.
pub proof fn lemma_whitespace_table(c: char)
    ensures
        is_whitespace(c) <==> {
            let v = c as u32;
            ||| 0x9 <= v <= 0xd
            ||| v == 0x20
            ||| v == 0x85
            ||| v == 0xa0
            ||| v == 0x1680
            ||| 0x2000 <= v <= 0x200a
            ||| v == 0x2028
            ||| v == 0x2029
            ||| v == 0x202f
            ||| v == 0x205f
            ||| v == 0x3000
        },
{
}

fn is_whitespace_exec(c: char) -> (res: bool)
    ensures
        res == is_whitespace(c),
{
    ('\t' <= c && c <= '\r') || c == ' ' || c == '\u{85}' || c == '\u{a0}' || c == '\u{1680}' || (
    '\u{2000}' <= c && c <= '\u{200a}') || c == '\u{2028}' || c == '\u{2029}' || c == '\u{202f}'
        || c == '\u{205f}' || c == '\u{3000}'
}

/// `s` without its leading whitespace.
pub open spec fn trim_start(s: Seq<char>) -> Seq<char>
    decreases s.len(),
{
    if s.len() > 0 && is_whitespace(s[0]) {
        trim_start(s.drop_first())
    } else {
        s
    }
}

/// `s` without its trailing whitespace.
pub open spec fn trim_end(s: Seq<char>) -> Seq<char>
    decreases s.len(),
{
    if s.len() > 0 && is_whitespace(s.last()) {
        trim_end(s.drop_last())
    } else {
        s
    }
}

/// `s` without leading and trailing whitespace, as `str::trim` returns it.
pub open spec fn trim(s: Seq<char>) -> Seq<char> {
    trim_end(trim_start(s))
}

proof fn lemma_trim_start_skip(s: Seq<char>, a: int)
    requires
        0 <= a < s.len(),
        is_whitespace(s[a]),
    ensures
        trim_start(s.subrange(a, s.len() as int)) == trim_start(s.subrange(a + 1, s.len() as int)),
{
    assert(s.subrange(a, s.len() as int).drop_first() =~= s.subrange(a + 1, s.len() as int));
}

proof fn lemma_trim_end_take(s: Seq<char>, b: int)
    requires
        0 < b <= s.len(),
        is_whitespace(s[b - 1]),
    ensures
        trim_end(s.subrange(0, b)) == trim_end(s.subrange(0, b - 1)),
{
    assert(s.subrange(0, b).drop_last() =~= s.subrange(0, b - 1));
}

/// A suffix of `s` starting at a non-whitespace character is kept whole by
/// `trim_start`, and a prefix ending at one is kept whole by `trim_end`.
proof fn lemma_trim_fixed(s: Seq<char>)
    ensures
        (s.len() == 0 || !is_whitespace(s[0])) ==> trim_start(s) == s,
        (s.len() == 0 || !is_whitespace(s.last())) ==> trim_end(s) == s,
{
}

/// `trim_end(s)` is a prefix of `s`; it is empty or ends in a non-whitespace
/// character.
proof fn lemma_trim_end_prefix(s: Seq<char>)
    ensures
        trim_end(s).len() <= s.len(),
        trim_end(s) == s.subrange(0, trim_end(s).len() as int),
        trim_end(s).len() > 0 ==> !is_whitespace(trim_end(s).last()),
    decreases s.len(),
{
    if s.len() > 0 && is_whitespace(s.last()) {
        lemma_trim_end_prefix(s.drop_last());
        assert(s.drop_last().subrange(0, trim_end(s).len() as int) =~= s.subrange(
            0,
            trim_end(s).len() as int,
        ));
    } else {
        assert(s.subrange(0, s.len() as int) =~= s);
    }
}

/// `trim_start(s)` is a suffix of `s`; it is empty or starts with a
/// non-whitespace character.
proof fn lemma_trim_start_suffix(s: Seq<char>)
    ensures
        trim_start(s).len() <= s.len(),
        trim_start(s) == s.subrange(s.len() - trim_start(s).len(), s.len() as int),
        trim_start(s).len() > 0 ==> !is_whitespace(trim_start(s)[0]),
    decreases s.len(),
{
    if s.len() > 0 && is_whitespace(s[0]) {
        lemma_trim_start_suffix(s.drop_first());
        let n = trim_start(s).len();
        assert(s.drop_first().subrange(s.drop_first().len() - n, s.drop_first().len() as int)
            =~= s.subrange(s.len() - n, s.len() as int));
    } else {
        assert(s.subrange(0, s.len() as int) =~= s);
    }
}

/// Trimming a trimmed string changes nothing.
pub proof fn lemma_trim_idempotent(s: Seq<char>)
    ensures
        trim(trim(s)) == trim(s),
{
    let a = trim_start(s);
    let t = trim_end(a);
    lemma_trim_start_suffix(s);
    lemma_trim_end_prefix(a);
    if t.len() > 0 {
        assert(t[0] == a[0]);
    }
    lemma_trim_fixed(t);
}

proof fn lemma_trim_start_push_whitespace(s: Seq<char>, w: char)
    requires
        is_whitespace(w),
    ensures
        trim_start(s.push(w)) == if trim_start(s).len() > 0 {
            trim_start(s).push(w)
        } else {
            Seq::<char>::empty()
        },
    decreases s.len(),
{
    if s.len() == 0 {
        assert(s.push(w).drop_first() =~= Seq::<char>::empty());
        assert(trim_start(Seq::<char>::empty()) == Seq::<char>::empty());
    } else if is_whitespace(s[0]) {
        assert(s.push(w).drop_first() =~= s.drop_first().push(w));
        lemma_trim_start_push_whitespace(s.drop_first(), w);
    } else {
        assert(s.push(w)[0] == s[0]);
    }
}

/// Appending a whitespace character to a string does not change its trim.
pub proof fn lemma_trim_push_whitespace(s: Seq<char>, w: char)
    requires
        is_whitespace(w),
    ensures
        trim(s.push(w)) == trim(s),
{
    lemma_trim_start_push_whitespace(s, w);
    let ts = trim_start(s);
    if ts.len() > 0 {
        assert(ts.push(w).drop_last() =~= ts);
    }
}

/// `s` without leading and trailing whitespace.
pub fn trim_str(s: &str) -> (res: &str)
    ensures
        res@ == trim(s@),
{
    let sv = chars_of(s);
    let n = sv.len();
    let mut a: usize = 0;
    assert(s@.subrange(0, n as int) =~= s@);
    while a < n && is_whitespace_exec(sv[a])
        invariant
            a <= n,
            n == s@.len(),
            sv@ == s@,
            trim_start(s@) == trim_start(s@.subrange(a as int, n as int)),
        decreases n - a,
    {
        proof {
            lemma_trim_start_skip(s@, a as int);
        }
        a += 1;
    }
    let ghost front = s@.subrange(a as int, n as int);
    proof {
        lemma_trim_fixed(front);
        assert(trim_start(s@) == front);
    }
    let mut b: usize = n;
    assert(front.subrange(0, (b - a) as int) =~= front);
    while b > a && is_whitespace_exec(sv[b - 1])
        invariant
            a <= b <= n,
            n == s@.len(),
            sv@ == s@,
            front == s@.subrange(a as int, n as int),
            trim_end(front) == trim_end(front.subrange(0, (b - a) as int)),
        decreases b,
    {
        proof {
            lemma_trim_end_take(front, (b - a) as int);
        }
        b -= 1;
    }
    proof {
        lemma_trim_fixed(front.subrange(0, (b - a) as int));
        assert(front.subrange(0, (b - a) as int) =~= s@.subrange(a as int, b as int));
    }
    s.substring_char(a, b)
}

/// The code of `c` with ASCII upper-case letters mapped to lower case, as
/// `char::to_ascii_lowercase` maps them.
pub open spec fn ascii_lower_code(c: char) -> u32 {
    if 'A' <= c && c <= 'Z' {
        (c as u32 + 32) as u32
    } else {
        c as u32
    }
}

/// `a` and `b` are equal once ASCII letters are folded to lower case, as
/// `str::eq_ignore_ascii_case` decides.
pub open spec fn eq_ignore_ascii_case(a: Seq<char>, b: Seq<char>) -> bool {
    &&& a.len() == b.len()
    &&& forall|i: int| 0 <= i < a.len() ==> ascii_lower_code(a[i]) == ascii_lower_code(b[i])
}

/// Folding maps each ASCII capital to the code of its small letter, 32
/// above it, and leaves every other character's code as it is.
pub proof fn lemma_ascii_lower_code(c: char)
    ensures
        0x41 <= (c as u32) <= 0x5a ==> ascii_lower_code(c) == (c as u32) + 32,
        !(0x41 <= (c as u32) <= 0x5a) ==> ascii_lower_code(c) == c as u32,
{
}

fn ascii_lower_code_exec(c: char) -> (res: u32)
    ensures
        res == ascii_lower_code(c),
{
    if 'A' <= c && c <= 'Z' {
        c as u32 + 32
    } else {
        c as u32
    }
}

/// Whether `a` and `b` are equal ignoring ASCII case.
pub fn eq_ignore_ascii_case_str(a: &str, b: &str) -> (res: bool)
    ensures
        res == eq_ignore_ascii_case(a@, b@),
{
    let av = chars_of(a);
    let bv = chars_of(b);
    if av.len() != bv.len() {
        return false;
    }
    let mut i: usize = 0;
    while i < av.len()
        invariant
            av@ == a@,
            bv@ == b@,
            av@.len() == bv@.len(),
            i <= av@.len(),
            forall|k: int| 0 <= k < i ==> ascii_lower_code(a@[k]) == ascii_lower_code(b@[k]),
        decreases av@.len() - i,
    {
        if ascii_lower_code_exec(av[i]) != ascii_lower_code_exec(bv[i]) {
            return false;
        }
        i += 1;
    }
    true
}


/// The one-character sequence holding a line feed.
pub open spec fn newline() -> Seq<char> {
    seq!['\n']
}

/// The index of the first line feed at or after `start`, or `s.len()`.
pub open spec fn line_end(s: Seq<char>, start: int) -> int {
    match find_from(s, newline(), start) {
        Some(j) => j,
        None => s.len() as int,
    }
}

/// The line of `s` that starts at `start`, without its terminator: a line
/// feed ends it, and a carriage return just before that line feed is dropped
/// too.
pub open spec fn line_at(s: Seq<char>, start: int) -> Seq<char> {
    let e = line_end(s, start);
    let raw = s.subrange(start, e);
    if e < s.len() && raw.len() > 0 && raw.last() == '\r' {
        raw.drop_last()
    } else {
        raw
    }
}

pub proof fn lemma_line_end(s: Seq<char>, start: int)
    requires
        0 <= start <= s.len(),
    ensures
        start <= line_end(s, start) <= s.len(),
        line_end(s, start) < s.len() ==> s[line_end(s, start)] == '\n',
        forall|k: int| start <= k < line_end(s, start) ==> s[k] != '\n',
{
    lemma_find_from(s, newline(), start);
    if let Some(j) = find_from(s, newline(), start) {
        assert(s.subrange(j, j + 1)[0] == s[j]);
    }
    assert forall|k: int| start <= k < line_end(s, start) implies s[k] != '\n' by {
        lemma_find_from(s, newline(), start);
        if s[k] == '\n' {
            assert(s.subrange(k, k + 1) =~= newline());
            assert(matches_at(s, newline(), k));
        }
    }
}

/// The lines of `s` from index `start` on, as `str::lines` yields them.
pub open spec fn lines_from(s: Seq<char>, start: int) -> Seq<Seq<char>>
    decreases s.len() + 1 - start,
{
    if start < 0 || start >= s.len() {
        Seq::empty()
    } else {
        proof {
            lemma_line_end(s, start);
        }
        seq![line_at(s, start)] + lines_from(s, line_end(s, start) + 1)
    }
}

/// The lines of `s`, as `str::lines` yields them: split at line feeds, a
/// carriage return before a line feed dropped, and no empty last line after
/// a final line feed.
pub open spec fn lines(s: Seq<char>) -> Seq<Seq<char>> {
    lines_from(s, 0)
}

/// `parts` joined with a line feed between each two, as `[String]::join("\n")`
/// does.
pub open spec fn join_lines(parts: Seq<Seq<char>>) -> Seq<char>
    decreases parts.len(),
{
    if parts.len() == 0 {
        Seq::empty()
    } else if parts.len() == 1 {
        parts[0]
    } else {
        join_lines(parts.drop_last()) + newline() + parts.last()
    }
}

/// The non-empty elements of `parts` joined with a line feed between each
/// two.
pub open spec fn join_nonempty_lines(parts: Seq<Seq<char>>) -> Seq<char>
    decreases parts.len(),
{
    if parts.len() == 0 {
        Seq::empty()
    } else {
        let prev = join_nonempty_lines(parts.drop_last());
        if parts.last().len() == 0 {
            prev
        } else if prev.len() == 0 {
            parts.last()
        } else {
            prev + newline() + parts.last()
        }
    }
}


/// Whether `a` and `b` hold the same characters.
pub fn equals_str(a: &str, b: &str) -> (res: bool)
    ensures
        res == (a@ == b@),
{
    let av = chars_of(a);
    let bv = chars_of(b);
    if av.len() != bv.len() {
        return false;
    }
    let mut i: usize = 0;
    while i < av.len()
        invariant
            av@ == a@,
            bv@ == b@,
            av@.len() == bv@.len(),
            i <= av@.len(),
            forall|k: int| 0 <= k < i ==> a@[k] == b@[k],
        decreases av@.len() - i,
    {
        if av[i] != bv[i] {
            return false;
        }
        i += 1;
    }
    assert(a@ =~= b@);
    true
}

/// The path `base` extended by `rel`, as `Path::join` forms it on Unix: an
/// absolute `rel` stands alone, otherwise a `/` separates the two unless
/// `base` is empty or already ends with one.
pub open spec fn path_join(base: Seq<char>, rel: Seq<char>) -> Seq<char> {
    if rel.len() > 0 && rel[0] == '/' {
        rel
    } else if base.len() == 0 || base.last() == '/' {
        base + rel
    } else {
        base + seq!['/'] + rel
    }
}

/// Extends the path `base` by `rel`.
pub fn join_path(base: &str, rel: &str) -> (res: String)
    ensures
        res@ == path_join(base@, rel@),
{
    let bv = chars_of(base);
    let rv = chars_of(rel);
    if rv.len() > 0 && rv[0] == '/' {
        return String::from_str(rel);
    }
    let mut out = String::from_str(base);
    if bv.len() > 0 && bv[bv.len() - 1] != '/' {
        out.append("/");
        proof {
            reveal_strlit("/");
            assert("/"@ =~= seq!['/']);
        }
    }
    out.append(rel);
    out
}


/// The character sequences of a list of strings.
pub open spec fn texts_of(parts: Seq<String>) -> Seq<Seq<char>> {
    parts.map_values(|p: String| p@)
}

/// Joins `parts` with a line feed between each two.
pub fn join_lines_str(parts: &Vec<String>) -> (res: String)
    ensures
        res@ == join_lines(texts_of(parts@)),
{
    let mut out = String::new();
    let mut k: usize = 0;
    assert(texts_of(parts@).take(0) =~= Seq::<Seq<char>>::empty());
    while k < parts.len()
        invariant
            k <= parts@.len(),
            out@ == join_lines(texts_of(parts@).take(k as int)),
        decreases parts@.len() - k,
    {
        let ghost t = texts_of(parts@);
        assert(t.take(k + 1).drop_last() =~= t.take(k as int));
        if k > 0 {
            out.append("\n");
            proof {
                reveal_strlit("\n");
                assert("\n"@ =~= newline());
            }
        } else {
            assert(t.take(1) =~= seq![parts@[0]@]);
        }
        out.append(parts[k].as_str());
        k += 1;
    }
    assert(texts_of(parts@).take(parts@.len() as int) =~= texts_of(parts@));
    out
}


/// Replacing the occurrences of `pat` in a text that holds it leaves the
/// replacement in the result.
pub proof fn lemma_replace_all_holds_replacement(s: Seq<char>, pat: Seq<char>, rep: Seq<char>)
    requires
        pat.len() > 0,
        contains(s, pat),
    ensures
        contains(replace_all(s, pat, rep), rep),
{
    lemma_find_from(s, pat, 0);
    let j = find_from(s, pat, 0)->0;
    let rest = replace_from(s, pat, rep, j + pat.len());
    assert(replace_all(s, pat, rep) == s.subrange(0, j) + rep + rest);
    assert(matches_at(rep, rep, 0)) by {
        assert(rep.subrange(0, rep.len() as int) =~= rep);
    }
    lemma_matches_extend(rep, rep, 0, s.subrange(0, j), rest);
    lemma_contains(replace_all(s, pat, rep), rep);
}

/// Every non-empty part is a piece of the joined text.
pub proof fn lemma_join_nonempty_holds_part(parts: Seq<Seq<char>>, i: int)
    requires
        0 <= i < parts.len(),
        parts[i].len() > 0,
    ensures
        contains(join_nonempty_lines(parts), parts[i]),
    decreases parts.len(),
{
    let prev = join_nonempty_lines(parts.drop_last());
    let last = parts.last();
    let whole = join_nonempty_lines(parts);
    let empty = Seq::<char>::empty();
    if i == parts.len() - 1 {
        assert(matches_at(last, last, 0)) by {
            assert(last.subrange(0, last.len() as int) =~= last);
        }
        if prev.len() == 0 {
            lemma_matches_extend(last, last, 0, empty, empty);
            assert(empty + last + empty =~= last);
        } else {
            lemma_matches_extend(last, last, 0, prev + newline(), empty);
            assert(prev + newline() + last + empty =~= whole);
        }
        lemma_contains(whole, last);
    } else {
        lemma_join_nonempty_holds_part(parts.drop_last(), i);
        lemma_contains(prev, parts[i]);
        let k = choose|k: int| matches_at(prev, parts[i], k);
        if last.len() == 0 {
        } else if prev.len() == 0 {
            assert(false);
        } else {
            lemma_matches_extend(prev, parts[i], k, empty, newline() + last);
            assert(empty + prev + (newline() + last) =~= whole);
        }
        lemma_contains(whole, parts[i]);
    }
}

/// What `String::from_utf8_lossy` makes of a byte string.
pub uninterp spec fn utf8_lossy(bytes: Seq<u8>) -> Seq<char>;

/// Calls `String::from_utf8_lossy`. Claimed of it: the result is a function
/// of the bytes alone, and for valid UTF-8 it is the text the bytes encode.
/// What it makes of invalid sequences (U+FFFD in their place) is left
/// unstated.
#[verifier::external_body]
pub(crate) fn decode_utf8_lossy(bytes: &[u8]) -> (res: String)
    ensures
        res@ == utf8_lossy(bytes@),
        valid_utf8(bytes@) ==> res@ == decode_utf8(bytes@),
{
    String::from_utf8_lossy(bytes).into_owned()
}

/// The text a command printed, decoded as `String::from_utf8_lossy` does and
/// trimmed.
pub fn trimmed_output(out: &[u8]) -> (res: String)
    ensures
        res@ == trim(utf8_lossy(out@)),
{
    let raw = decode_utf8_lossy(out);
    String::from_str(trim_str(raw.as_str()))
}

} // verus!
