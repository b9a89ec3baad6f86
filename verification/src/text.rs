//! Character-level text model shared by the protocol matchers: UTF-8
//! decoding, line and token splitting, trimming, Unicode case folding,
//! and unsigned decimal parsing. Spec functions model the operations
//! over `Seq<char>`; each executable function is proved against its
//! model, with whitespace and case folding taken from the standard
//! library behind named results.

use vstd::prelude::*;
use vstd::string::StrSliceExecFns;
use vstd::string::StringExecFns;

verus! {

use vstd::utf8::valid_utf8;
use vstd::utf8::decode_utf8;

/// Whether `c` counts as whitespace, exactly as `char::is_whitespace`
/// decides it. The result depends on the character alone.
pub uninterp spec fn is_space(c: char) -> bool;

/// Relies on `char::is_whitespace`: a pure character classification.
#[verifier::external_body]
pub(crate) fn char_is_space(c: char) -> (r: bool)
    ensures
        r == is_space(c),
{
    c.is_whitespace()
}

/// Relies on `str::from_utf8` (through `str::to_owned`): decoding succeeds
/// exactly on valid UTF-8 input and then yields the decoded characters.
#[verifier::external_body]
pub(crate) fn decode_bytes(bytes: &[u8]) -> (r: Option<String>)
    ensures
        r is Some <==> valid_utf8(bytes@),
        r matches Some(s) ==> s@ == decode_utf8(bytes@),
{
    match std::str::from_utf8(bytes) {
        Ok(s) => Some(s.to_owned()),
        Err(_) => None,
    }
}

/// Relies on `String::push`: appends one character at the end.
#[verifier::external_body]
pub(crate) fn push_char(s: &mut String, c: char)
    ensures
        final(s)@ == old(s)@.push(c),
{
    s.push(c);
}

/// The views of a sequence of strings.
pub open spec fn views_of(v: Seq<String>) -> Seq<Seq<char>> {
    Seq::new(v.len(), |i: int| v[i]@)
}

pub proof fn lemma_views_of_push(v: Seq<String>, w: Seq<String>, xv: Seq<char>)
    requires
        w.len() == v.len() + 1,
        forall|i: int| 0 <= i < v.len() ==> w[i] == v[i],
        w.last()@ == xv,
    ensures
        views_of(w) == views_of(v).push(xv),
{
    assert(views_of(w) =~= views_of(v).push(xv));
}

/// Index of the first occurrence of `c` in `s` at or after `i`, or
/// `s.len()` if there is none.
pub open spec fn find_char(s: Seq<char>, c: char, i: int) -> int
    decreases s.len() - i,
{
    if i < 0 || i >= s.len() {
        s.len() as int
    } else if s[i] == c {
        i
    } else {
        find_char(s, c, i + 1)
    }
}

pub proof fn lemma_find_char(s: Seq<char>, c: char, i: int)
    requires
        0 <= i <= s.len(),
    ensures
        i <= find_char(s, c, i) <= s.len(),
        find_char(s, c, i) < s.len() ==> s[find_char(s, c, i)] == c,
        forall|j: int| i <= j < find_char(s, c, i) ==> s[j] != c,
    decreases s.len() - i,
{
    if i < s.len() && s[i] != c {
        lemma_find_char(s, c, i + 1);
    }
}

/// Position of the first occurrence of `c` in `text`, or its length.
pub fn find_char_str(text: &str, c: char) -> (r: usize)
    ensures
        r == find_char(text@, c, 0),
        r <= text@.len(),
{
    let ghost s = text@;
    let n: usize = text.unicode_len();
    let mut j: usize = 0;
    while j < n && text.get_char(j) != c
        invariant
            j <= n,
            n == s.len(),
            text@ == s,
            forall|k: int| 0 <= k < j ==> s[k] != c,
        decreases n - j,
    {
        j = j + 1;
    }
    proof {
        lemma_find_char(s, c, 0);
    }
    j
}

/// Index of the first whitespace character at or after `i`, or `s.len()`.
pub open spec fn find_space(s: Seq<char>, i: int) -> int
    decreases s.len() - i,
{
    if i < 0 || i >= s.len() {
        s.len() as int
    } else if is_space(s[i]) {
        i
    } else {
        find_space(s, i + 1)
    }
}

pub proof fn lemma_find_space(s: Seq<char>, i: int)
    requires
        0 <= i <= s.len(),
    ensures
        i <= find_space(s, i) <= s.len(),
        find_space(s, i) < s.len() ==> is_space(s[find_space(s, i)]),
        forall|j: int| i <= j < find_space(s, i) ==> !is_space(s[j]),
    decreases s.len() - i,
{
    if i < s.len() && !is_space(s[i]) {
        lemma_find_space(s, i + 1);
    }
}

/// Index of the first non-whitespace character at or after `i`, or `s.len()`.
pub open spec fn find_nonspace(s: Seq<char>, i: int) -> int
    decreases s.len() - i,
{
    if i < 0 || i >= s.len() {
        s.len() as int
    } else if !is_space(s[i]) {
        i
    } else {
        find_nonspace(s, i + 1)
    }
}

pub proof fn lemma_find_nonspace(s: Seq<char>, i: int)
    requires
        0 <= i <= s.len(),
    ensures
        i <= find_nonspace(s, i) <= s.len(),
        find_nonspace(s, i) < s.len() ==> !is_space(s[find_nonspace(s, i)]),
        forall|j: int| i <= j < find_nonspace(s, i) ==> is_space(s[j]),
    decreases s.len() - i,
{
    if i < s.len() && is_space(s[i]) {
        lemma_find_nonspace(s, i + 1);
    }
}

/// Index of the first carriage-return/line-feed pair at or after `i`, or
/// `s.len()` if there is none.
pub open spec fn find_crlf(s: Seq<char>, i: int) -> int
    decreases s.len() - i,
{
    if i < 0 || i + 1 >= s.len() {
        s.len() as int
    } else if s[i] == '\r' && s[i + 1] == '\n' {
        i
    } else {
        find_crlf(s, i + 1)
    }
}

pub proof fn lemma_find_crlf(s: Seq<char>, i: int)
    requires
        0 <= i <= s.len(),
    ensures
        i <= find_crlf(s, i) <= s.len(),
        find_crlf(s, i) < s.len() ==> find_crlf(s, i) + 1 < s.len()
            && s[find_crlf(s, i)] == '\r' && s[find_crlf(s, i) + 1] == '\n',
        forall|j: int| i <= j < find_crlf(s, i) && j + 1 < s.len()
            ==> !(#[trigger] s[j] == '\r' && s[j + 1] == '\n'),
    decreases s.len() - i,
{
    if i + 1 < s.len() && !(s[i] == '\r' && s[i + 1] == '\n') {
        lemma_find_crlf(s, i + 1);
    }
}

/// The lines of `s` starting at position `i`, split exactly as
/// `str::lines` splits them: at each line feed, with one carriage return
/// immediately before the line feed stripped, and no empty final line
/// after a trailing line feed.
pub open spec fn lines_from(s: Seq<char>, i: int) -> Seq<Seq<char>>
    decreases s.len() - i via lines_from_decreases
{
    if i < 0 || i >= s.len() {
        Seq::empty()
    } else {
        let j = find_char(s, '\n', i);
        if j >= s.len() {
            seq![s.subrange(i, s.len() as int)]
        } else {
            let line = if j > i && s[j - 1] == '\r' {
                s.subrange(i, j - 1)
            } else {
                s.subrange(i, j)
            };
            seq![line] + lines_from(s, j + 1)
        }
    }
}

#[via_fn]
proof fn lines_from_decreases(s: Seq<char>, i: int) {
    if 0 <= i < s.len() {
        lemma_find_char(s, '\n', i);
    }
}

/// The lines of `s`, as `str::lines` yields them.
pub open spec fn spec_lines(s: Seq<char>) -> Seq<Seq<char>> {
    lines_from(s, 0)
}

/// Splits `text` into its lines.
pub fn split_lines(text: &str) -> (r: Vec<String>)
    ensures
        views_of(r@) == spec_lines(text@),
{
    let ghost s = text@;
    let n: usize = text.unicode_len();
    let mut out: Vec<String> = Vec::new();
    let mut pos: usize = 0;
    proof {
        assert(views_of(out@) =~= Seq::<Seq<char>>::empty());
        assert(Seq::<Seq<char>>::empty() + lines_from(s, 0) =~= lines_from(s, 0));
    }
    while pos < n
        invariant
            n == s.len(),
            text@ == s,
            pos <= n,
            spec_lines(s) == views_of(out@) + lines_from(s, pos as int),
        decreases n - pos,
    {
        let ghost out0 = out@;
        let mut j: usize = pos;
        while j < n && text.get_char(j) != '\n'
            invariant
                pos <= j <= n,
                n == s.len(),
                text@ == s,
                forall|k: int| pos <= k < j ==> s[k] != '\n',
            decreases n - j,
        {
            j = j + 1;
        }
        proof {
            lemma_find_char(s, '\n', pos as int);
            assert(j == find_char(s, '\n', pos as int));
        }
        let endx: usize = if j < n && j > pos && text.get_char(j - 1) == '\r' {
            j - 1
        } else {
            j
        };
        let line = text.substring_char(pos, endx);
        let owned = String::from_str(line);
        let ghost lv = owned@;
        out.push(owned);
        proof {
            lemma_views_of_push(out0, out@, lv);
        }
        if j < n {
            proof {
                assert(lines_from(s, pos as int) == seq![line@] + lines_from(s, j + 1));
                assert(views_of(out@) + lines_from(s, j + 1)
                    =~= views_of(out0) + lines_from(s, pos as int));
            }
            pos = j + 1;
        } else {
            proof {
                assert(lines_from(s, pos as int) =~= seq![line@]);
                assert(views_of(out@) + lines_from(s, n as int)
                    =~= views_of(out0) + lines_from(s, pos as int));
            }
            pos = n;
        }
    }
    proof {
        assert(views_of(out@) + lines_from(s, pos as int) =~= views_of(out@));
    }
    out
}

/// The whitespace-separated tokens of `s` starting at position `i`, as
/// `str::split_whitespace` yields them.
pub open spec fn tokens_from(s: Seq<char>, i: int) -> Seq<Seq<char>>
    decreases s.len() - i via tokens_from_decreases
{
    if i < 0 || i >= s.len() {
        Seq::empty()
    } else {
        let a = find_nonspace(s, i);
        if a >= s.len() {
            Seq::empty()
        } else {
            let b = find_space(s, a);
            seq![s.subrange(a, b)] + tokens_from(s, b)
        }
    }
}

#[via_fn]
proof fn tokens_from_decreases(s: Seq<char>, i: int) {
    if 0 <= i < s.len() {
        lemma_find_nonspace(s, i);
        let a = find_nonspace(s, i);
        if a < s.len() {
            lemma_find_space(s, a);
        }
    }
}

/// The whitespace-separated tokens of `s`.
pub open spec fn spec_tokens(s: Seq<char>) -> Seq<Seq<char>> {
    tokens_from(s, 0)
}

/// Splits `text` on whitespace, dropping all separators.
pub fn split_tokens(text: &str) -> (r: Vec<String>)
    ensures
        views_of(r@) == spec_tokens(text@),
{
    let ghost s = text@;
    let n: usize = text.unicode_len();
    let mut out: Vec<String> = Vec::new();
    let mut pos: usize = 0;
    proof {
        assert(views_of(out@) =~= Seq::<Seq<char>>::empty());
        assert(Seq::<Seq<char>>::empty() + tokens_from(s, 0) =~= tokens_from(s, 0));
    }
    while pos < n
        invariant
            n == s.len(),
            text@ == s,
            pos <= n,
            spec_tokens(s) == views_of(out@) + tokens_from(s, pos as int),
        decreases n - pos,
    {
        let ghost out0 = out@;
        let mut a: usize = pos;
        while a < n && char_is_space(text.get_char(a))
            invariant
                pos <= a <= n,
                n == s.len(),
                text@ == s,
                forall|k: int| pos <= k < a ==> is_space(s[k]),
            decreases n - a,
        {
            a = a + 1;
        }
        proof {
            lemma_find_nonspace(s, pos as int);
            assert(a == find_nonspace(s, pos as int));
        }
        if a == n {
            proof {
                assert(tokens_from(s, pos as int) =~= Seq::<Seq<char>>::empty());
                assert(views_of(out@) + tokens_from(s, n as int)
                    =~= views_of(out@) + tokens_from(s, pos as int));
            }
            pos = n;
        } else {
            let mut b: usize = a;
            while b < n && !char_is_space(text.get_char(b))
                invariant
                    a <= b <= n,
                    n == s.len(),
                    text@ == s,
                    forall|k: int| a <= k < b ==> !is_space(s[k]),
                decreases n - b,
            {
                b = b + 1;
            }
            proof {
                lemma_find_space(s, a as int);
                assert(b == find_space(s, a as int));
            }
            let tok = text.substring_char(a, b);
            let owned = String::from_str(tok);
            let ghost tv = owned@;
            out.push(owned);
            proof {
                lemma_views_of_push(out0, out@, tv);
                assert(tokens_from(s, pos as int) == seq![tok@] + tokens_from(s, b as int));
                assert(views_of(out@) + tokens_from(s, b as int)
                    =~= views_of(out0) + tokens_from(s, pos as int));
            }
            pos = b;
        }
    }
    proof {
        assert(views_of(out@) + tokens_from(s, pos as int) =~= views_of(out@));
    }
    out
}

/// The parts of `s` starting at `i` when split on the two-character
/// carriage-return/line-feed separator, as `str::split` yields them: a
/// trailing separator produces a final empty part.
pub open spec fn split_crlf_from(s: Seq<char>, i: int) -> Seq<Seq<char>>
    decreases s.len() - i via split_crlf_from_decreases
{
    if i < 0 || i > s.len() {
        Seq::empty()
    } else {
        let j = find_crlf(s, i);
        if j >= s.len() {
            seq![s.subrange(i, s.len() as int)]
        } else {
            seq![s.subrange(i, j)] + split_crlf_from(s, j + 2)
        }
    }
}

#[via_fn]
proof fn split_crlf_from_decreases(s: Seq<char>, i: int) {
    if 0 <= i <= s.len() {
        lemma_find_crlf(s, i);
    }
}

/// The parts of `s` split on the carriage-return/line-feed separator.
pub open spec fn spec_split_crlf(s: Seq<char>) -> Seq<Seq<char>> {
    split_crlf_from(s, 0)
}

/// Splits `text` on each carriage-return/line-feed pair.
pub fn split_crlf(text: &str) -> (r: Vec<String>)
    ensures
        views_of(r@) == spec_split_crlf(text@),
{
    let ghost s = text@;
    let n: usize = text.unicode_len();
    let mut out: Vec<String> = Vec::new();
    let mut pos: usize = 0;
    let mut more: bool = true;
    proof {
        assert(views_of(out@) =~= Seq::<Seq<char>>::empty());
        assert(Seq::<Seq<char>>::empty() + split_crlf_from(s, 0) =~= split_crlf_from(s, 0));
    }
    while more
        invariant
            n == s.len(),
            text@ == s,
            pos <= n,
            more ==> spec_split_crlf(s) == views_of(out@) + split_crlf_from(s, pos as int),
            !more ==> spec_split_crlf(s) == views_of(out@),
        decreases n - pos + (if more { 1int } else { 0int }),
    {
        let ghost out0 = out@;
        let mut j: usize = pos;
        while j < n && j + 1 < n && !(text.get_char(j) == '\r' && text.get_char(j + 1) == '\n')
            invariant
                pos <= j <= n,
                n == s.len(),
                text@ == s,
                forall|k: int| pos <= k < j && k + 1 < n
                    ==> !(#[trigger] s[k] == '\r' && s[k + 1] == '\n'),
            decreases n - j,
        {
            j = j + 1;
        }
        if j < n && j + 1 < n {
            proof {
                lemma_find_crlf(s, pos as int);
                assert(j == find_crlf(s, pos as int));
            }
            let part = text.substring_char(pos, j);
            let owned = String::from_str(part);
            let ghost pv = owned@;
            out.push(owned);
            proof {
                lemma_views_of_push(out0, out@, pv);
                assert(split_crlf_from(s, pos as int)
                    == seq![part@] + split_crlf_from(s, j + 2));
                assert(views_of(out@) + split_crlf_from(s, j + 2)
                    =~= views_of(out0) + split_crlf_from(s, pos as int));
            }
            pos = j + 2;
        } else {
            proof {
                lemma_find_crlf(s, pos as int);
                assert(find_crlf(s, pos as int) >= s.len());
            }
            let part = text.substring_char(pos, n);
            let owned = String::from_str(part);
            let ghost pv = owned@;
            out.push(owned);
            proof {
                lemma_views_of_push(out0, out@, pv);
                assert(split_crlf_from(s, pos as int) =~= seq![part@]);
                assert(views_of(out@) =~= views_of(out0) + split_crlf_from(s, pos as int));
            }
            more = false;
        }
    }
    out
}

/// One past the index of the last non-whitespace character of `s` before
/// position `i`, or `0` if there is none.
pub open spec fn trim_end_idx(s: Seq<char>, i: int) -> int
    decreases i,
{
    if i <= 0 {
        0
    } else if is_space(s[i - 1]) {
        trim_end_idx(s, i - 1)
    } else {
        i
    }
}

pub proof fn lemma_trim_end_idx(s: Seq<char>, i: int)
    requires
        0 <= i <= s.len(),
    ensures
        0 <= trim_end_idx(s, i) <= i,
        trim_end_idx(s, i) > 0 ==> !is_space(s[trim_end_idx(s, i) - 1]),
        forall|j: int| trim_end_idx(s, i) <= j < i ==> is_space(s[j]),
    decreases i,
{
    if i > 0 && is_space(s[i - 1]) {
        lemma_trim_end_idx(s, i - 1);
    }
}

/// `s` with leading and trailing whitespace removed, as `str::trim`
/// removes it.
pub open spec fn spec_trim(s: Seq<char>) -> Seq<char> {
    let a = find_nonspace(s, 0);
    if a >= s.len() {
        Seq::empty()
    } else {
        s.subrange(a, trim_end_idx(s, s.len() as int))
    }
}

/// Trims whitespace from both ends of `text`.
pub fn trim_str(text: &str) -> (r: String)
    ensures
        r@ == spec_trim(text@),
{
    let ghost s = text@;
    let n: usize = text.unicode_len();
    let mut a: usize = 0;
    while a < n && char_is_space(text.get_char(a))
        invariant
            a <= n,
            n == s.len(),
            text@ == s,
            forall|k: int| 0 <= k < a ==> is_space(s[k]),
        decreases n - a,
    {
        a = a + 1;
    }
    proof {
        lemma_find_nonspace(s, 0);
        assert(a == find_nonspace(s, 0));
    }
    if a == n {
        let r = String::new();
        proof {
            assert(r@ =~= spec_trim(s));
        }
        r
    } else {
        let mut e: usize = n;
        while e > a && char_is_space(text.get_char(e - 1))
            invariant
                a <= e <= n,
                n == s.len(),
                text@ == s,
                forall|k: int| e <= k < n ==> is_space(s[k]),
            decreases e,
        {
            e = e - 1;
        }
        proof {
            lemma_trim_end_idx(s, n as int);
            assert(!is_space(s[a as int]));
            assert(e > a);
            assert(e == trim_end_idx(s, n as int));
        }
        let r = String::from_str(text.substring_char(a, e));
        r
    }
}

/// The lower-cased form of a character sequence, exactly as
/// `str::to_lowercase` computes it. The result depends on the characters
/// alone.
pub uninterp spec fn lower_of(s: Seq<char>) -> Seq<char>;

/// The upper-cased form of a character sequence, exactly as
/// `str::to_uppercase` computes it. The result depends on the characters
/// alone.
pub uninterp spec fn upper_of(s: Seq<char>) -> Seq<char>;

/// Relies on `str::to_lowercase`: full Unicode lower-casing, a pure
/// function of the characters alone.
#[verifier::external_body]
pub(crate) fn to_lower_str(text: &str) -> (r: String)
    ensures
        r@ == lower_of(text@),
{
    text.to_lowercase()
}

/// Relies on `str::to_uppercase`: full Unicode upper-casing, a pure
/// function of the characters alone.
#[verifier::external_body]
pub(crate) fn to_upper_str(text: &str) -> (r: String)
    ensures
        r@ == upper_of(text@),
{
    text.to_uppercase()
}

/// Whether `p` is a prefix of `s`.
pub open spec fn has_prefix(s: Seq<char>, p: Seq<char>) -> bool {
    p.len() <= s.len() && s.subrange(0, p.len() as int) == p
}

/// Whether `text` starts with `prefix`.
pub fn starts_with_str(text: &str, prefix: &str) -> (r: bool)
    ensures
        r == has_prefix(text@, prefix@),
{
    let ghost s = text@;
    let ghost p = prefix@;
    let n: usize = text.unicode_len();
    let m: usize = prefix.unicode_len();
    if m > n {
        return false;
    }
    let mut i: usize = 0;
    while i < m
        invariant
            i <= m <= n,
            n == s.len(),
            m == p.len(),
            text@ == s,
            prefix@ == p,
            forall|k: int| 0 <= k < i ==> s[k] == p[k],
        decreases m - i,
    {
        if text.get_char(i) != prefix.get_char(i) {
            proof {
                assert(s.subrange(0, m as int)[i as int] != p[i as int]);
            }
            return false;
        }
        i = i + 1;
    }
    proof {
        assert(s.subrange(0, m as int) =~= p);
    }
    true
}

/// Whether `p` occurs in `s` at position `k`.
pub open spec fn occurs_at(s: Seq<char>, p: Seq<char>, k: int) -> bool {
    0 <= k && k + p.len() <= s.len() && s.subrange(k, k + p.len() as int) == p
}

/// Whether `p` occurs anywhere in `s`.
pub open spec fn has_substring(s: Seq<char>, p: Seq<char>) -> bool {
    exists|k: int| occurs_at(s, p, k)
}

/// Whether `needle` occurs anywhere in `text`.
pub fn contains_str(text: &str, needle: &str) -> (r: bool)
    ensures
        r == has_substring(text@, needle@),
{
    let ghost s = text@;
    let ghost p = needle@;
    let n: usize = text.unicode_len();
    let m: usize = needle.unicode_len();
    if m > n {
        proof {
            assert(forall|k: int| !occurs_at(s, p, k));
        }
        return false;
    }
    let mut k: usize = 0;
    while k <= n - m
        invariant
            m <= n,
            k <= n - m + 1,
            n == s.len(),
            m == p.len(),
            text@ == s,
            needle@ == p,
            forall|q: int| 0 <= q < k ==> !occurs_at(s, p, q),
        decreases n + 1 - m - k,
    {
        let mut i: usize = 0;
        let mut same: bool = true;
        while i < m && same
            invariant
                i <= m,
                k + m <= n,
                n == s.len(),
                m == p.len(),
                text@ == s,
                needle@ == p,
                same ==> forall|q: int| 0 <= q < i ==> s[k + q] == p[q],
                !same ==> i < m && s[k + i] != p[i as int],
            decreases m - i + (if same { 1int } else { 0int }),
        {
            if text.get_char(k + i) != needle.get_char(i) {
                same = false;
            } else {
                i = i + 1;
            }
        }
        if same {
            proof {
                assert(s.subrange(k as int, k + m) =~= p);
                assert(occurs_at(s, p, k as int));
            }
            return true;
        }
        proof {
            assert(s.subrange(k as int, k + m)[i as int] != p[i as int]);
            assert(!occurs_at(s, p, k as int));
        }
        k = k + 1;
    }
    proof {
        assert(forall|q: int| occurs_at(s, p, q) ==> 0 <= q <= n - m);
    }
    false
}

/// Whether `a` and `b` hold the same characters.
pub fn str_eq(a: &str, b: &str) -> (r: bool)
    ensures
        r == (a@ == b@),
{
    let ghost s = a@;
    let ghost p = b@;
    let n: usize = a.unicode_len();
    let m: usize = b.unicode_len();
    if n != m {
        return false;
    }
    let mut i: usize = 0;
    while i < n
        invariant
            i <= n,
            n == s.len(),
            n == p.len(),
            a@ == s,
            b@ == p,
            forall|k: int| 0 <= k < i ==> s[k] == p[k],
        decreases n - i,
    {
        if a.get_char(i) != b.get_char(i) {
            return false;
        }
        i = i + 1;
    }
    proof {
        assert(s =~= p);
    }
    true
}

/// Whether `c` is an ASCII decimal digit.
pub open spec fn is_digit(c: char) -> bool {
    48 <= c as u32 <= 57
}

/// The numeric value of an ASCII decimal digit.
pub open spec fn digit_val(c: char) -> nat {
    ((c as u32) - 48) as nat
}

/// The value of a sequence of ASCII decimal digits, most significant first.
pub open spec fn digits_val(s: Seq<char>) -> nat
    decreases s.len(),
{
    if s.len() == 0 {
        0
    } else {
        digits_val(s.drop_last()) * 10 + digit_val(s.last())
    }
}

/// Whether every character of `s` is an ASCII decimal digit.
pub open spec fn all_digits(s: Seq<char>) -> bool {
    forall|i: int| 0 <= i < s.len() ==> is_digit(s[i])
}

pub proof fn lemma_digits_val_prefix_le(s: Seq<char>, i: int)
    requires
        0 <= i <= s.len(),
    ensures
        digits_val(s.take(i)) <= digits_val(s),
    decreases s.len(),
{
    if i == s.len() {
        assert(s.take(i) =~= s);
    } else {
        lemma_digits_val_prefix_le(s.drop_last(), i);
        assert(s.drop_last().take(i) =~= s.take(i));
    }
}

/// The value parsed from `s` as `str::parse::<usize>` parses it: an
/// optional leading plus sign, then one or more ASCII decimal digits whose
/// value fits in `usize`.
pub open spec fn spec_parse_usize(s: Seq<char>) -> Option<usize> {
    let body = if s.len() > 0 && s[0] == '+' {
        s.skip(1)
    } else {
        s
    };
    if body.len() > 0 && all_digits(body) && digits_val(body) <= usize::MAX {
        Some(digits_val(body) as usize)
    } else {
        None
    }
}

/// Parses `text` as a decimal `usize`.
pub fn parse_usize(text: &str) -> (r: Option<usize>)
    ensures
        r == spec_parse_usize(text@),
{
    let ghost s = text@;
    let n: usize = text.unicode_len();
    let start: usize = if n > 0 && text.get_char(0) == '+' {
        1
    } else {
        0
    };
    let ghost body = s.skip(start as int);
    proof {
        assert(s.skip(0) =~= s);
    }
    if n == start {
        return None;
    }
    let mut acc: usize = 0;
    let mut i: usize = start;
    while i < n
        invariant
            start <= i <= n,
            n == s.len(),
            text@ == s,
            start == 0 || start == 1,
            start == 1 ==> n > 0 && s[0] == '+',
            start == 0 ==> !(s.len() > 0 && s[0] == '+'),
            start == 0 ==> body == s,
            body == s.skip(start as int),
            forall|k: int| 0 <= k < i - start ==> is_digit(body[k]),
            acc == digits_val(body.take(i - start)),
        decreases n - i,
    {
        let c = text.get_char(i);
        let cu = c as u32;
        proof {
            assert(body[i - start] == s[i as int]);
        }
        if !(48 <= cu && cu <= 57) {
            proof {
                assert(!is_digit(body[i - start]));
                assert(!all_digits(body));
            }
            return None;
        }
        let d: usize = ((cu - 48) as u8) as usize;
        proof {
            assert(body.take(i - start + 1).drop_last() =~= body.take(i - start));
            assert(body.take(i - start + 1).last() == body[i - start]);
            assert(digits_val(body.take(i - start + 1)) == acc * 10 + d);
        }
        if acc > (usize::MAX - d) / 10 {
            proof {
                assert(acc * 10 + d > usize::MAX) by (nonlinear_arith)
                    requires
                        acc > (usize::MAX - d) / 10,
                        d <= usize::MAX,
                {
                }
                lemma_digits_val_prefix_le(body, i - start + 1);
                assert(digits_val(body) > usize::MAX);
            }
            return None;
        }
        acc = acc * 10 + d;
        i = i + 1;
    }
    proof {
        assert(body.take(n - start) =~= body);
        assert(all_digits(body));
    }
    Some(acc)
}

/// The parts joined with `sep` between consecutive parts.
pub open spec fn spec_join(ps: Seq<Seq<char>>, sep: Seq<char>) -> Seq<char>
    decreases ps.len(),
{
    if ps.len() == 0 {
        Seq::empty()
    } else if ps.len() == 1 {
        ps[0]
    } else {
        spec_join(ps.drop_last(), sep) + sep + ps.last()
    }
}

/// Joins `parts` with `sep` between consecutive parts.
pub fn join_with(parts: &Vec<String>, sep: &str) -> (r: String)
    ensures
        r@ == spec_join(views_of(parts@), sep@),
{
    let ghost ps = views_of(parts@);
    let mut acc = String::new();
    let mut i: usize = 0;
    while i < parts.len()
        invariant
            i <= parts.len(),
            ps == views_of(parts@),
            ps.len() == parts.len(),
            acc@ == spec_join(ps.take(i as int), sep@),
        decreases parts.len() - i,
    {
        if i > 0 {
            acc.append(sep);
        }
        acc.append(parts[i].as_str());
        proof {
            assert(ps.take(i + 1).drop_last() =~= ps.take(i as int));
            assert(ps.take(i + 1).last() == ps[i as int]);
            if i == 0 {
                assert(spec_join(ps.take(1), sep@) == ps[0]);
                assert(acc@ =~= ps[0]);
            }
        }
        i = i + 1;
    }
    proof {
        assert(ps.take(parts@.len() as int) =~= ps);
    }
    acc
}

} // verus!
