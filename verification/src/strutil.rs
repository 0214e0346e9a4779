//! Verified helpers over `&str` and `String`: prefix tests, substring
//! search, whitespace trimming and character appending.  All contracts
//! speak of the `Seq<char>` views of the inputs.

use vstd::prelude::*;
use vstd::string::*;

verus! {

/// The whitespace characters that frame trimming removes.
pub open spec fn is_space_char(c: char) -> bool {
    c == ' ' || c == '\t' || c == '\n' || c == '\r'
}

/// Executable test for [`is_space_char`].
pub fn is_space(c: char) -> (r: bool)
    ensures
        r == is_space_char(c),
{
    c == ' ' || c == '\t' || c == '\n' || c == '\r'
}

/// `p` is a prefix of `s`.
pub open spec fn seq_starts_with(s: Seq<char>, p: Seq<char>) -> bool {
    p.len() <= s.len() && s.subrange(0, p.len() as int) == p
}

/// `n` occurs in `h` starting at position `i`.
pub open spec fn seq_contains_at(h: Seq<char>, n: Seq<char>, i: int) -> bool {
    0 <= i && i + n.len() <= h.len() && h.subrange(i, i + n.len()) == n
}

/// `n` occurs somewhere in `h`.
pub open spec fn seq_contains(h: Seq<char>, n: Seq<char>) -> bool {
    exists|i: int| seq_contains_at(h, n, i)
}

/// Does `s` start with `p`?
pub fn str_starts_with(s: &str, p: &str) -> (r: bool)
    ensures
        r == seq_starts_with(s@, p@),
{
    let sl = s.unicode_len();
    let pl = p.unicode_len();
    if pl > sl {
        return false;
    }
    let mut i: usize = 0;
    while i < pl
        invariant
            0 <= i <= pl,
            pl == p@.len(),
            sl == s@.len(),
            pl <= sl,
            forall|j: int| 0 <= j < i ==> s@[j] == p@[j],
        decreases pl - i,
    {
        if s.get_char(i) != p.get_char(i) {
            assert(s@.subrange(0, p@.len() as int)[i as int] == s@[i as int]);
            return false;
        }
        i += 1;
    }
    assert(s@.subrange(0, p@.len() as int) =~= p@);
    true
}

/// Are two string slices equal, character for character?
pub fn str_eq(a: &str, b: &str) -> (r: bool)
    ensures
        r == (a@ == b@),
{
    let al = a.unicode_len();
    let bl = b.unicode_len();
    if al != bl {
        return false;
    }
    let mut i: usize = 0;
    while i < al
        invariant
            0 <= i <= al,
            al == a@.len(),
            al == b@.len(),
            forall|j: int| 0 <= j < i ==> a@[j] == b@[j],
        decreases al - i,
    {
        if a.get_char(i) != b.get_char(i) {
            return false;
        }
        i += 1;
    }
    assert(a@ =~= b@);
    true
}

/// Does `n` occur at position `i` of `h`?  Requires the occurrence to fit.
fn matches_at(h: &str, n: &str, i: usize) -> (r: bool)
    requires
        i + n@.len() <= h@.len(),
    ensures
        r == seq_contains_at(h@, n@, i as int),
{
    let nl = n.unicode_len();
    let hl = h.unicode_len();
    let mut j: usize = 0;
    while j < nl
        invariant
            0 <= j <= nl,
            nl == n@.len(),
            hl == h@.len(),
            i + nl <= hl,
            forall|k: int| 0 <= k < j ==> h@[i + k] == n@[k],
        decreases nl - j,
    {
        if h.get_char(i + j) != n.get_char(j) {
            assert(h@.subrange(i as int, i + n@.len())[j as int] == h@[i + j]);
            return false;
        }
        j += 1;
    }
    assert(h@.subrange(i as int, i + n@.len()) =~= n@);
    true
}

/// Does `n` occur anywhere in `h`?
pub fn str_contains(h: &str, n: &str) -> (r: bool)
    ensures
        r == seq_contains(h@, n@),
{
    let hl = h.unicode_len();
    let nl = n.unicode_len();
    if nl > hl {
        assert(forall|i: int| !seq_contains_at(h@, n@, i));
        return false;
    }
    if nl == 0 {
        assert(h@.subrange(0, 0) =~= n@);
        assert(seq_contains_at(h@, n@, 0));
        return true;
    }
    let limit: usize = hl - nl;
    let mut i: usize = 0;
    while i <= limit
        invariant
            0 <= i <= limit + 1,
            limit == hl - nl,
            hl == h@.len(),
            nl == n@.len(),
            0 < nl <= hl,
            forall|j: int| 0 <= j < i ==> !seq_contains_at(h@, n@, j),
        decreases limit + 1 - i,
    {
        if matches_at(h, n, i) {
            assert(seq_contains(h@, n@));
            return true;
        }
        i += 1;
    }
    assert(forall|j: int| j > limit ==> !seq_contains_at(h@, n@, j));
    false
}

/// Number of leading whitespace characters of `s`.
pub open spec fn ws_prefix_len(s: Seq<char>) -> int
    decreases s.len(),
{
    if s.len() == 0 {
        0
    } else if is_space_char(s[0]) {
        1 + ws_prefix_len(s.subrange(1, s.len() as int))
    } else {
        0
    }
}

/// Number of trailing whitespace characters of `s`.
pub open spec fn ws_suffix_len(s: Seq<char>) -> int
    decreases s.len(),
{
    if s.len() == 0 {
        0
    } else if is_space_char(s[s.len() - 1]) {
        1 + ws_suffix_len(s.subrange(0, s.len() - 1))
    } else {
        0
    }
}

/// `s` with leading and trailing whitespace removed.
pub open spec fn spec_trim(s: Seq<char>) -> Seq<char> {
    if ws_prefix_len(s) == s.len() {
        Seq::empty()
    } else {
        s.subrange(ws_prefix_len(s), s.len() - ws_suffix_len(s))
    }
}

/// The leading-whitespace count is the first index holding a
/// non-whitespace character (or the length, if there is none).
pub proof fn lemma_ws_prefix_len(s: Seq<char>)
    ensures
        0 <= ws_prefix_len(s) <= s.len(),
        forall|j: int| 0 <= j < ws_prefix_len(s) ==> is_space_char(s[j]),
        ws_prefix_len(s) < s.len() ==> !is_space_char(s[ws_prefix_len(s)]),
    decreases s.len(),
{
    if s.len() > 0 && is_space_char(s[0]) {
        let t = s.subrange(1, s.len() as int);
        lemma_ws_prefix_len(t);
        assert forall|j: int| 0 <= j < ws_prefix_len(s) implies is_space_char(s[j]) by {
            if j >= 1 {
                assert(t[j - 1] == s[j]);
            }
        }
        if ws_prefix_len(t) < t.len() {
            assert(s[ws_prefix_len(t) + 1] == t[ws_prefix_len(t)]);
        }
    }
}

/// Any index below which everything is whitespace, and at which (if in
/// range) something is not, is the leading-whitespace count.
pub proof fn lemma_ws_prefix_len_is(s: Seq<char>, i: int)
    requires
        0 <= i <= s.len(),
        forall|j: int| 0 <= j < i ==> is_space_char(s[j]),
        i < s.len() ==> !is_space_char(s[i]),
    ensures
        ws_prefix_len(s) == i,
    decreases s.len(),
{
    if i == 0 {
        if s.len() > 0 {
            assert(!is_space_char(s[0]));
        }
    } else {
        assert(is_space_char(s[0]));
        let t = s.subrange(1, s.len() as int);
        assert(forall|j: int| 0 <= j < i - 1 ==> t[j] == s[j + 1]);
        if i - 1 < t.len() {
            assert(t[i - 1] == s[i]);
        }
        lemma_ws_prefix_len_is(t, i - 1);
    }
}

/// The trailing-whitespace count, characterized from the end of `s`.
pub proof fn lemma_ws_suffix_len(s: Seq<char>)
    ensures
        0 <= ws_suffix_len(s) <= s.len(),
        forall|j: int| s.len() - ws_suffix_len(s) <= j < s.len() ==> is_space_char(s[j]),
        ws_suffix_len(s) < s.len() ==> !is_space_char(s[s.len() - ws_suffix_len(s) - 1]),
    decreases s.len(),
{
    if s.len() > 0 && is_space_char(s[s.len() - 1]) {
        let t = s.subrange(0, s.len() - 1);
        lemma_ws_suffix_len(t);
        assert(forall|j: int| 0 <= j < t.len() ==> s[j] == t[j]);
    }
}

/// Any trailing count whose range is all whitespace, preceded (if in
/// range) by something that is not, is the trailing-whitespace count.
pub proof fn lemma_ws_suffix_len_is(s: Seq<char>, k: int)
    requires
        0 <= k <= s.len(),
        forall|j: int| s.len() - k <= j < s.len() ==> is_space_char(s[j]),
        k < s.len() ==> !is_space_char(s[s.len() - k - 1]),
    ensures
        ws_suffix_len(s) == k,
    decreases s.len(),
{
    if k == 0 {
        if s.len() > 0 {
            assert(!is_space_char(s[s.len() - 1]));
        }
    } else {
        assert(is_space_char(s[s.len() - 1]));
        let t = s.subrange(0, s.len() - 1);
        assert(forall|j: int| 0 <= j < t.len() ==> t[j] == s[j]);
        lemma_ws_suffix_len_is(t, k - 1);
    }
}

/// If some character of `s` is not whitespace, the trimmed ranges do
/// not cross: the first non-whitespace index lies strictly below the
/// start of the trailing whitespace run.
pub proof fn lemma_trim_bounds(s: Seq<char>)
    requires
        ws_prefix_len(s) < s.len(),
    ensures
        ws_prefix_len(s) < s.len() - ws_suffix_len(s),
        0 <= ws_suffix_len(s) <= s.len(),
{
    lemma_ws_prefix_len(s);
    lemma_ws_suffix_len(s);
    let p = ws_prefix_len(s);
    let k = ws_suffix_len(s);
    if p >= s.len() - k {
        assert(is_space_char(s[p]));
    }
}

/// `str::trim` restricted to ASCII whitespace: removes leading and
/// trailing spaces, tabs, newlines and carriage returns.
pub fn str_trim(s: &str) -> (r: &str)
    ensures
        r@ == spec_trim(s@),
{
    let len = s.unicode_len();
    let mut start: usize = 0;
    while start < len && is_space(s.get_char(start))
        invariant
            0 <= start <= len,
            len == s@.len(),
            forall|j: int| 0 <= j < start ==> is_space_char(s@[j]),
        decreases len - start,
    {
        start += 1;
    }
    proof {
        lemma_ws_prefix_len_is(s@, start as int);
    }
    if start == len {
        let r = s.substring_char(len, len);
        assert(r@ =~= spec_trim(s@));
        return r;
    }
    let mut end: usize = len;
    while end > start && is_space(s.get_char(end - 1))
        invariant
            start <= end <= len,
            len == s@.len(),
            start < len,
            !is_space_char(s@[start as int]),
            forall|j: int| end <= j < len ==> is_space_char(s@[j]),
        decreases end,
    {
        end -= 1;
    }
    proof {
        if end > start {
            lemma_ws_suffix_len_is(s@, len - end);
        } else {
            assert(end == start);
            assert(!is_space_char(s@[end as int]));
            lemma_ws_suffix_len_is(s@, len - end);
        }
        lemma_trim_bounds(s@);
    }
    s.substring_char(start, end)
}

/// Relies on `String::push`: appends exactly the given character.
#[verifier::external_body]
pub fn push_char(s: &mut String, c: char)
    ensures
        final(s)@ == old(s)@.push(c),
{
    s.push(c)
}

/// Relies on `String::pop`: removes and returns the last character,
/// or does nothing to an empty string.
#[verifier::external_body]
pub fn pop_char(s: &mut String) -> (r: Option<char>)
    ensures
        old(s)@.len() == 0 ==> final(s)@ == old(s)@ && r is None,
        old(s)@.len() > 0 ==> final(s)@ == old(s)@.drop_last() && r == Some(old(s)@.last()),
{
    s.pop()
}

/// The position just after the whitespace-free run starting at `i`.
pub open spec fn spec_token_end(s: Seq<char>, i: int) -> int
    decreases s.len() - i,
{
    if i < 0 {
        i
    } else if i < s.len() && !is_space_char(s[i]) {
        spec_token_end(s, i + 1)
    } else {
        i
    }
}

/// Any position reached by walking a whitespace-free run to its end
/// is the run's end.
pub proof fn lemma_token_end_is(s: Seq<char>, i: int, j: int)
    requires
        0 <= i <= j <= s.len(),
        forall|k: int| i <= k < j ==> !is_space_char(#[trigger] s[k]),
        j < s.len() ==> is_space_char(s[j]),
    ensures
        spec_token_end(s, i) == j,
    decreases j - i,
{
    if i < j {
        assert(!is_space_char(s[i]));
        lemma_token_end_is(s, i + 1, j);
    }
}

/// The whitespace-separated tokens of `s`, from position `i` on.
pub open spec fn spec_tokens_from(s: Seq<char>, i: int) -> Seq<Seq<char>>
    decreases s.len() - i,
{
    if !(0 <= i <= s.len()) {
        Seq::empty()
    } else if i == s.len() {
        Seq::empty()
    } else if is_space_char(s[i]) {
        spec_tokens_from(s, i + 1)
    } else {
        let j = spec_token_end(s, i);
        if i < j <= s.len() {
            seq![s.subrange(i, j)] + spec_tokens_from(s, j)
        } else {
            Seq::empty()
        }
    }
}

/// The whitespace-separated tokens of `s`: maximal runs free of
/// whitespace, in order.
pub open spec fn spec_tokens(s: Seq<char>) -> Seq<Seq<char>> {
    spec_tokens_from(s, 0)
}

/// The views of a vector of strings.
pub open spec fn strings_view(v: Seq<String>) -> Seq<Seq<char>> {
    v.map(|i: int, t: String| t@)
}

/// Split on whitespace.
pub fn split_ws(s: &str) -> (r: Vec<String>)
    ensures
        strings_view(r@) == spec_tokens(s@),
{
    let len = s.unicode_len();
    let mut out: Vec<String> = Vec::new();
    let mut i: usize = 0;
    proof {
        assert(strings_view(out@) =~= Seq::<Seq<char>>::empty());
    }
    while i < len
        invariant
            0 <= i <= len,
            len == s@.len(),
            strings_view(out@) + spec_tokens_from(s@, i as int) == spec_tokens(s@),
        decreases len - i,
    {
        if is_space(s.get_char(i)) {
            i += 1;
        } else {
            let mut j = i + 1;
            while j < len && !is_space(s.get_char(j))
                invariant
                    i < j <= len,
                    len == s@.len(),
                    forall|k: int| i <= k < j ==> !is_space_char(#[trigger] s@[k]),
                decreases len - j,
            {
                j += 1;
            }
            proof {
                lemma_token_end_is(s@, i as int, j as int);
            }
            let tok = s.substring_char(i, j);
            let ghost oldtoks = strings_view(out@);
            out.push(String::from_str(tok));
            proof {
                assert(strings_view(out@) =~= oldtoks.push(s@.subrange(i as int, j as int)));
                assert(oldtoks.push(s@.subrange(i as int, j as int))
                    + spec_tokens_from(s@, j as int) =~= oldtoks + (seq![
                    s@.subrange(i as int, j as int),
                ] + spec_tokens_from(s@, j as int)));
            }
            i = j;
        }
    }
    proof {
        assert(strings_view(out@) + Seq::<Seq<char>>::empty() =~= strings_view(out@));
    }
    out
}

} // verus!
