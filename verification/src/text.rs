//! Character and string primitives used by the matcher: the whitespace
//! class, trimming, prefix tests, and token runs, each with its
//! mathematical description over `Seq<char>`.

use vstd::prelude::*;

verus! {

/// The characters the engine treats as whitespace: the Unicode
/// `White_Space` class.
pub open spec fn is_space_char(c: char) -> bool {
    ||| c == '\t'
    ||| c == '\n'
    ||| c == '\u{b}'
    ||| c == '\u{c}'
    ||| c == '\r'
    ||| c == ' '
    ||| c == '\u{85}'
    ||| c == '\u{a0}'
    ||| c == '\u{1680}'
    ||| (0x2000 <= c as u32 && c as u32 <= 0x200a)
    ||| c == '\u{2028}'
    ||| c == '\u{2029}'
    ||| c == '\u{202f}'
    ||| c == '\u{205f}'
    ||| c == '\u{3000}'
}

/// Whether `c` is whitespace.
pub fn is_space(c: char) -> (b: bool)
    ensures
        b == is_space_char(c),
{
    c == '\t' || c == '\n' || c == '\u{b}' || c == '\u{c}' || c == '\r' || c == ' ' || c == '\u{85}'
        || c == '\u{a0}' || c == '\u{1680}' || (0x2000 <= c as u32 && c as u32 <= 0x200a) || c
        == '\u{2028}' || c == '\u{2029}' || c == '\u{202f}' || c == '\u{205f}' || c == '\u{3000}'
}

/// Relies on `String::push`: it appends exactly the given character.
#[verifier::external_body]
pub(crate) fn push_char(s: &mut String, c: char)
    ensures
        final(s)@ == old(s)@.push(c),
{
    s.push(c);
}

/// The length of the longest prefix of `s` whose characters all satisfy `p`.
pub open spec fn run_len(s: Seq<char>, p: spec_fn(char) -> bool) -> nat
    decreases s.len(),
{
    if s.len() > 0 && p(s[0]) {
        1 + run_len(s.drop_first(), p)
    } else {
        0
    }
}

pub proof fn lemma_run_len_props(s: Seq<char>, p: spec_fn(char) -> bool)
    ensures
        run_len(s, p) <= s.len(),
        forall|k: int| 0 <= k < run_len(s, p) ==> p(s[k]),
        run_len(s, p) < s.len() ==> !p(s[run_len(s, p) as int]),
    decreases s.len(),
{
    if s.len() > 0 && p(s[0]) {
        lemma_run_len_props(s.drop_first(), p);
        assert forall|k: int| 0 <= k < run_len(s, p) implies p(s[k]) by {
            if k > 0 {
                assert(s.drop_first()[k - 1] == s[k]);
            }
        }
        if run_len(s, p) < s.len() {
            assert(s.drop_first()[run_len(s, p) - 1] == s[run_len(s, p) as int]);
        }
    }
}

/// `run_len` is the unique `n` bounded by the run's characterization.
pub proof fn lemma_run_len_is(s: Seq<char>, p: spec_fn(char) -> bool, n: int)
    requires
        0 <= n <= s.len(),
        forall|k: int| 0 <= k < n ==> p(s[k]),
        n < s.len() ==> !p(s[n]),
    ensures
        run_len(s, p) == n,
    decreases s.len(),
{
    if s.len() > 0 && p(s[0]) {
        assert forall|k: int| 0 <= k < n - 1 implies p(s.drop_first()[k]) by {
            assert(s.drop_first()[k] == s[k + 1]);
        }
        if n - 1 < s.drop_first().len() {
            assert(s.drop_first()[n - 1] == s[n]);
        }
        lemma_run_len_is(s.drop_first(), p, n - 1);
    }
}

/// The number of leading whitespace characters of `s`.
pub open spec fn leading_ws(s: Seq<char>) -> nat {
    run_len(s, |c: char| is_space_char(c))
}

/// The number of trailing whitespace characters of `s`.
pub open spec fn trailing_ws(s: Seq<char>) -> nat
    decreases s.len(),
{
    if s.len() > 0 && is_space_char(s.last()) {
        1 + trailing_ws(s.drop_last())
    } else {
        0
    }
}

pub proof fn lemma_trailing_ws_props(s: Seq<char>)
    ensures
        trailing_ws(s) <= s.len(),
        forall|k: int| s.len() - trailing_ws(s) <= k < s.len() ==> is_space_char(s[k]),
        trailing_ws(s) < s.len() ==> !is_space_char(s[s.len() - trailing_ws(s) - 1]),
    decreases s.len(),
{
    if s.len() > 0 && is_space_char(s.last()) {
        lemma_trailing_ws_props(s.drop_last());
        assert forall|k: int| s.len() - trailing_ws(s) <= k < s.len() implies is_space_char(
            s[k],
        ) by {
            if k < s.len() - 1 {
                assert(s.drop_last()[k] == s[k]);
            }
        }
        if trailing_ws(s) < s.len() {
            assert(s.drop_last()[s.len() - trailing_ws(s) - 1] == s[s.len() - trailing_ws(s) - 1]);
        }
    }
}

pub proof fn lemma_trailing_ws_is(s: Seq<char>, n: int)
    requires
        0 <= n <= s.len(),
        forall|k: int| s.len() - n <= k < s.len() ==> is_space_char(s[k]),
        n < s.len() ==> !is_space_char(s[s.len() - n - 1]),
    ensures
        trailing_ws(s) == n,
    decreases s.len(),
{
    if s.len() > 0 && is_space_char(s.last()) {
        assert forall|k: int| s.drop_last().len() - (n - 1) <= k < s.drop_last().len()
            implies is_space_char(s.drop_last()[k]) by {
            assert(s.drop_last()[k] == s[k]);
        }
        if n - 1 < s.drop_last().len() {
            assert(s.drop_last()[s.drop_last().len() - (n - 1) - 1] == s[s.len() - n - 1]);
        }
        lemma_trailing_ws_is(s.drop_last(), n - 1);
    }
}

/// `s` with leading and trailing whitespace removed.
pub open spec fn spec_trim(s: Seq<char>) -> Seq<char> {
    if leading_ws(s) == s.len() {
        Seq::empty()
    } else {
        s.subrange(leading_ws(s) as int, s.len() - trailing_ws(s))
    }
}

/// When `s` is not all whitespace, the leading and trailing runs do not
/// overlap.
pub proof fn lemma_trim_bounds(s: Seq<char>)
    requires
        leading_ws(s) < s.len(),
    ensures
        leading_ws(s) + trailing_ws(s) < s.len(),
{
    let p = |c: char| is_space_char(c);
    lemma_run_len_props(s, p);
    lemma_trailing_ws_props(s);
    if s.len() - trailing_ws(s) <= leading_ws(s) {
        assert(is_space_char(s[leading_ws(s) as int]));
    }
}

/// Whether `p` is a prefix of `s`.
pub open spec fn is_prefix_of(p: Seq<char>, s: Seq<char>) -> bool {
    p.len() <= s.len() && (forall|i: int| 0 <= i < p.len() ==> p[i] == s[i])
}

/// Whether every character of `s` is whitespace.
pub open spec fn all_ws(s: Seq<char>) -> bool {
    forall|i: int| 0 <= i < s.len() ==> is_space_char(s[i])
}

/// Whether `s` is whitespace, as an executable test.
pub fn is_space_str(s: &str) -> (b: bool)
    ensures
        b == all_ws(s@),
{
    let n = s.unicode_len();
    let mut i: usize = 0;
    while i < n
        invariant
            i <= n,
            n == s@.len(),
            forall|k: int| 0 <= k < i ==> is_space_char(s@[k]),
        decreases n - i,
    {
        if !is_space(s.get_char(i)) {
            return false;
        }
        i += 1;
    }
    true
}

/// The trimmed substring of `s`.
pub fn trim_str<'a>(s: &'a str) -> (r: &'a str)
    ensures
        r@ == spec_trim(s@),
{
    let n = s.unicode_len();
    let mut i: usize = 0;
    while i < n && is_space(s.get_char(i))
        invariant
            i <= n,
            n == s@.len(),
            forall|k: int| 0 <= k < i ==> is_space_char(s@[k]),
        decreases n - i,
    {
        i += 1;
    }
    proof {
        lemma_run_len_is(s@, |c: char| is_space_char(c), i as int);
    }
    if i == n {
        let r = s.substring_char(n, n);
        proof {
            assert(r@ =~= spec_trim(s@));
        }
        return r;
    }
    let mut j: usize = n;
    while is_space(s.get_char(j - 1))
        invariant
            i < j <= n,
            n == s@.len(),
            !is_space_char(s@[i as int]),
            forall|k: int| j <= k < n ==> is_space_char(s@[k]),
        decreases j,
    {
        j -= 1;
    }
    proof {
        lemma_trailing_ws_is(s@, n - j);
    }
    let r = s.substring_char(i, j);
    proof {
        assert(r@ =~= spec_trim(s@));
    }
    r
}

/// Whether `p` is a prefix of `s`, as an executable test.
pub fn starts_with_str(s: &str, p: &str) -> (b: bool)
    ensures
        b == is_prefix_of(p@, s@),
{
    let np = p.unicode_len();
    let ns = s.unicode_len();
    if np > ns {
        return false;
    }
    let mut i: usize = 0;
    while i < np
        invariant
            i <= np,
            np == p@.len(),
            ns == s@.len(),
            np <= ns,
            forall|k: int| 0 <= k < i ==> p@[k] == s@[k],
        decreases np - i,
    {
        if p.get_char(i) != s.get_char(i) {
            return false;
        }
        i += 1;
    }
    true
}

/// Whether two strings hold the same characters.
pub fn str_eq(a: &str, b: &str) -> (r: bool)
    ensures
        r == (a@ == b@),
{
    let na = a.unicode_len();
    let nb = b.unicode_len();
    if na != nb {
        return false;
    }
    let mut i: usize = 0;
    while i < na
        invariant
            i <= na,
            na == a@.len(),
            nb == b@.len(),
            na == nb,
            forall|k: int| 0 <= k < i ==> a@[k] == b@[k],
        decreases na - i,
    {
        if a.get_char(i) != b.get_char(i) {
            return false;
        }
        i += 1;
    }
    proof {
        assert(a@ =~= b@);
    }
    true
}

/// The length of the leading run of non-whitespace characters: how far a
/// `Word` token reaches.
pub open spec fn word_len(s: Seq<char>) -> nat {
    run_len(s, |c: char| !is_space_char(c))
}

/// The number of characters before the first newline: how far a raw `Line`
/// token reaches.
pub open spec fn line_len(s: Seq<char>) -> nat {
    run_len(s, |c: char| c != '\n')
}

/// Counts the leading non-whitespace characters of `s`.
pub fn count_word(s: &str) -> (n: usize)
    ensures
        n == word_len(s@),
{
    let len = s.unicode_len();
    let mut i: usize = 0;
    while i < len && !is_space(s.get_char(i))
        invariant
            i <= len,
            len == s@.len(),
            forall|k: int| 0 <= k < i ==> !is_space_char(s@[k]),
        decreases len - i,
    {
        i += 1;
    }
    proof {
        lemma_run_len_is(s@, |c: char| !is_space_char(c), i as int);
    }
    i
}

/// Counts the characters of `s` before its first newline.
pub fn count_line(s: &str) -> (n: usize)
    ensures
        n == line_len(s@),
{
    let len = s.unicode_len();
    let mut i: usize = 0;
    while i < len && s.get_char(i) != '\n'
        invariant
            i <= len,
            len == s@.len(),
            forall|k: int| 0 <= k < i ==> s@[k] != '\n',
        decreases len - i,
    {
        i += 1;
    }
    proof {
        lemma_run_len_is(s@, |c: char| c != '\n', i as int);
    }
    i
}


/// A sequence is all whitespace exactly when its leading whitespace run
/// covers it.
pub proof fn lemma_leading_ws_all(s: Seq<char>)
    ensures
        leading_ws(s) == s.len() <==> all_ws(s),
{
    let p = |c: char| is_space_char(c);
    lemma_run_len_props(s, p);
    if all_ws(s) {
        lemma_run_len_is(s, p, s.len() as int);
    }
}

/// A whitespace suffix only lengthens the trailing whitespace run.
pub proof fn lemma_trailing_ws_tail(s: Seq<char>, tail: Seq<char>)
    requires
        all_ws(tail),
    ensures
        trailing_ws(s + tail) == trailing_ws(s) + tail.len(),
    decreases tail.len(),
{
    if tail.len() == 0 {
        assert(s + tail =~= s);
    } else {
        assert((s + tail).last() == tail.last());
        assert((s + tail).drop_last() =~= s + tail.drop_last());
        assert(all_ws(tail.drop_last()));
        lemma_trailing_ws_tail(s, tail.drop_last());
    }
}

/// Trimming removes a whitespace suffix entirely.
pub proof fn lemma_trim_ws_tail(s: Seq<char>, tail: Seq<char>)
    requires
        all_ws(tail),
    ensures
        spec_trim(s + tail) == spec_trim(s),
{
    let p = |c: char| is_space_char(c);
    lemma_run_len_props(s, p);
    lemma_leading_ws_all(s);
    lemma_leading_ws_all(s + tail);
    if all_ws(s) {
        assert(all_ws(s + tail));
        assert(spec_trim(s + tail) =~= spec_trim(s));
    } else {
        let l = leading_ws(s) as int;
        assert(!is_space_char(s[l]));
        assert forall|k: int| 0 <= k < l implies is_space_char((s + tail)[k]) by {
            assert((s + tail)[k] == s[k]);
        }
        assert((s + tail)[l] == s[l]);
        lemma_run_len_is(s + tail, p, l);
        lemma_trailing_ws_tail(s, tail);
        lemma_trim_bounds(s);
        assert(spec_trim(s + tail) =~= spec_trim(s));
    }
}

/// A whitespace suffix does not change where the leading word ends.
pub proof fn lemma_word_len_ws_tail(s: Seq<char>, tail: Seq<char>)
    requires
        all_ws(tail),
    ensures
        word_len(s + tail) == word_len(s),
    decreases s.len(),
{
    let p = |c: char| !is_space_char(c);
    if s.len() == 0 {
        assert(s + tail =~= tail);
        if tail.len() > 0 {
            assert(is_space_char(tail[0]));
        }
    } else {
        assert((s + tail)[0] == s[0]);
        if !is_space_char(s[0]) {
            assert((s + tail).drop_first() =~= s.drop_first() + tail);
            lemma_word_len_ws_tail(s.drop_first(), tail);
        }
    }
}

/// No character of `s` is whitespace.
pub open spec fn ws_free(s: Seq<char>) -> bool {
    forall|i: int| 0 <= i < s.len() ==> !is_space_char(s[i])
}

/// A whitespace suffix does not change whether a whitespace-free prefix
/// matches.
pub proof fn lemma_prefix_ws_tail(p: Seq<char>, s: Seq<char>, tail: Seq<char>)
    requires
        all_ws(tail),
        ws_free(p),
    ensures
        is_prefix_of(p, s + tail) == is_prefix_of(p, s),
{
    if p.len() <= s.len() {
        assert forall|i: int| 0 <= i < p.len() implies (s + tail)[i] == s[i] by {}
        if is_prefix_of(p, s) {
            assert(is_prefix_of(p, s + tail));
        }
        if is_prefix_of(p, s + tail) {
            assert forall|i: int| 0 <= i < p.len() implies p[i] == s[i] by {
                assert((s + tail)[i] == s[i]);
            }
        }
    } else {
        assert(!is_prefix_of(p, s));
        if is_prefix_of(p, s + tail) {
            let i = s.len() as int;
            assert((s + tail)[i] == tail[0]);
            assert(p[i] == tail[0]);
            assert(is_space_char(tail[0]));
            assert(!is_space_char(p[i]));
        }
    }
}

} // verus!
