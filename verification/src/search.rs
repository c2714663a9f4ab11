//! Case-insensitive substring search: losslessly splits a string into the
//! pieces around and at each match.

use vstd::prelude::*;

verus! {

/// What `str::to_lowercase` returns for the given characters.
pub uninterp spec fn lower_of(s: Seq<char>) -> Seq<char>;

/// Relies on `str::to_lowercase`: the result depends on the characters
/// alone, and it is empty exactly when the input is (each character maps to
/// at least one character).
#[verifier::external_body]
fn lowercase(s: &str) -> (r: String)
    ensures
        r@ == lower_of(s@),
        s@.len() == 0 ==> r@.len() == 0,
        s@.len() > 0 ==> r@.len() > 0,
{
    s.to_lowercase()
}

/// `needle` occurs in `hay` at position `i`.
pub open spec fn occurs_at(hay: Seq<char>, needle: Seq<char>, i: int) -> bool {
    0 <= i && i + needle.len() <= hay.len() && hay.subrange(i, i + needle.len()) == needle
}

/// The first position at or after `from` where `needle` occurs in `hay`.
pub open spec fn spec_find(hay: Seq<char>, needle: Seq<char>, from: int) -> Option<int>
    decreases hay.len() - from,
{
    if from < 0 || from + needle.len() > hay.len() {
        None
    } else if needle.len() == 0 {
        Some(from)
    } else if occurs_at(hay, needle, from) {
        Some(from)
    } else {
        spec_find(hay, needle, from + 1)
    }
}

/// A found position occurs, at or after the start of the search.
pub proof fn lemma_find_props(hay: Seq<char>, needle: Seq<char>, from: int)
    ensures
        match spec_find(hay, needle, from) {
            Some(i) => from <= i && occurs_at(hay, needle, i),
            None => true,
        },
    decreases hay.len() - from,
{
    if !(from < 0 || from + needle.len() > hay.len()) {
        if needle.len() == 0 {
            assert(hay.subrange(from, from + needle.len()) =~= needle);
            assert(occurs_at(hay, needle, from));
        } else if !occurs_at(hay, needle, from) {
            lemma_find_props(hay, needle, from + 1);
        }
    }
}

/// Where nothing occurs, nothing is found.
pub proof fn lemma_find_is_none(hay: Seq<char>, needle: Seq<char>, from: int)
    requires
        forall|p: int| from <= p ==> !occurs_at(hay, needle, p),
    ensures
        spec_find(hay, needle, from) is None,
    decreases hay.len() - from,
{
    if !(from < 0 || from + needle.len() > hay.len()) {
        if needle.len() == 0 {
            assert(hay.subrange(from, from + needle.len()) =~= needle);
            assert(occurs_at(hay, needle, from));
            assert(false);
        }
        lemma_find_is_none(hay, needle, from + 1);
    }
}

/// The earliest occurrence at or after `from` is what is found.
pub proof fn lemma_find_is_some(hay: Seq<char>, needle: Seq<char>, from: int, i: int)
    requires
        0 <= from <= i,
        occurs_at(hay, needle, i),
        forall|p: int| from <= p < i ==> !occurs_at(hay, needle, p),
    ensures
        spec_find(hay, needle, from) == Some(i),
    decreases hay.len() - from,
{
    if needle.len() == 0 && from < i {
        assert(hay.subrange(from, from + needle.len()) =~= needle);
        assert(occurs_at(hay, needle, from));
        assert(false);
    }
    if from < i {
        lemma_find_is_some(hay, needle, from + 1, i);
    }
}

/// The pieces `find_all_substr` cuts `src` into, guided by the lowered text
/// `low` (of the same length as `src`) and the lowered pattern `sub`: before
/// each match of `sub` in `low`, the piece up to the match, then the
/// matching piece; after the last match, the non-empty remainder, if any.
pub open spec fn spec_split_matches(src: Seq<char>, low: Seq<char>, sub: Seq<char>) -> Seq<
    Seq<char>,
>
    decreases src.len(),
{
    if sub.len() == 0 || low.len() != src.len() {
        seq![src]
    } else {
        match spec_find(low, sub, 0) {
            None => if src.len() == 0 {
                Seq::empty()
            } else {
                seq![src]
            },
            Some(i) => if 0 <= i && i + sub.len() <= src.len() {
                seq![src.take(i), src.subrange(i, i + sub.len())] + spec_split_matches(
                    src.skip(i + sub.len()),
                    low.skip(i + sub.len()),
                    sub,
                )
            } else {
                seq![src]
            },
        }
    }
}

/// Searching a suffix finds the same positions, shifted.
proof fn lemma_find_shift(hay: Seq<char>, needle: Seq<char>, pos: int, from: int)
    requires
        0 <= pos <= hay.len(),
        0 <= from,
    ensures
        match spec_find(hay.skip(pos), needle, from) {
            None => spec_find(hay, needle, pos + from) is None,
            Some(i) => spec_find(hay, needle, pos + from) == Some(pos + i),
        },
    decreases hay.len() - from,
{
    let suffix = hay.skip(pos);
    if !(from < 0 || from + needle.len() > suffix.len()) {
        assert(suffix.subrange(from, from + needle.len()) =~= hay.subrange(
            pos + from,
            pos + from + needle.len(),
        ));
        if needle.len() > 0 && !occurs_at(suffix, needle, from) {
            lemma_find_shift(hay, needle, pos, from + 1);
        }
    }
}

/// Finds the first occurrence of `needle` in `hay` at or after position
/// `from`, by characters.
fn find_at(hay: &str, needle: &str, from: usize) -> (r: Option<usize>)
    ensures
        match spec_find(hay@, needle@, from as int) {
            None => r is None,
            Some(i) => r matches Some(u) && u == i,
        },
{
    let n = hay.unicode_len();
    let m = needle.unicode_len();
    if from > n || m > n - from {
        proof {
            lemma_find_props(hay@, needle@, from as int);
            if spec_find(hay@, needle@, from as int) is Some {
                assert(false);
            }
        }
        return None;
    }
    if m == 0 {
        proof {
            assert(hay@.subrange(from as int, from as int) =~= needle@);
        }
        return Some(from);
    }
    let mut p: usize = from;
    while p <= n - m
        invariant
            from <= p,
            1 <= m <= n,
            p <= n - m + 1,
            n == hay@.len(),
            m == needle@.len(),
            forall|q: int| from <= q < p ==> !occurs_at(hay@, needle@, q),
        decreases n - p,
    {
        let piece = hay.substring_char(p, p + m);
        if crate::text::str_eq(piece, needle) {
            proof {
                assert(occurs_at(hay@, needle@, p as int));
                lemma_find_is_some(hay@, needle@, from as int, p as int);
            }
            return Some(p);
        }
        proof {
            assert(hay@.subrange(p as int, p + m) != needle@);
        }
        p += 1;
    }
    proof {
        assert forall|q: int| from <= q implies !occurs_at(hay@, needle@, q) by {
            if q + needle@.len() <= hay@.len() {
                assert(q < p);
            }
        }
        lemma_find_is_none(hay@, needle@, from as int);
    }
    None
}

/// Looks case-insensitively for `sub` in `source` and losslessly splits
/// `source` into the pieces between and at the matches, in order.
///
/// Matching compares the lowercased text against the lowercased pattern,
/// character by character. In the rare case that lowercasing changes the
/// number of characters of `source`, the alignment between the two is lost
/// and `source` comes back as a single piece.
pub fn find_all_substr<'a>(source: &'a str, sub: &str) -> (r: Vec<&'a str>)
    requires
        sub@.len() > 0,
    ensures
        lower_of(source@).len() == source@.len() ==> r.deep_view() == spec_split_matches(
            source@,
            lower_of(source@),
            lower_of(sub@),
        ),
        lower_of(source@).len() != source@.len() ==> r.deep_view() =~= seq![source@],
{
    let low = lowercase(source);
    let subl = lowercase(sub);
    let n = source.unicode_len();
    let nl = low.as_str().unicode_len();
    let m = subl.as_str().unicode_len();
    let mut result: Vec<&'a str> = Vec::new();
    if nl != n {
        result.push(source);
        proof {
            assert(result.deep_view() =~= seq![source@]);
        }
        return result;
    }
    let ghost src = source@;
    let ghost lowv = low@;
    let ghost subv = subl@;
    let ghost whole = spec_split_matches(src, lowv, subv);
    let mut pos: usize = 0;
    proof {
        assert(src.skip(0) =~= src);
        assert(lowv.skip(0) =~= lowv);
        assert(result.deep_view() =~= Seq::<Seq<char>>::empty());
        assert(result.deep_view() + spec_split_matches(src, lowv, subv) =~= whole);
    }
    while pos < n
        invariant
            src == source@,
            lowv == low@,
            subv == subl@,
            pos <= n,
            n == src.len(),
            n == lowv.len(),
            m == subv.len(),
            m > 0,
            lowv == lower_of(src),
            subv == lower_of(sub@),
            whole == spec_split_matches(src, lowv, subv),
            result.deep_view() + spec_split_matches(src.skip(pos as int), lowv.skip(pos as int), subv)
                == whole,
        decreases n - pos,
    {
        let ghost rest_split = spec_split_matches(src.skip(pos as int), lowv.skip(pos as int), subv);
        match find_at(low.as_str(), subl.as_str(), pos) {
            None => {
                proof {
                    lemma_find_shift(lowv, subv, pos as int, 0);
                    if spec_find(lowv.skip(pos as int), subv, 0) is Some {
                        assert(spec_find(lowv, subv, pos as int) is Some);
                        assert(false);
                    }
                    assert(src.skip(pos as int).len() > 0);
                    assert(rest_split == seq![src.skip(pos as int)]);
                }
                let tail = source.substring_char(pos, n);
                proof {
                    assert(tail@ =~= src.skip(pos as int));
                }
                result.push(tail);
                proof {
                    assert(result.deep_view() =~= whole);
                }
                return result;
            },
            Some(i) => {
                proof {
                    lemma_find_props(lowv, subv, pos as int);
                    lemma_find_shift(lowv, subv, pos as int, 0);
                    match spec_find(lowv.skip(pos as int), subv, 0) {
                        Some(j) => {
                            assert(spec_find(lowv, subv, pos as int) == Some(pos + j));
                            assert(pos + j == i);
                        },
                        None => {
                            assert(spec_find(lowv, subv, pos as int) is None);
                            assert(false);
                        },
                    }
                }
                let ghost j = i - pos;
                let ghost pre_dv = result.deep_view();
                let before = source.substring_char(pos, i);
                let piece = source.substring_char(i, i + m);
                result.push(before);
                result.push(piece);
                proof {
                    assert(before@ =~= src.skip(pos as int).take(j));
                    assert(piece@ =~= src.skip(pos as int).subrange(j, j + m));
                    assert(src.skip(pos as int).skip(j + m) =~= src.skip(i + m));
                    assert(lowv.skip(pos as int).skip(j + m) =~= lowv.skip(i + m));
                    assert(rest_split == seq![before@, piece@] + spec_split_matches(
                        src.skip(i + m),
                        lowv.skip(i + m),
                        subv,
                    ));
                    assert(result.deep_view() =~= pre_dv + seq![before@, piece@]);
                    assert(result.deep_view() + spec_split_matches(
                        src.skip(i + m),
                        lowv.skip(i + m),
                        subv,
                    ) =~= whole);
                }
                pos = i + m;
            },
        }
    }
    proof {
        assert(src.skip(pos as int).len() == 0);
        assert(lowv.skip(pos as int).len() == 0);
        assert(spec_find(lowv.skip(pos as int), subv, 0) is None);
        assert(spec_split_matches(src.skip(pos as int), lowv.skip(pos as int), subv)
            =~= Seq::<Seq<char>>::empty());
        assert(result.deep_view() =~= whole);
    }
    result
}

} // verus!
