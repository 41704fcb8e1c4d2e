use vstd::prelude::*;
use vstd::string::StrSliceExecFns;
use crate::platform::Platform;

verus! {

/// The lowercase form of a sequence of characters, as `str::to_lowercase`
/// computes it. Unicode case folding is too large to restate here, so the
/// result is only named; every contract that speaks of case-insensitive
/// comparison goes through this name.
pub uninterp spec fn lower_of(s: Seq<char>) -> Seq<char>;

/// Relies on `str::to_lowercase`: the lowercase form of the string,
/// a function of its characters alone.
#[verifier::external_body]
pub(crate) fn lowercase(s: &str) -> (r: String)
    ensures
        r@ == lower_of(s@),
{
    s.to_lowercase()
}

/// The Levenshtein edit distance: the minimum number of character
/// insertions, deletions and substitutions that turn `a` into `b`.
pub open spec fn min3(a: nat, b: nat, c: nat) -> nat {
    if a <= b && a <= c {
        a
    } else if b <= c {
        b
    } else {
        c
    }
}

pub open spec fn edit_distance_of(a: Seq<char>, b: Seq<char>) -> nat
    decreases a.len(), b.len(),
{
    if a.len() == 0 {
        b.len()
    } else if b.len() == 0 {
        a.len()
    } else {
        let tail_a = a.drop_first();
        let tail_b = b.drop_first();
        let cost: nat = if a[0] == b[0] {
            0
        } else {
            1
        };
        min3(
            edit_distance_of(tail_a, b) + 1,
            edit_distance_of(a, tail_b) + 1,
            edit_distance_of(tail_a, tail_b) + cost,
        )
    }
}

/// Relies on `strsim::levenshtein`: the char-level Levenshtein distance
/// (minimum insertions, deletions and substitutions), computed by its
/// row-based dynamic program over `a.chars()` and `b.chars()`.
#[verifier::external_body]
pub(crate) fn edit_distance(a: &str, b: &str) -> (r: usize)
    ensures
        r as nat == edit_distance_of(a@, b@),
{
    strsim::levenshtein(a, b)
}

/// `q` occurs in `n` as a contiguous substring.
pub open spec fn is_substring(q: Seq<char>, n: Seq<char>) -> bool {
    exists|i: int| 0 <= i && i + q.len() <= n.len() && #[trigger] n.subrange(i, i + q.len()) == q
}

/// Character-by-character string equality, stated over the views.
pub fn str_eq(a: &str, b: &str) -> (r: bool)
    ensures
        r == (a@ == b@),
{
    let alen = a.unicode_len();
    let blen = b.unicode_len();
    if alen != blen {
        return false;
    }
    let mut i: usize = 0;
    while i < alen
        invariant
            i <= alen,
            alen == a@.len(),
            alen == b@.len(),
            forall|j: int| 0 <= j < i ==> a@[j] == b@[j],
        decreases alen - i,
    {
        if a.get_char(i) != b.get_char(i) {
            return false;
        }
        i = i + 1;
    }
    proof {
        assert(a@ =~= b@);
    }
    true
}

/// Substring search: true exactly when `needle` occurs in `hay`.
pub fn contains_str(hay: &str, needle: &str) -> (r: bool)
    ensures
        r == is_substring(needle@, hay@),
{
    let hlen = hay.unicode_len();
    let nlen = needle.unicode_len();
    if nlen == 0 {
        proof {
            assert(hay@.subrange(0, 0 + needle@.len() as int) =~= needle@);
        }
        return true;
    }
    if nlen > hlen {
        return false;
    }
    let bound = hlen - nlen;
    let mut i: usize = 0;
    while i <= bound
        invariant
            hlen == hay@.len(),
            nlen == needle@.len(),
            0 < nlen <= hlen,
            bound == hlen - nlen,
            i <= bound + 1,
            forall|j: int| 0 <= j < i ==> #[trigger] hay@.subrange(j, j + needle@.len()) != needle@,
        decreases bound + 1 - i,
    {
        let piece = hay.substring_char(i, i + nlen);
        if str_eq(piece, needle) {
            return true;
        }
        i = i + 1;
    }
    false
}

/// The platform-specific suffix that still counts as an exact match when
/// appended to the query (an executable or application-bundle suffix);
/// empty where the platform has no such rule.
pub open spec fn suffix_for(p: Platform) -> Seq<char> {
    match p {
        Platform::Windows => ".exe"@,
        Platform::MacOs => ".app"@,
        _ => Seq::<char>::empty(),
    }
}

/// Equality of `name` with `query` followed by `suffix`.
pub fn eq_with_suffix(name: &str, query: &str, suffix: &str) -> (r: bool)
    ensures
        r == (name@ == query@ + suffix@),
{
    let nlen = name.unicode_len();
    let qlen = query.unicode_len();
    let slen = suffix.unicode_len();
    if nlen < qlen || nlen - qlen != slen {
        return false;
    }
    let head = name.substring_char(0, qlen);
    let tail = name.substring_char(qlen, nlen);
    let r = str_eq(head, query) && str_eq(tail, suffix);
    proof {
        if r {
            assert(name@ =~= query@ + suffix@);
        } else {
            if name@ == query@ + suffix@ {
                assert(name@.subrange(0, qlen as int) =~= query@);
                assert(name@.subrange(qlen as int, nlen as int) =~= suffix@);
            }
        }
    }
    r
}

/// The score of one candidate name against the query, both already
/// lowercase. `Some(0)` for an exact (possibly platform-suffixed) match,
/// `Some(d)` with the edit distance `d` for a substring match, `None`
/// where the name does not contain the query at all.
pub open spec fn score_of(p: Platform, lname: Seq<char>, q: Seq<char>) -> Option<nat> {
    if lname == q {
        Some(0nat)
    } else if lname == q + suffix_for(p) {
        Some(0nat)
    } else if is_substring(q, lname) {
        Some(edit_distance_of(lname, q))
    } else {
        None
    }
}

/// The shared matching primitive: scores a lowercase candidate name
/// against the lowercase query.
pub fn match_score(p: Platform, name_lower: &str, query: &str) -> (r: Option<usize>)
    ensures
        match r {
            Some(s) => score_of(p, name_lower@, query@) == Some(s as nat),
            None => score_of(p, name_lower@, query@) is None,
        },
{
    if str_eq(name_lower, query) {
        return Some(0);
    }
    let suffixed: bool = match p {
        Platform::Windows => eq_with_suffix(name_lower, query, ".exe"),
        Platform::MacOs => eq_with_suffix(name_lower, query, ".app"),
        Platform::Linux => false,
        Platform::Other => false,
    };
    proof {
        if p == Platform::Linux || p == Platform::Other {
            assert(query@ + suffix_for(p) =~= query@);
        }
    }
    if suffixed {
        return Some(0);
    }
    if contains_str(name_lower, query) {
        return Some(edit_distance(name_lower, query));
    }
    None
}

/// An entry is only ever scored when its lowercase name contains the
/// lowercase query as a substring: pure edit-distance proximity without
/// containment never produces a candidate.
pub proof fn lemma_score_requires_substring(p: Platform, lname: Seq<char>, q: Seq<char>)
    requires
        score_of(p, lname, q) is Some,
    ensures
        is_substring(q, lname),
{
    if lname == q {
        assert(lname.subrange(0, 0 + q.len() as int) =~= q);
    } else if lname == q + suffix_for(p) {
        assert(lname.subrange(0, 0 + q.len() as int) =~= q);
    }
}

} // verus!
