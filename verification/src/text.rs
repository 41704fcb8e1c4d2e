use vstd::prelude::*;
use vstd::string::StrSliceExecFns;

verus! {

/// The whitespace characters this library recognises when trimming
/// descriptor lines and splitting launch commands.
pub open spec fn is_space_char(c: char) -> bool {
    c == ' ' || c == '\t' || c == '\r' || c == '\n'
}

pub fn is_space(c: char) -> (r: bool)
    ensures
        r == is_space_char(c),
{
    c == ' ' || c == '\t' || c == '\r' || c == '\n'
}

/// `s` with leading whitespace removed.
pub open spec fn trim_left(s: Seq<char>) -> Seq<char>
    decreases s.len(),
{
    if s.len() > 0 && is_space_char(s[0]) {
        trim_left(s.drop_first())
    } else {
        s
    }
}

/// `s` with trailing whitespace removed.
pub open spec fn trim_right(s: Seq<char>) -> Seq<char>
    decreases s.len(),
{
    if s.len() > 0 && is_space_char(s.last()) {
        trim_right(s.drop_last())
    } else {
        s
    }
}

/// `s` with whitespace removed from both ends.
pub open spec fn trim_of(s: Seq<char>) -> Seq<char> {
    trim_right(trim_left(s))
}

/// Removes leading and trailing whitespace.
pub fn trim_spaces(s: &str) -> (r: String)
    ensures
        r@ == trim_of(s@),
{
    let len = s.unicode_len();
    proof {
        assert(s@.subrange(0, len as int) =~= s@);
    }
    let mut i: usize = 0;
    while i < len && is_space(s.get_char(i))
        invariant
            i <= len,
            len == s@.len(),
            trim_left(s@) == trim_left(s@.subrange(i as int, len as int)),
        decreases len - i,
    {
        proof {
            let sub = s@.subrange(i as int, len as int);
            assert(sub.len() > 0 && is_space_char(sub[0]));
            assert(sub.drop_first() =~= s@.subrange(i + 1, len as int));
        }
        i = i + 1;
    }
    proof {
        let sub = s@.subrange(i as int, len as int);
        if i == len {
            assert(sub.len() == 0);
        }
        assert(trim_left(sub) == sub);
    }
    let mut j: usize = len;
    while j > i && is_space(s.get_char(j - 1))
        invariant
            i <= j <= len,
            len == s@.len(),
            trim_left(s@) == s@.subrange(i as int, len as int),
            trim_right(s@.subrange(i as int, len as int)) == trim_right(
                s@.subrange(i as int, j as int),
            ),
        decreases j,
    {
        proof {
            let sub = s@.subrange(i as int, j as int);
            assert(sub.len() > 0 && is_space_char(sub.last()));
            assert(sub.drop_last() =~= s@.subrange(i as int, j - 1));
        }
        j = j - 1;
    }
    proof {
        let sub = s@.subrange(i as int, j as int);
        if j == i {
            assert(sub.len() == 0);
        }
        assert(trim_right(sub) == sub);
    }
    let piece = s.substring_char(i, j);
    piece.to_owned()
}

/// The whitespace-separated tokens of `s`, left to right; `cur` is the
/// token being built and `acc` the tokens already complete.
pub open spec fn split_fold(s: Seq<char>, i: int, cur: Seq<char>, acc: Seq<Seq<char>>) -> Seq<
    Seq<char>,
>
    decreases s.len() - i,
{
    if i < 0 || i >= s.len() {
        if cur.len() > 0 {
            acc.push(cur)
        } else {
            acc
        }
    } else if is_space_char(s[i]) {
        if cur.len() > 0 {
            split_fold(s, i + 1, Seq::empty(), acc.push(cur))
        } else {
            split_fold(s, i + 1, cur, acc)
        }
    } else {
        split_fold(s, i + 1, cur.push(s[i]), acc)
    }
}

/// The whitespace-separated tokens of `s`.
pub open spec fn split_ws(s: Seq<char>) -> Seq<Seq<char>> {
    split_fold(s, 0, Seq::empty(), Seq::empty())
}

/// Splits `s` into its whitespace-separated tokens.
pub fn split_whitespace_tokens(s: &str) -> (r: Vec<String>)
    ensures
        r.deep_view() == split_ws(s@),
{
    let len = s.unicode_len();
    let mut acc: Vec<String> = Vec::new();
    proof {
        assert(acc.deep_view() =~= Seq::<Seq<char>>::empty());
        assert(s@.subrange(0, 0) =~= Seq::<char>::empty());
    }
    let mut start: usize = 0;
    let mut i: usize = 0;
    while i < len
        invariant
            start <= i <= len,
            len == s@.len(),
            split_fold(
                s@,
                i as int,
                s@.subrange(start as int, i as int),
                acc.deep_view(),
            ) == split_ws(s@),
        decreases len - i,
    {
        let ghost cur = s@.subrange(start as int, i as int);
        let ghost pre = acc.deep_view();
        if is_space(s.get_char(i)) {
            if i > start {
                let tok = s.substring_char(start, i);
                acc.push(tok.to_owned());
                proof {
                    assert(acc.deep_view() =~= pre.push(cur));
                }
            } else {
                proof {
                    assert(cur =~= Seq::<char>::empty());
                }
            }
            start = i + 1;
        } else {
            proof {
                assert(s@.subrange(start as int, i + 1) =~= cur.push(s@[i as int]));
            }
        }
        proof {
            assert(s@.subrange(i + 1, i + 1) =~= Seq::<char>::empty());
        }
        i = i + 1;
    }
    if start < len {
        let ghost pre = acc.deep_view();
        let tok = s.substring_char(start, len);
        acc.push(tok.to_owned());
        proof {
            assert(acc.deep_view() =~= pre.push(s@.subrange(start as int, len as int)));
        }
    }
    acc
}

/// `pre` is a prefix of `s`.
pub open spec fn is_prefix(pre: Seq<char>, s: Seq<char>) -> bool {
    pre.len() <= s.len() && s.subrange(0, pre.len() as int) == pre
}

/// Prefix test, stated over the views.
pub fn starts_with_str(s: &str, pre: &str) -> (r: bool)
    ensures
        r == is_prefix(pre@, s@),
{
    let slen = s.unicode_len();
    let plen = pre.unicode_len();
    if plen > slen {
        return false;
    }
    let head = s.substring_char(0, plen);
    crate::matching::str_eq(head, pre)
}

/// A placeholder token: one that begins with the placeholder-escape
/// character `%` and is therefore dropped before dispatch.
pub open spec fn is_placeholder(t: Seq<char>) -> bool {
    t.len() > 0 && t[0] == '%'
}

/// `tokens` with the placeholder tokens removed, order kept.
pub open spec fn drop_placeholders(tokens: Seq<Seq<char>>) -> Seq<Seq<char>>
    decreases tokens.len(),
{
    if tokens.len() == 0 {
        Seq::empty()
    } else {
        let rest = drop_placeholders(tokens.drop_last());
        if is_placeholder(tokens.last()) {
            rest
        } else {
            rest.push(tokens.last())
        }
    }
}

/// Removes every token that begins with `%`.
pub fn filter_placeholder_tokens(tokens: &Vec<String>) -> (r: Vec<String>)
    ensures
        r.deep_view() == drop_placeholders(tokens.deep_view()),
{
    let mut r: Vec<String> = Vec::new();
    let mut i: usize = 0;
    while i < tokens.len()
        invariant
            i <= tokens.len(),
            r.deep_view() == drop_placeholders(tokens.deep_view().take(i as int)),
        decreases tokens.len() - i,
    {
        let ghost pre = r.deep_view();
        let t = &tokens[i];
        let placeholder = t.as_str().unicode_len() > 0 && t.as_str().get_char(0) == '%';
        if !placeholder {
            r.push(t.clone());
            proof {
                assert(r.deep_view() =~= pre.push(tokens.deep_view()[i as int]));
            }
        }
        proof {
            let taken = tokens.deep_view().take(i + 1);
            assert(taken.drop_last() =~= tokens.deep_view().take(i as int));
            assert(taken.last() == tokens.deep_view()[i as int]);
        }
        i = i + 1;
    }
    proof {
        assert(tokens.deep_view().take(tokens.deep_view().len() as int) =~= tokens.deep_view());
    }
    r
}

} // verus!
