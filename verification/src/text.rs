//! Character-level utilities for the line-oriented control protocol:
//! equality and prefix tests, ASCII-whitespace trimming, and splitting a
//! line into whitespace-separated tokens.

use vstd::prelude::*;

verus! {

/// The protocol separates tokens with ASCII whitespace.
pub open spec fn is_space_char(c: char) -> bool {
    c == ' ' || c == '\t' || c == '\r' || c == '\n'
}

pub fn is_space(c: char) -> (r: bool)
    ensures
        r == is_space_char(c),
{
    c == ' ' || c == '\t' || c == '\r' || c == '\n'
}

/// Character-wise string equality, stated over the views.
pub fn str_eq(a: &str, b: &str) -> (r: bool)
    ensures
        r == (a@ == b@),
{
    let alen = a.unicode_len();
    let blen = b.unicode_len();
    if alen != blen {
        return false;
    }
    let mut i: usize = 0;
    while i < alen
        invariant
            0 <= i <= alen,
            alen == a@.len(),
            alen == b@.len(),
            forall|j: int| 0 <= j < i ==> a@[j] == b@[j],
        decreases alen - i,
    {
        if a.get_char(i) != b.get_char(i) {
            return false;
        }
        i += 1;
    }
    proof {
        assert(a@ =~= b@);
    }
    true
}

pub open spec fn spec_starts_with(s: Seq<char>, p: Seq<char>) -> bool {
    p.len() <= s.len() && s.take(p.len() as int) == p
}

pub fn str_starts_with(s: &str, p: &str) -> (r: bool)
    ensures
        r == spec_starts_with(s@, p@),
{
    let slen = s.unicode_len();
    let plen = p.unicode_len();
    if plen > slen {
        return false;
    }
    let mut i: usize = 0;
    while i < plen
        invariant
            0 <= i <= plen <= slen,
            slen == s@.len(),
            plen == p@.len(),
            forall|j: int| 0 <= j < i ==> s@[j] == p@[j],
        decreases plen - i,
    {
        if s.get_char(i) != p.get_char(i) {
            proof {
                assert(s@.take(plen as int)[i as int] != p@[i as int]);
            }
            return false;
        }
        i += 1;
    }
    proof {
        assert(s@.take(plen as int) =~= p@);
    }
    true
}

/// The argument with its leading ASCII whitespace removed.
pub open spec fn spec_trim_front(s: Seq<char>) -> Seq<char>
    decreases s.len(),
{
    if s.len() > 0 && is_space_char(s[0]) {
        spec_trim_front(s.drop_first())
    } else {
        s
    }
}

/// The argument with its trailing ASCII whitespace removed.
pub open spec fn spec_trim_back(s: Seq<char>) -> Seq<char>
    decreases s.len(),
{
    if s.len() > 0 && is_space_char(s.last()) {
        spec_trim_back(s.drop_last())
    } else {
        s
    }
}

/// The argument with ASCII whitespace removed at both ends.
pub open spec fn spec_trim(s: Seq<char>) -> Seq<char> {
    spec_trim_back(spec_trim_front(s))
}

/// Strips ASCII whitespace from both ends.
pub fn trim(s: &str) -> (r: &str)
    ensures
        r@ == spec_trim(s@),
{
    let n = s.unicode_len();
    proof {
        assert(s@.skip(0) =~= s@);
    }
    let mut a: usize = 0;
    while a < n && is_space(s.get_char(a))
        invariant
            0 <= a <= n,
            n == s@.len(),
            spec_trim_front(s@) == spec_trim_front(s@.skip(a as int)),
        decreases n - a,
    {
        proof {
            assert(s@.skip(a as int).drop_first() =~= s@.skip(a as int + 1));
        }
        a += 1;
    }
    proof {
        if a < n {
            assert(spec_trim_front(s@.skip(a as int)) == s@.skip(a as int));
        } else {
            assert(s@.skip(a as int) =~= Seq::<char>::empty());
            assert(spec_trim_front(s@) =~= s@.skip(a as int));
        }
    }
    let ghost t = s@.skip(a as int);
    proof {
        assert(t.take(n - a) =~= t);
    }
    let mut b: usize = n;
    while b > a && is_space(s.get_char(b - 1))
        invariant
            a <= b <= n,
            n == s@.len(),
            t == s@.skip(a as int),
            spec_trim_front(s@) == t,
            spec_trim_back(t) == spec_trim_back(t.take(b - a)),
        decreases b,
    {
        proof {
            assert(t.take(b - a).last() == s@[b - 1]);
            assert(t.take(b - a).drop_last() =~= t.take(b - 1 - a));
        }
        b -= 1;
    }
    proof {
        if b > a {
            assert(t.take(b - a).last() == s@[b - 1]);
            assert(spec_trim_back(t.take(b - a)) == t.take(b - a));
        } else {
            assert(t.take(b - a) =~= Seq::<char>::empty());
            assert(spec_trim_back(t.take(b - a)) =~= t.take(b - a));
        }
        assert(t.take(b - a) =~= s@.subrange(a as int, b as int));
    }
    s.substring_char(a, b)
}

/// Index of the first newline of `s`, or `s.len()` if there is none.
pub open spec fn spec_nl_pos(s: Seq<char>) -> nat
    decreases s.len(),
{
    if s.len() == 0 {
        0
    } else if s[0] == '\n' {
        0
    } else {
        1 + spec_nl_pos(s.drop_first())
    }
}

pub proof fn lemma_nl_pos_le(s: Seq<char>)
    ensures
        spec_nl_pos(s) <= s.len(),
        spec_nl_pos(s) < s.len() ==> s[spec_nl_pos(s) as int] == '\n',
    decreases s.len(),
{
    if s.len() > 0 && s[0] != '\n' {
        lemma_nl_pos_le(s.drop_first());
    }
}

/// Nothing before the first newline is a newline.
pub proof fn lemma_nl_pos_none_before(s: Seq<char>, j: int)
    requires
        0 <= j < spec_nl_pos(s),
    ensures
        s[j] != '\n',
    decreases s.len(),
{
    lemma_nl_pos_le(s);
    if j == 0 {
        assert(s.len() > 0 && s[0] != '\n');
    } else {
        lemma_nl_pos_none_before(s.drop_first(), j - 1);
        assert(s.drop_first()[j - 1] == s[j]);
    }
}

/// Finds the first newline, or returns the length if there is none.
pub fn find_newline(s: &str) -> (r: usize)
    ensures
        r == spec_nl_pos(s@),
{
    let n = s.unicode_len();
    proof {
        assert(s@.skip(0) =~= s@);
    }
    let mut i: usize = 0;
    while i < n && s.get_char(i) != '\n'
        invariant
            0 <= i <= n,
            n == s@.len(),
            spec_nl_pos(s@) == i + spec_nl_pos(s@.skip(i as int)),
        decreases n - i,
    {
        proof {
            assert(s@.skip(i as int)[0] == s@[i as int]);
            assert(s@.skip(i as int).drop_first() =~= s@.skip(i as int + 1));
        }
        i += 1;
    }
    proof {
        if i < n {
            assert(s@.skip(i as int)[0] == s@[i as int]);
            assert(spec_nl_pos(s@.skip(i as int)) == 0);
        } else {
            assert(s@.skip(i as int) =~= Seq::<char>::empty());
        }
    }
    i
}

/// Whitespace-separated tokens of `s`, accumulated left to right; `cur` is
/// the partial token read so far.
pub open spec fn spec_tokens_acc(s: Seq<char>, cur: Seq<char>) -> Seq<Seq<char>>
    decreases s.len(),
{
    if s.len() == 0 {
        if cur.len() > 0 {
            seq![cur]
        } else {
            Seq::empty()
        }
    } else if is_space_char(s[0]) {
        if cur.len() > 0 {
            seq![cur] + spec_tokens_acc(s.drop_first(), Seq::empty())
        } else {
            spec_tokens_acc(s.drop_first(), Seq::empty())
        }
    } else {
        spec_tokens_acc(s.drop_first(), cur.push(s[0]))
    }
}

/// The whitespace-separated tokens of `s`, in order.
pub open spec fn spec_tokens(s: Seq<char>) -> Seq<Seq<char>> {
    spec_tokens_acc(s, Seq::empty())
}

/// Splits `s` into its whitespace-separated tokens.
pub fn tokenize(s: &str) -> (r: Vec<String>)
    ensures
        r@.map_values(|t: String| t@) == spec_tokens(s@),
{
    let n = s.unicode_len();
    proof {
        assert(s@.skip(0) =~= s@);
    }
    let mut out: Vec<String> = Vec::new();
    let mut i: usize = 0;
    let mut start: usize = 0;
    let mut in_tok: bool = false;
    while i < n
        invariant
            0 <= i <= n,
            n == s@.len(),
            in_tok ==> 0 <= start < i,
            out@.map_values(|t: String| t@) + spec_tokens_acc(
                s@.skip(i as int),
                if in_tok {
                    s@.subrange(start as int, i as int)
                } else {
                    Seq::empty()
                },
            ) == spec_tokens(s@),
        decreases n - i,
    {
        let ghost cur: Seq<char> = if in_tok {
            s@.subrange(start as int, i as int)
        } else {
            Seq::empty()
        };
        let ghost outv = out@.map_values(|t: String| t@);
        proof {
            assert(s@.skip(i as int)[0] == s@[i as int]);
            assert(s@.skip(i as int).drop_first() =~= s@.skip(i as int + 1));
        }
        let c = s.get_char(i);
        if is_space(c) {
            if in_tok {
                proof {
                    assert(spec_tokens_acc(s@.skip(i as int), cur) == seq![cur]
                        + spec_tokens_acc(s@.skip(i as int + 1), Seq::<char>::empty()));
                    assert(outv + (seq![cur] + spec_tokens_acc(
                        s@.skip(i as int + 1),
                        Seq::<char>::empty(),
                    )) =~= (outv + seq![cur]) + spec_tokens_acc(
                        s@.skip(i as int + 1),
                        Seq::<char>::empty(),
                    ));
                }
                let tok = s.substring_char(start, i);
                let owned = tok.to_owned();
                proof {
                    assert(out@.push(owned).map_values(|t: String| t@) =~= outv + seq![cur]);
                }
                out.push(owned);
                in_tok = false;
            }
        } else {
            if !in_tok {
                start = i;
                in_tok = true;
            }
            proof {
                assert(s@.subrange(start as int, i as int + 1) =~= cur.push(s@[i as int]));
                assert(spec_tokens_acc(s@.skip(i as int), cur) == spec_tokens_acc(
                    s@.skip(i as int + 1),
                    cur.push(s@[i as int]),
                ));
            }
        }
        i += 1;
    }
    proof {
        assert(s@.skip(n as int) =~= Seq::<char>::empty());
    }
    if in_tok {
        let ghost cur = s@.subrange(start as int, n as int);
        let ghost outv = out@.map_values(|t: String| t@);
        proof {
            assert(spec_tokens_acc(s@.skip(n as int), cur) == seq![cur]);
            assert(outv + seq![cur] == spec_tokens(s@));
        }
        let tok = s.substring_char(start, n);
        let owned = tok.to_owned();
        proof {
            assert(out@.push(owned).map_values(|t: String| t@) =~= outv + seq![cur]);
        }
        out.push(owned);
    } else {
        proof {
            let outv = out@.map_values(|t: String| t@);
            assert(spec_tokens_acc(s@.skip(n as int), Seq::<char>::empty())
                =~= Seq::<Seq<char>>::empty());
            assert(outv + Seq::<Seq<char>>::empty() =~= outv);
        }
    }
    out
}

} // verus!
