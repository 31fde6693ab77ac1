//! Decimal text codec for process ids. The lifecycle writes a room init's
//! pid into the room's pid file and into the cgroup membership pseudofile,
//! and reads it back during kill; both sides are specified here so that the
//! round trip is provable.

use vstd::prelude::*;

verus! {

/// ASCII digit.
pub open spec fn spec_is_digit(b: u8) -> bool {
    48 <= b <= 57
}

/// ASCII whitespace bytes tolerated around the stored pid.
pub open spec fn spec_is_space_byte(b: u8) -> bool {
    b == 32 || b == 9 || b == 13 || b == 10
}

/// Digit byte of `d` (for `d < 10`).
pub open spec fn spec_digit_byte(d: nat) -> u8 {
    (48 + d) as u8
}

/// Decimal representation of `n`, most significant digit first.
pub open spec fn spec_dec_bytes(n: nat) -> Seq<u8>
    decreases n,
{
    if n < 10 {
        seq![spec_digit_byte(n)]
    } else {
        spec_dec_bytes(n / 10).push(spec_digit_byte(n % 10))
    }
}

pub open spec fn spec_all_digits(s: Seq<u8>) -> bool {
    s.len() > 0 && forall|i: int| 0 <= i < s.len() ==> spec_is_digit(s[i])
}

/// Numeric value of a digit string.
pub open spec fn spec_dec_val(s: Seq<u8>) -> nat
    decreases s.len(),
{
    if s.len() == 0 {
        0
    } else {
        spec_dec_val(s.drop_last()) * 10 + (s.last() - 48) as nat
    }
}

pub open spec fn spec_trim_bytes_front(s: Seq<u8>) -> Seq<u8>
    decreases s.len(),
{
    if s.len() > 0 && spec_is_space_byte(s[0]) {
        spec_trim_bytes_front(s.drop_first())
    } else {
        s
    }
}

pub open spec fn spec_trim_bytes_back(s: Seq<u8>) -> Seq<u8>
    decreases s.len(),
{
    if s.len() > 0 && spec_is_space_byte(s.last()) {
        spec_trim_bytes_back(s.drop_last())
    } else {
        s
    }
}

/// The argument with ASCII whitespace bytes removed at both ends.
pub open spec fn spec_trim_bytes(s: Seq<u8>) -> Seq<u8> {
    spec_trim_bytes_back(spec_trim_bytes_front(s))
}

/// Renders a nonnegative pid as decimal ASCII.
pub fn format_pid(pid: i32) -> (r: Vec<u8>)
    requires
        0 <= pid,
    ensures
        r@ == spec_dec_bytes(pid as nat),
    decreases pid,
{
    if pid < 10 {
        let mut v: Vec<u8> = Vec::new();
        v.push(48 + pid as u8);
        proof {
            assert(v@ =~= seq![spec_digit_byte(pid as nat)]);
        }
        v
    } else {
        let mut v = format_pid(pid / 10);
        v.push(48 + (pid % 10) as u8);
        proof {
            assert(pid as nat / 10 == (pid / 10) as nat);
            assert(pid as nat % 10 == (pid % 10) as nat);
        }
        v
    }
}

/// A digit string's value only grows as more digits are appended.
proof fn lemma_dec_val_take_le(s: Seq<u8>, k: int)
    requires
        0 <= k <= s.len(),
    ensures
        spec_dec_val(s.take(k)) <= spec_dec_val(s),
    decreases s.len() - k,
{
    if k < s.len() {
        assert(s.take(k + 1).drop_last() =~= s.take(k));
        assert(spec_dec_val(s.take(k)) <= spec_dec_val(s.take(k + 1)));
        lemma_dec_val_take_le(s, k + 1);
    } else {
        assert(s.take(k) =~= s);
    }
}

/// Parses an ASCII decimal pid, tolerating surrounding whitespace.
/// Returns the value exactly when the trimmed contents are a nonempty
/// digit string whose value fits an `i32`.
pub fn parse_pid(v: &[u8]) -> (r: Option<i32>)
    ensures
        match r {
            Some(p) => {
                &&& spec_all_digits(spec_trim_bytes(v@))
                &&& 0 <= p
                &&& spec_dec_val(spec_trim_bytes(v@)) == p as nat
            },
            None => !(spec_all_digits(spec_trim_bytes(v@)) && spec_dec_val(spec_trim_bytes(v@))
                <= i32::MAX),
        },
{
    let n = v.len();
    proof {
        assert(v@.skip(0) =~= v@);
    }
    let mut a: usize = 0;
    while a < n && (v[a] == 32 || v[a] == 9 || v[a] == 13 || v[a] == 10)
        invariant
            0 <= a <= n,
            n == v@.len(),
            spec_trim_bytes_front(v@) == spec_trim_bytes_front(v@.skip(a as int)),
        decreases n - a,
    {
        proof {
            assert(v@.skip(a as int).drop_first() =~= v@.skip(a as int + 1));
        }
        a += 1;
    }
    proof {
        if a < n {
            assert(spec_trim_bytes_front(v@.skip(a as int)) == v@.skip(a as int));
        } else {
            assert(v@.skip(a as int) =~= Seq::<u8>::empty());
            assert(spec_trim_bytes_front(v@) =~= v@.skip(a as int));
        }
    }
    let ghost f = v@.skip(a as int);
    proof {
        assert(f.take(n - a) =~= f);
    }
    let mut b: usize = n;
    while b > a && (v[b - 1] == 32 || v[b - 1] == 9 || v[b - 1] == 13 || v[b - 1] == 10)
        invariant
            a <= b <= n,
            n == v@.len(),
            f == v@.skip(a as int),
            spec_trim_bytes_back(f) == spec_trim_bytes_back(f.take(b - a)),
        decreases b,
    {
        proof {
            assert(f.take(b - a).last() == v@[b - 1]);
            assert(f.take(b - a).drop_last() =~= f.take(b - 1 - a));
        }
        b -= 1;
    }
    let ghost t = f.take(b - a);
    proof {
        if b > a {
            assert(f.take(b - a).last() == v@[b - 1]);
            assert(spec_trim_bytes_back(f.take(b - a)) == f.take(b - a));
        } else {
            assert(f.take(b - a) =~= Seq::<u8>::empty());
            assert(spec_trim_bytes_back(f.take(b - a)) =~= f.take(b - a));
        }
        assert(spec_trim_bytes(v@) == t);
        assert(t =~= v@.subrange(a as int, b as int));
    }
    if a == b {
        return None;
    }
    let mut acc: u64 = 0;
    let mut i: usize = a;
    while i < b
        invariant
            a <= i <= b <= n,
            n == v@.len(),
            t == v@.subrange(a as int, b as int),
            spec_trim_bytes(v@) == t,
            a < b,
            acc <= i32::MAX,
            acc as nat == spec_dec_val(t.take(i - a)),
            forall|j: int| 0 <= j < i - a ==> spec_is_digit(t[j]),
        decreases b - i,
    {
        let d = v[i];
        if d < 48 || d > 57 {
            proof {
                assert(t[i - a] == v@[i as int]);
                assert(!spec_all_digits(t));
            }
            return None;
        }
        proof {
            assert(t.take(i - a + 1).drop_last() =~= t.take(i - a));
            assert(t.take(i - a + 1).last() == v@[i as int]);
        }
        acc = acc * 10 + ((d - 48) as u64);
        if acc > 2147483647 {
            proof {
                lemma_dec_val_take_le(t, i - a + 1);
            }
            return None;
        }
        i += 1;
    }
    proof {
        assert(t.take(b - a) =~= t);
        assert(spec_all_digits(t));
    }
    Some(acc as i32)
}

/// The decimal rendering of any value consists of digits only.
pub proof fn lemma_dec_bytes_digits(n: nat)
    ensures
        spec_all_digits(spec_dec_bytes(n)),
    decreases n,
{
    if n >= 10 {
        lemma_dec_bytes_digits(n / 10);
    }
}

/// The decimal rendering of any value parses back to that value.
pub proof fn lemma_dec_bytes_val(n: nat)
    ensures
        spec_dec_val(spec_dec_bytes(n)) == n,
    decreases n,
{
    if n < 10 {
        let s = spec_dec_bytes(n);
        assert(s == seq![spec_digit_byte(n)]);
        assert(s.drop_last() =~= Seq::<u8>::empty());
        assert(spec_dec_val(Seq::<u8>::empty()) == 0);
        assert(s.last() == spec_digit_byte(n));
        assert(spec_digit_byte(n) == 48 + n);
        assert(spec_dec_val(s) == spec_dec_val(s.drop_last()) * 10 + (s.last() - 48) as nat);
    } else {
        lemma_dec_bytes_val(n / 10);
        assert(spec_dec_bytes(n).drop_last() =~= spec_dec_bytes(n / 10));
        assert(spec_dec_bytes(n).last() == spec_digit_byte(n % 10));
        assert((spec_digit_byte(n % 10) - 48) as nat == n % 10);
        assert(spec_dec_val(spec_dec_bytes(n)) == (n / 10) * 10 + n % 10);
        assert((n / 10) * 10 + n % 10 == n) by {
            vstd::arithmetic::div_mod::lemma_fundamental_div_mod(n as int, 10);
        };
    }
}

/// A digit string is unchanged by whitespace trimming.
pub proof fn lemma_trim_digits(s: Seq<u8>)
    requires
        spec_all_digits(s),
    ensures
        spec_trim_bytes(s) == s,
{
    assert(!spec_is_space_byte(s[0]));
    assert(spec_trim_bytes_front(s) == s);
    assert(!spec_is_space_byte(s.last()));
    assert(spec_trim_bytes_back(s) == s);
}

/// Pid-file round trip: for every pid the stored text is a pure digit
/// string that trimming leaves alone and whose value is the pid again,
/// so a pid file written by the lifecycle always reads back as the
/// in-memory pid.
pub proof fn lemma_pid_round_trip(pid: int)
    requires
        0 <= pid <= i32::MAX,
    ensures
        spec_all_digits(spec_dec_bytes(pid as nat)),
        spec_trim_bytes(spec_dec_bytes(pid as nat)) == spec_dec_bytes(pid as nat),
        spec_dec_val(spec_dec_bytes(pid as nat)) == pid as nat,
{
    lemma_dec_bytes_digits(pid as nat);
    lemma_dec_bytes_val(pid as nat);
    lemma_trim_digits(spec_dec_bytes(pid as nat));
}

} // verus!
