//! Mount-table reading and teardown ordering. Cleanup collects every
//! mountpoint under the room's root prefix and detaches them deepest
//! first, so that no mount is ever removed while a child mount still
//! hangs below it.

use vstd::prelude::*;

use crate::sys::bytes_to_string_lossy;
use crate::sys::lossy_utf8;
use crate::text::find_newline;
use crate::text::spec_nl_pos;
use crate::text::spec_starts_with;
use crate::text::spec_tokens;
use crate::text::str_starts_with;
use crate::text::tokenize;

verus! {

broadcast use vstd::seq_lib::group_to_multiset_ensures;

/// The mountpoints named by a mount table in `/proc/mounts` format: the
/// second whitespace-separated field of every line that has one.
pub open spec fn spec_mount_points(s: Seq<char>) -> Seq<Seq<char>>
    decreases s.len(),
{
    if s.len() == 0 {
        Seq::empty()
    } else {
        let p = spec_nl_pos(s) as int;
        let toks = spec_tokens(s.take(p));
        let here: Seq<Seq<char>> = if toks.len() >= 2 {
            seq![toks[1]]
        } else {
            Seq::empty()
        };
        if p < s.len() {
            here + spec_mount_points(s.skip(p + 1))
        } else {
            here
        }
    }
}

/// Extracts the mountpoint field of every line of a mount table.
pub fn mount_points(contents: &str) -> (r: Vec<String>)
    ensures
        r@.map_values(|t: String| t@) == spec_mount_points(contents@),
{
    let n = contents.unicode_len();
    proof {
        assert(contents@.skip(0) =~= contents@);
    }
    let mut out: Vec<String> = Vec::new();
    let mut pos: usize = 0;
    while pos < n
        invariant
            0 <= pos <= n,
            n == contents@.len(),
            out@.map_values(|t: String| t@) + spec_mount_points(contents@.skip(pos as int))
                == spec_mount_points(contents@),
        decreases n - pos,
    {
        let ghost rest = contents@.skip(pos as int);
        let ghost outv = out@.map_values(|t: String| t@);
        let line_end = {
            let tail = contents.substring_char(pos, n);
            proof {
                assert(tail@ =~= rest);
            }
            let k = find_newline(tail);
            proof {
                crate::text::lemma_nl_pos_le(rest);
            }
            pos + k
        };
        let line = contents.substring_char(pos, line_end);
        proof {
            assert(line@ =~= rest.take(spec_nl_pos(rest) as int));
        }
        let toks = tokenize(line);
        let ghost here: Seq<Seq<char>> = if spec_tokens(line@).len() >= 2 {
            seq![spec_tokens(line@)[1]]
        } else {
            Seq::<Seq<char>>::empty()
        };
        if toks.len() >= 2 {
            let point = toks[1].clone();
            proof {
                assert(toks@.map_values(|t: String| t@)[1] == toks@[1]@);
                assert(out@.push(point).map_values(|t: String| t@) =~= outv + here);
            }
            out.push(point);
        } else {
            proof {
                assert(outv + here =~= outv);
            }
        }
        if line_end < n {
            proof {
                assert(rest.skip(spec_nl_pos(rest) as int + 1) =~= contents@.skip(
                    line_end as int + 1,
                ));
                assert(outv + here + spec_mount_points(contents@.skip(line_end as int + 1))
                    =~= (outv + here) + spec_mount_points(contents@.skip(line_end as int + 1)));
            }
            pos = line_end + 1;
        } else {
            proof {
                assert(spec_nl_pos(rest) == rest.len());
                assert(spec_mount_points(rest) == here);
                assert(contents@.skip(n as int) =~= Seq::<char>::empty());
            }
            pos = n;
        }
    }
    proof {
        assert(contents@.skip(pos as int) =~= Seq::<char>::empty());
        assert(out@.map_values(|t: String| t@) + Seq::<Seq<char>>::empty() =~= out@.map_values(
            |t: String| t@,
        ));
    }
    out
}

/// The mountpoints that start with the prefix, in their original order.
pub open spec fn spec_keep_prefixed(s: Seq<Seq<char>>, p: Seq<char>) -> Seq<Seq<char>>
    decreases s.len(),
{
    if s.len() == 0 {
        Seq::empty()
    } else {
        spec_keep_prefixed(s.drop_last(), p) + (if spec_starts_with(s.last(), p) {
            seq![s.last()]
        } else {
            Seq::empty()
        })
    }
}

/// Cleanup completeness: every mountpoint under the prefix is selected -
/// nothing under the room is passed over by teardown.
pub proof fn lemma_keep_prefixed_complete(s: Seq<Seq<char>>, p: Seq<char>, i: int)
    requires
        0 <= i < s.len(),
        spec_starts_with(s[i], p),
    ensures
        spec_keep_prefixed(s, p).contains(s[i]),
    decreases s.len(),
{
    if i == s.len() - 1 {
        assert(spec_keep_prefixed(s, p).last() == s[i]);
    } else {
        lemma_keep_prefixed_complete(s.drop_last(), p, i);
        let k = choose|k: int|
            0 <= k < spec_keep_prefixed(s.drop_last(), p).len() && spec_keep_prefixed(
                s.drop_last(),
                p,
            )[k] == s.drop_last()[i];
        assert(spec_keep_prefixed(s, p)[k] == s[i]);
    }
}

/// The order to unmount in: exactly the mountpoints under the prefix,
/// deepest (longest) first, so parents never go before their children,
/// and every mountpoint under the prefix is in the plan.
pub fn unmount_plan(mounts: &Vec<String>, prefix: &str) -> (r: Vec<String>)
    ensures
        r@.map_values(|t: String| t@).to_multiset() == spec_keep_prefixed(
            mounts@.map_values(|t: String| t@),
            prefix@,
        ).to_multiset(),
        forall|i: int| 0 <= i < r@.len() ==> spec_starts_with((#[trigger] r@[i])@, prefix@),
        forall|i: int, j: int| 0 <= i < j < r@.len() ==> r@[i]@.len() >= r@[j]@.len(),
        forall|i: int|
            0 <= i < mounts@.len() && spec_starts_with((#[trigger] mounts@[i])@, prefix@)
                ==> r@.map_values(|t: String| t@).contains(mounts@[i]@),
{
    let ghost allv = mounts@.map_values(|t: String| t@);
    let n = mounts.len();
    let mut work: Vec<String> = Vec::new();
    let mut i: usize = 0;
    while i < n
        invariant
            0 <= i <= n,
            n == mounts@.len(),
            allv == mounts@.map_values(|t: String| t@),
            work@.map_values(|t: String| t@) == spec_keep_prefixed(allv.take(i as int), prefix@),
            forall|j: int| 0 <= j < work@.len() ==> spec_starts_with(
                (#[trigger] work@[j])@,
                prefix@,
            ),
        decreases n - i,
    {
        let ghost workv = work@.map_values(|t: String| t@);
        proof {
            assert(allv.take(i as int + 1).drop_last() =~= allv.take(i as int));
            assert(allv.take(i as int + 1).last() == mounts@[i as int]@);
        }
        if str_starts_with(mounts[i].as_str(), prefix) {
            let m = mounts[i].clone();
            proof {
                assert(work@.push(m).map_values(|t: String| t@) =~= workv + seq![mounts@[i as int]@]);
            }
            work.push(m);
        } else {
            proof {
                assert(workv + Seq::<Seq<char>>::empty() =~= workv);
            }
        }
        i += 1;
    }
    proof {
        assert(allv.take(n as int) =~= allv);
    }
    let ghost keep = spec_keep_prefixed(allv, prefix@);
    let mut out: Vec<String> = Vec::new();
    while work.len() > 0
        invariant
            out@.map_values(|t: String| t@).to_multiset().add(
                work@.map_values(|t: String| t@).to_multiset(),
            ) == keep.to_multiset(),
            forall|j: int| 0 <= j < work@.len() ==> spec_starts_with(
                (#[trigger] work@[j])@,
                prefix@,
            ),
            forall|j: int| 0 <= j < out@.len() ==> spec_starts_with(
                (#[trigger] out@[j])@,
                prefix@,
            ),
            forall|a: int, b: int| 0 <= a < b < out@.len() ==> out@[a]@.len() >= out@[b]@.len(),
            forall|a: int, b: int|
                0 <= a < out@.len() && 0 <= b < work@.len() ==> (#[trigger] out@[a])@.len()
                    >= (#[trigger] work@[b])@.len(),
        decreases work@.len(),
    {
        let m = work.len();
        let mut mi: usize = 0;
        let mut best: usize = work[0].as_str().unicode_len();
        let mut k: usize = 1;
        while k < m
            invariant
                0 <= mi < k <= m,
                m == work@.len(),
                best == work@[mi as int]@.len(),
                forall|j: int| 0 <= j < k ==> best >= (#[trigger] work@[j])@.len(),
            decreases m - k,
        {
            let len_k = work[k].as_str().unicode_len();
            if len_k > best {
                mi = k;
                best = len_k;
            }
            k += 1;
        }
        let ghost workv = work@.map_values(|t: String| t@);
        let ghost outv = out@.map_values(|t: String| t@);
        let x = work.remove(mi);
        proof {
            assert(x@ == workv[mi as int]);
            assert(workv.remove(mi as int) =~= work@.map_values(|t: String| t@));
            assert(forall|b: int| 0 <= b < mi ==> workv.remove(mi as int)[b] == workv[b]);
            assert(forall|b: int|
                mi <= b < workv.len() - 1 ==> workv.remove(mi as int)[b] == workv[b + 1]);
            assert(workv.remove(mi as int).to_multiset() =~= workv.to_multiset().remove(x@));
            assert(out@.push(x).map_values(|t: String| t@) =~= outv.push(x@));
            assert(outv.push(x@).to_multiset() =~= outv.to_multiset().insert(x@));
            assert(workv.contains(x@));
            assert(workv.to_multiset().count(x@) > 0);
            assert(outv.to_multiset().insert(x@).add(workv.to_multiset().remove(x@))
                =~= outv.to_multiset().add(workv.to_multiset()));
        }
        out.push(x);
    }
    proof {
        let work_m = work@.map_values(|t: String| t@).to_multiset();
        let out_m = out@.map_values(|t: String| t@).to_multiset();
        assert(work@.map_values(|t: String| t@) =~= Seq::<Seq<char>>::empty());
        assert forall|e: Seq<char>| out_m.add(work_m).count(e) == out_m.count(e) by {
            assert(!work@.map_values(|t: String| t@).contains(e));
            assert(work_m.count(e) == 0);
        }
        assert(out_m.add(work_m) =~= out_m);
    }
    proof {
        let outv = out@.map_values(|t: String| t@);
        assert forall|i: int|
            0 <= i < mounts@.len() && spec_starts_with(
                (#[trigger] mounts@[i])@,
                prefix@,
            ) implies outv.contains(mounts@[i]@) by {
            let e = mounts@[i]@;
            assert(allv[i] == e);
            lemma_keep_prefixed_complete(allv, prefix@, i);
            assert(keep.to_multiset().count(e) > 0);
            assert(outv.to_multiset().count(e) > 0);
        }
    }
    out
}

/// Reads the mountpoints under the prefix from raw mount-table bytes
/// (as read from `/proc/mounts`), deepest first.
pub fn unmount_plan_of_bytes(raw: &[u8], prefix: &str) -> (r: Vec<String>)
    ensures
        r@.map_values(|t: String| t@).to_multiset() == spec_keep_prefixed(
            spec_mount_points(lossy_utf8(raw@)),
            prefix@,
        ).to_multiset(),
        forall|i: int| 0 <= i < r@.len() ==> spec_starts_with((#[trigger] r@[i])@, prefix@),
        forall|i: int, j: int| 0 <= i < j < r@.len() ==> r@[i]@.len() >= r@[j]@.len(),
{
    let text = bytes_to_string_lossy(raw);
    let points = mount_points(text.as_str());
    unmount_plan(&points, prefix)
}

} // verus!
