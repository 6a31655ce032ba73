//! Picking units out of a column of floors, floor by floor.
//!
//! Two places walk the tower this way: the column draws climbers from the top
//! of its window down, and a healer looks for the wounded from the lowest
//! floor in its reach up. Both take whoever stands on the floor in the order
//! the units are listed, so on a tie the earlier unit comes first — and in
//! healing, where an earlier candidate holds a tie, that order decides who is
//! mended.

use vstd::prelude::*;
use crate::tower::Floor;

verus! {

/// Whether unit `i` comes before unit `j` in a sweep: by floor in the sweep's
/// direction, and on one floor by list position.
pub open spec fn sweep_before(floors: Seq<Floor>, descending: bool, i: int, j: int) -> bool {
    if floors[i] == floors[j] {
        i < j
    } else if descending {
        floors[i] > floors[j]
    } else {
        floors[i] < floors[j]
    }
}

/// Whether unit `i` is one the sweep may take: it exists, it is kept, and it
/// stands between `lo` and `hi`, both included.
pub open spec fn sweep_takes(floors: Seq<Floor>, keep: Seq<bool>, lo: Floor, hi: Floor, i: int) -> bool {
    &&& 0 <= i < floors.len()
    &&& keep[i]
    &&& lo <= floors[i] <= hi
}

/// `out` is the sweep's result: the units it may take, in sweep order, and
/// all of them unless a limit cut it short — in which case it holds exactly
/// the first `limit` of them.
pub open spec fn swept(
    floors: Seq<Floor>,
    keep: Seq<bool>,
    lo: Floor,
    hi: Floor,
    descending: bool,
    limit: Option<usize>,
    out: Seq<usize>,
) -> bool {
    &&& limit matches Some(l) ==> out.len() <= l
    &&& forall|p: int| 0 <= p < out.len() ==> sweep_takes(floors, keep, lo, hi, #[trigger] out[p] as int)
    &&& forall|p: int, q: int|
        0 <= p < q < out.len() ==> sweep_before(floors, descending, #[trigger] out[p] as int, #[trigger] out[q] as int)
    &&& forall|k: int|
        sweep_takes(floors, keep, lo, hi, k) && !(#[trigger] out.contains(k as usize)) ==> {
            &&& limit matches Some(l) && out.len() == l
            &&& forall|p: int| 0 <= p < out.len() ==> sweep_before(floors, descending, #[trigger] out[p] as int, k)
        }
}

/// Every unit kept.
pub open spec fn all_kept(n: nat) -> Seq<bool> {
    Seq::new(n, |i: int| true)
}

/// How far into the sweep a floor lies: 0 for the first floor visited.
pub open spec fn sweep_step(floor: Floor, lo: Floor, hi: Floor, descending: bool) -> int {
    if descending { hi - floor } else { floor - lo }
}

/// Where two sweep results agree before position `p`, the first cannot put a
/// unit there that the sweep order puts before the second's.
proof fn lemma_no_earlier_at(
    floors: Seq<Floor>,
    keep: Seq<bool>,
    lo: Floor,
    hi: Floor,
    descending: bool,
    limit: Option<usize>,
    a: Seq<usize>,
    b: Seq<usize>,
    p: int,
)
    requires
        swept(floors, keep, lo, hi, descending, limit, a),
        swept(floors, keep, lo, hi, descending, limit, b),
        0 <= p < a.len(),
        p < b.len(),
        forall|q: int| 0 <= q < p ==> a[q] == b[q],
    ensures
        !sweep_before(floors, descending, a[p] as int, b[p] as int),
{
    let x = a[p];
    let y = b[p];
    if sweep_before(floors, descending, x as int, y as int) {
        if b.contains(x) {
            let r = choose|r: int| 0 <= r < b.len() && b[r] == x;
            if r < p {
                assert(a[r] == x);
                assert(sweep_before(floors, descending, a[r] as int, a[p] as int));
            } else if r > p {
                assert(sweep_before(floors, descending, b[p] as int, b[r] as int));
            }
        } else {
            assert(sweep_takes(floors, keep, lo, hi, a[p] as int));
            assert(sweep_takes(floors, keep, lo, hi, x as int));
            assert(!b.contains((x as int) as usize));
            assert(sweep_before(floors, descending, b[p] as int, x as int));
        }
    }
}

/// Two sweep results agree on their first `p` positions.
proof fn lemma_agree_below(
    floors: Seq<Floor>,
    keep: Seq<bool>,
    lo: Floor,
    hi: Floor,
    descending: bool,
    limit: Option<usize>,
    a: Seq<usize>,
    b: Seq<usize>,
    p: int,
)
    requires
        swept(floors, keep, lo, hi, descending, limit, a),
        swept(floors, keep, lo, hi, descending, limit, b),
        0 <= p <= a.len(),
        p <= b.len(),
    ensures
        forall|q: int| 0 <= q < p ==> a[q] == b[q],
    decreases p,
{
    if p > 0 {
        lemma_agree_below(floors, keep, lo, hi, descending, limit, a, b, p - 1);
        let q = p - 1;
        lemma_no_earlier_at(floors, keep, lo, hi, descending, limit, a, b, q);
        lemma_no_earlier_at(floors, keep, lo, hi, descending, limit, b, a, q);
        assert(sweep_takes(floors, keep, lo, hi, a[q] as int));
        assert(sweep_takes(floors, keep, lo, hi, b[q] as int));
    }
}

/// A sweep result that agrees with another on all its positions is no
/// shorter than it.
proof fn lemma_not_shorter(
    floors: Seq<Floor>,
    keep: Seq<bool>,
    lo: Floor,
    hi: Floor,
    descending: bool,
    limit: Option<usize>,
    a: Seq<usize>,
    b: Seq<usize>,
)
    requires
        swept(floors, keep, lo, hi, descending, limit, a),
        swept(floors, keep, lo, hi, descending, limit, b),
        a.len() <= b.len(),
        forall|q: int| 0 <= q < a.len() ==> a[q] == b[q],
    ensures
        a.len() == b.len(),
{
    if a.len() < b.len() {
        let c = b[a.len() as int];
        assert(sweep_takes(floors, keep, lo, hi, c as int));
        if a.contains(c) {
            let r = choose|r: int| 0 <= r < a.len() && a[r] == c;
            assert(b[r] == c);
            assert(sweep_before(floors, descending, b[r] as int, b[a.len() as int] as int));
        } else {
            assert(!a.contains((c as int) as usize));
        }
    }
}

/// The sweep's contract leaves no choice: two results of one sweep are the
/// same sequence.
pub proof fn lemma_sweep_has_one_result(
    floors: Seq<Floor>,
    keep: Seq<bool>,
    lo: Floor,
    hi: Floor,
    descending: bool,
    limit: Option<usize>,
    a: Seq<usize>,
    b: Seq<usize>,
)
    requires
        swept(floors, keep, lo, hi, descending, limit, a),
        swept(floors, keep, lo, hi, descending, limit, b),
    ensures
        a == b,
{
    if a.len() <= b.len() {
        lemma_agree_below(floors, keep, lo, hi, descending, limit, a, b, a.len() as int);
        lemma_not_shorter(floors, keep, lo, hi, descending, limit, a, b);
    } else {
        lemma_agree_below(floors, keep, lo, hi, descending, limit, b, a, b.len() as int);
        lemma_not_shorter(floors, keep, lo, hi, descending, limit, b, a);
    }
    assert(a =~= b);
}

/// Sweeps the floors from `lo` to `hi` (from `hi` down to `lo` when
/// `descending`), taking on each floor the kept units that stand there in
/// list order, and stops once `limit` units are taken. With `lo` above `hi`
/// there are no floors to sweep and nothing is taken.
pub fn sweep_floors(
    floors: &Vec<Floor>,
    keep: &Vec<bool>,
    lo: Floor,
    hi: Floor,
    descending: bool,
    limit: Option<usize>,
) -> (out: Vec<usize>)
    requires
        floors.len() == keep.len(),
    ensures
        swept(floors@, keep@, lo, hi, descending, limit, out@),
        lo > hi ==> out@.len() == 0,
{
    let ghost fl = floors@;
    let ghost kp = keep@;
    let mut out: Vec<usize> = Vec::new();
    if lo > hi {
        return out;
    }
    if let Some(l) = limit {
        if l == 0 {
            return out;
        }
    }
    let span: u32 = hi - lo;
    let n = floors.len();
    let mut step: u32 = 0;
    loop
        invariant
            fl == floors@,
            kp == keep@,
            n == floors.len(),
            floors.len() == keep.len(),
            lo <= hi,
            span == hi - lo,
            step <= span,
            limit matches Some(l) ==> out.len() < l,
            forall|p: int| 0 <= p < out.len() ==> sweep_takes(fl, kp, lo, hi, #[trigger] out[p] as int),
            forall|p: int| 0 <= p < out.len() ==> sweep_step(fl[#[trigger] out[p] as int], lo, hi, descending) < step,
            forall|p: int, q: int|
                0 <= p < q < out.len() ==> sweep_before(fl, descending, #[trigger] out[p] as int, #[trigger] out[q] as int),
            forall|k: int|
                sweep_takes(fl, kp, lo, hi, k) && sweep_step(fl[k], lo, hi, descending) < step
                    ==> #[trigger] out@.contains(k as usize),
        decreases span - step,
    {
        let f: Floor = if descending { hi - step } else { lo + step };
        assert(sweep_step(f, lo, hi, descending) == step);
        let mut i: usize = 0;
        while i < n
            invariant
                fl == floors@,
                kp == keep@,
                n == floors.len(),
                floors.len() == keep.len(),
                lo <= hi,
                span == hi - lo,
                step <= span,
                lo <= f <= hi,
                sweep_step(f, lo, hi, descending) == step,
                i <= n,
                limit matches Some(l) ==> out.len() < l,
                forall|p: int| 0 <= p < out.len() ==> sweep_takes(fl, kp, lo, hi, #[trigger] out[p] as int),
                forall|p: int|
                    0 <= p < out.len() ==> {
                        ||| sweep_step(fl[#[trigger] out[p] as int], lo, hi, descending) < step
                        ||| fl[out[p] as int] == f && out[p] < i
                    },
                forall|p: int, q: int|
                    0 <= p < q < out.len() ==> sweep_before(fl, descending, #[trigger] out[p] as int, #[trigger] out[q] as int),
                forall|k: int|
                    sweep_takes(fl, kp, lo, hi, k) && (sweep_step(fl[k], lo, hi, descending) < step
                        || (fl[k] == f && k < i)) ==> #[trigger] out@.contains(k as usize),
            decreases n - i,
        {
            if floors[i] == f && keep[i] {
                let ghost before = out@;
                out.push(i);
                assert(out@ == before.push(i));
                assert forall|p: int, q: int| 0 <= p < q < out.len() implies sweep_before(
                    fl,
                    descending,
                    #[trigger] out[p] as int,
                    #[trigger] out[q] as int,
                ) by {
                    if q == out.len() - 1 {
                        assert(out[q] == i);
                        assert(out[p] == before[p]);
                    } else {
                        assert(out[p] == before[p]);
                        assert(out[q] == before[q]);
                    }
                }
                assert forall|k: int|
                    sweep_takes(fl, kp, lo, hi, k) && (sweep_step(fl[k], lo, hi, descending) < step
                        || (fl[k] == f && k < i + 1)) implies #[trigger] out@.contains(k as usize) by {
                    if k == i {
                        assert(out@[out.len() - 1] == i);
                    } else {
                        assert(before.contains(k as usize));
                        let p = choose|p: int| 0 <= p < before.len() && before[p] == k as usize;
                        assert(out@[p] == k as usize);
                    }
                }
                if let Some(l) = limit {
                    if out.len() == l {
                        assert forall|k: int|
                            sweep_takes(fl, kp, lo, hi, k) && !(#[trigger] out@.contains(k as usize))
                            implies forall|p: int|
                            0 <= p < out.len() ==> sweep_before(fl, descending, #[trigger] out[p] as int, k) by {
                            assert(!(sweep_step(fl[k], lo, hi, descending) < step));
                            assert(!(fl[k] == f && k < i + 1));
                            assert forall|p: int| 0 <= p < out.len() implies sweep_before(
                                fl,
                                descending,
                                #[trigger] out[p] as int,
                                k,
                            ) by {
                                if p == out.len() - 1 {
                                    assert(out[p] == i);
                                } else {
                                    assert(out[p] == before[p]);
                                }
                            }
                        }
                        return out;
                    }
                }
            }
            i = i + 1;
        }
        assert forall|k: int|
            sweep_takes(fl, kp, lo, hi, k) && sweep_step(fl[k], lo, hi, descending) < step + 1
            implies #[trigger] out@.contains(k as usize) by {
            if sweep_step(fl[k], lo, hi, descending) == step {
                assert(fl[k] == f);
            }
        }
        if step == span {
            return out;
        }
        step = step + 1;
    }
}

/// A keep-list that keeps all `n` units.
pub fn keep_all(n: usize) -> (keep: Vec<bool>)
    ensures
        keep@ == all_kept(n as nat),
{
    let mut keep: Vec<bool> = Vec::new();
    while keep.len() < n
        invariant
            keep.len() <= n,
            forall|i: int| 0 <= i < keep.len() ==> keep@[i],
        decreases n - keep.len(),
    {
        keep.push(true);
    }
    assert(keep@ =~= all_kept(n as nat));
    keep
}

} // verus!
