//! Keeping the best `k` of a stream of scored candidates.
//!
//! Candidates are ordered by distance, and by label where distances are equal,
//! so that the order is total and the selection does not depend on the order
//! in which the candidates arrive.

use vstd::prelude::*;

verus! {

/// A stored vector, named by its label, with its distance to a query.
#[derive(Debug, Clone, Copy, PartialEq, Eq, Structural)]
pub struct Hit {
    pub dist: u128,
    pub label: u64,
}

/// The entry that stands in a result where there is no further hit.
pub open spec fn no_hit() -> Hit {
    Hit { dist: u128::MAX, label: u64::MAX }
}

impl Hit {
    /// The entry that stands in a result where there is no further hit.
    pub fn none() -> (h: Hit)
        ensures
            h == no_hit(),
    {
        Hit { dist: u128::MAX, label: u64::MAX }
    }
}

/// The hits, followed by as many empty entries as are missing to `k`.
pub open spec fn padded(hits: Seq<Hit>, k: nat) -> Seq<Hit> {
    Seq::new(
        k,
        |i: int|
            if i < hits.len() {
                hits[i]
            } else {
                no_hit()
            },
    )
}

/// The strict order of hits: nearer first, the smaller label first among
/// equally near ones.
pub open spec fn precedes(a: Hit, b: Hit) -> bool {
    a.dist < b.dist || (a.dist == b.dist && a.label < b.label)
}

/// Each hit of the sequence precedes all that come after it.
pub open spec fn ascending(s: Seq<Hit>) -> bool {
    forall|i: int, j: int| 0 <= i < j < s.len() ==> precedes(#[trigger] s[i], #[trigger] s[j])
}

/// The position behind the last hit that precedes `h`.
pub open spec fn rank(s: Seq<Hit>, h: Hit) -> nat
    decreases s.len(),
{
    if s.len() == 0 {
        0
    } else if precedes(s.last(), h) {
        s.len()
    } else {
        rank(s.drop_last(), h)
    }
}

/// `s` with `h` put at its rank, unless `h` is already there.
pub open spec fn placed(s: Seq<Hit>, h: Hit) -> Seq<Hit> {
    let p = rank(s, h) as int;
    if p < s.len() && s[p] == h {
        s
    } else {
        s.insert(p, h)
    }
}

/// `s` after `h` was offered to it: `h` is placed, and the last hit leaves if
/// there are then more than `k`.
pub open spec fn offered(s: Seq<Hit>, h: Hit, k: nat) -> Seq<Hit> {
    let t = placed(s, h);
    if t.len() > k {
        t.drop_last()
    } else {
        t
    }
}

/// The best `k` of the candidates, in ascending order: what is left after
/// each candidate was offered in turn.
pub open spec fn selected(cands: Seq<Hit>, k: nat) -> Seq<Hit>
    decreases cands.len(),
{
    if cands.len() == 0 {
        Seq::empty()
    } else {
        offered(selected(cands.drop_last(), k), cands.last(), k)
    }
}

/// In an ascending sequence the rank of `h` splits the hits that precede `h`
/// from those that do not.
pub proof fn lemma_rank_splits(s: Seq<Hit>, h: Hit)
    requires
        ascending(s),
    ensures
        rank(s, h) <= s.len(),
        forall|i: int| 0 <= i < rank(s, h) ==> precedes(#[trigger] s[i], h),
        forall|i: int| rank(s, h) <= i < s.len() ==> !precedes(#[trigger] s[i], h),
    decreases s.len(),
{
    if s.len() > 0 && !precedes(s.last(), h) {
        let t = s.drop_last();
        lemma_rank_splits(t, h);
        assert forall|i: int| rank(s, h) <= i < s.len() implies !precedes(#[trigger] s[i], h) by {
            if i < t.len() {
                assert(s[i] == t[i]);
            }
        }
        assert forall|i: int| 0 <= i < rank(s, h) implies precedes(#[trigger] s[i], h) by {
            assert(s[i] == t[i]);
        }
    }
}

/// Placing a hit keeps the order, adds that hit and loses none.
pub proof fn lemma_placed(s: Seq<Hit>, h: Hit)
    requires
        ascending(s),
    ensures
        ascending(placed(s, h)),
        placed(s, h).contains(h),
        forall|x: Hit| s.contains(x) ==> placed(s, h).contains(x),
        forall|x: Hit| placed(s, h).contains(x) ==> x == h || s.contains(x),
        s.len() <= placed(s, h).len() <= s.len() + 1,
        placed(s, h).len() == s.len() ==> placed(s, h) == s,
{
    lemma_rank_splits(s, h);
    let p = rank(s, h) as int;
    let t = placed(s, h);
    if p < s.len() && s[p] == h {
        assert(t[p] == h);
    } else {
        assert(t[p] == h);
        assert forall|i: int, j: int| 0 <= i < j < t.len() implies precedes(
            #[trigger] t[i],
            #[trigger] t[j],
        ) by {
            if j < p {
                assert(t[i] == s[i] && t[j] == s[j]);
            } else if j == p {
                assert(t[i] == s[i]);
            } else if i < p {
                assert(t[i] == s[i] && t[j] == s[j - 1]);
                if j - 1 == i {
                } else {
                    assert(precedes(s[i], s[j - 1]));
                }
            } else if i == p {
                assert(t[j] == s[j - 1]);
                assert(!precedes(s[j - 1], h));
                if j - 1 > p {
                    assert(precedes(s[p], s[j - 1]));
                    assert(!precedes(s[p], h));
                }
                assert(s[j - 1] != h) by {
                    if j - 1 > p {
                        assert(precedes(s[p], s[j - 1]));
                        assert(!precedes(s[p], h));
                    }
                }
            } else {
                assert(t[i] == s[i - 1] && t[j] == s[j - 1]);
            }
        }
        assert forall|x: Hit| s.contains(x) implies t.contains(x) by {
            let i = choose|i: int| 0 <= i < s.len() && s[i] == x;
            if i < p {
                assert(t[i] == x);
            } else {
                assert(t[i + 1] == x);
            }
        }
        assert forall|x: Hit| t.contains(x) implies x == h || s.contains(x) by {
            let i = choose|i: int| 0 <= i < t.len() && t[i] == x;
            if i < p {
                assert(s[i] == x);
            } else if i > p {
                assert(s[i - 1] == x);
            }
        }
    }
}

/// What a selection is: it is ascending and no longer than `k`, it holds
/// candidates only, and a candidate that it leaves out comes after every hit
/// of a full selection.
pub open spec fn is_selection(r: Seq<Hit>, cands: Seq<Hit>, k: nat) -> bool {
    &&& ascending(r)
    &&& r.len() <= k
    &&& forall|x: Hit| r.contains(x) ==> cands.contains(x)
    &&& forall|x: Hit|
        cands.contains(x) && !r.contains(x) ==> r.len() == k && forall|i: int|
            0 <= i < r.len() ==> precedes(#[trigger] r[i], x)
}

/// `selected` yields the selection: the `k` candidates that precede all
/// others, in ascending order, or all of them if there are fewer.
pub proof fn lemma_selected_is_selection(cands: Seq<Hit>, k: nat)
    ensures
        is_selection(selected(cands, k), cands, k),
    decreases cands.len(),
{
    let r = selected(cands, k);
    if cands.len() == 0 {
        assert forall|x: Hit| cands.contains(x) implies false by {}
    } else {
        let rest = cands.drop_last();
        let h = cands.last();
        let s = selected(rest, k);
        lemma_selected_is_selection(rest, k);
        lemma_placed(s, h);
        let t = placed(s, h);
        assert(cands.contains(h)) by {
            assert(cands[cands.len() - 1] == h);
        }
        assert forall|x: Hit| rest.contains(x) implies cands.contains(x) by {
            let i = choose|i: int| 0 <= i < rest.len() && rest[i] == x;
            assert(cands[i] == x);
        }
        assert forall|x: Hit| cands.contains(x) implies x == h || rest.contains(x) by {
            let i = choose|i: int| 0 <= i < cands.len() && cands[i] == x;
            if i < rest.len() {
                assert(rest[i] == x);
            }
        }
        assert forall|x: Hit| r.contains(x) implies cands.contains(x) by {
            let i = choose|i: int| 0 <= i < r.len() && r[i] == x;
            assert(t[i] == x);
            assert(t.contains(x));
        }
        assert forall|x: Hit| cands.contains(x) && !r.contains(x) implies r.len() == k && forall|
            i: int,
        |
            0 <= i < r.len() ==> precedes(#[trigger] r[i], x) by {
            if t.len() > k {
                // the last of `t` left; `x` is that hit, or it was left out before
                let last = t.last();
                if t.contains(x) {
                    let j = choose|j: int| 0 <= j < t.len() && t[j] == x;
                    if j < r.len() {
                        assert(r[j] == x);
                    }
                    assert(x == last);
                    assert forall|i: int| 0 <= i < r.len() implies precedes(#[trigger] r[i], x) by {
                        assert(r[i] == t[i]);
                    }
                } else {
                    assert(!s.contains(x));
                    assert(rest.contains(x));
                    assert(s.len() == k);
                    // `s` was full, so every hit of `s` precedes `x`; so does `h`,
                    // unless `h` is the one that left
                    assert forall|i: int| 0 <= i < r.len() implies precedes(#[trigger] r[i], x) by {
                        assert(r[i] == t[i]);
                        assert(t.contains(r[i]));
                        if r[i] == h {
                            // `h` is not last in `t`, so it precedes the last, which is in `s`
                            assert(precedes(t[i], t[t.len() - 1]));
                            assert(t.contains(last));
                            assert(last != h);
                            assert(s.contains(last));
                            let m = choose|m: int| 0 <= m < s.len() && s[m] == last;
                            assert(precedes(s[m], x));
                        } else {
                            assert(s.contains(r[i]));
                            let m = choose|m: int| 0 <= m < s.len() && s[m] == r[i];
                            assert(precedes(s[m], x));
                        }
                    }
                }
            } else {
                assert(r == t);
                assert(!s.contains(x));
                assert(x != h);
                assert(rest.contains(x));
                assert(s.len() == k);
                assert(t.len() == k);
                // then `h` was already in `s`
                assert(t == s);
                assert forall|i: int| 0 <= i < r.len() implies precedes(#[trigger] r[i], x) by {}
            }
        }
        assert(ascending(r)) by {
            assert forall|i: int, j: int| 0 <= i < j < r.len() implies precedes(
                #[trigger] r[i],
                #[trigger] r[j],
            ) by {
                assert(r[i] == t[i] && r[j] == t[j]);
            }
        }
    }
}

/// An ascending sequence whose hits all occur in another ascending sequence
/// is no longer than that one.
pub proof fn lemma_ascending_within(a: Seq<Hit>, b: Seq<Hit>)
    requires
        ascending(a),
        ascending(b),
        forall|x: Hit| a.contains(x) ==> b.contains(x),
    ensures
        a.len() <= b.len(),
    decreases a.len(),
{
    if a.len() > 0 {
        let last = a.last();
        assert(a.contains(last)) by {
            assert(a[a.len() - 1] == last);
        }
        let p = choose|p: int| 0 <= p < b.len() && b[p] == last;
        let head = a.drop_last();
        let below = b.take(p);
        assert forall|x: Hit| head.contains(x) implies below.contains(x) by {
            let i = choose|i: int| 0 <= i < head.len() && head[i] == x;
            assert(a[i] == x);
            assert(precedes(a[i], a[a.len() - 1]));
            assert(a.contains(x));
            let j = choose|j: int| 0 <= j < b.len() && b[j] == x;
            if j > p {
                assert(precedes(b[p], b[j]));
            }
            assert(j < p);
            assert(below[j] == x);
        }
        assert(ascending(head)) by {
            assert forall|i: int, j: int| 0 <= i < j < head.len() implies precedes(
                #[trigger] head[i],
                #[trigger] head[j],
            ) by {
                assert(head[i] == a[i] && head[j] == a[j]);
            }
        }
        assert(ascending(below)) by {
            assert forall|i: int, j: int| 0 <= i < j < below.len() implies precedes(
                #[trigger] below[i],
                #[trigger] below[j],
            ) by {
                assert(below[i] == b[i] && below[j] == b[j]);
            }
        }
        lemma_ascending_within(head, below);
    }
}

/// Two ascending sequences of the same hits are the same sequence.
pub proof fn lemma_ascending_same(a: Seq<Hit>, b: Seq<Hit>)
    requires
        ascending(a),
        ascending(b),
        forall|x: Hit| a.contains(x) <==> b.contains(x),
    ensures
        a == b,
    decreases a.len(),
{
    lemma_ascending_within(a, b);
    lemma_ascending_within(b, a);
    if a.len() == 0 {
        assert(a =~= b);
    } else {
        let n = a.len() as int;
        let la = a.last();
        let lb = b.last();
        assert(a.contains(la)) by {
            assert(a[n - 1] == la);
        }
        assert(b.contains(lb)) by {
            assert(b[n - 1] == lb);
        }
        let p = choose|p: int| 0 <= p < n && b[p] == la;
        let pa = choose|pa: int| 0 <= pa < n && a[pa] == lb;
        if p < n - 1 {
            assert(precedes(b[p], b[n - 1]));
            if pa < n - 1 {
                assert(precedes(a[pa], a[n - 1]));
            }
        }
        assert(la == lb);
        let ha = a.drop_last();
        let hb = b.drop_last();
        assert forall|x: Hit| ha.contains(x) <==> hb.contains(x) by {
            if ha.contains(x) {
                let i = choose|i: int| 0 <= i < ha.len() && ha[i] == x;
                assert(a[i] == x);
                assert(precedes(a[i], a[n - 1]));
                assert(a.contains(x));
                let j = choose|j: int| 0 <= j < n && b[j] == x;
                assert(j < n - 1);
                assert(hb[j] == x);
            }
            if hb.contains(x) {
                let i = choose|i: int| 0 <= i < hb.len() && hb[i] == x;
                assert(b[i] == x);
                assert(precedes(b[i], b[n - 1]));
                assert(b.contains(x));
                let j = choose|j: int| 0 <= j < n && a[j] == x;
                assert(j < n - 1);
                assert(ha[j] == x);
            }
        }
        assert(ascending(ha)) by {
            assert forall|i: int, j: int| 0 <= i < j < ha.len() implies precedes(
                #[trigger] ha[i],
                #[trigger] ha[j],
            ) by {
                assert(ha[i] == a[i] && ha[j] == a[j]);
            }
        }
        assert(ascending(hb)) by {
            assert forall|i: int, j: int| 0 <= i < j < hb.len() implies precedes(
                #[trigger] hb[i],
                #[trigger] hb[j],
            ) by {
                assert(hb[i] == b[i] && hb[j] == b[j]);
            }
        }
        lemma_ascending_same(ha, hb);
        assert(a =~= ha.push(la));
        assert(b =~= hb.push(lb));
    }
}

/// Each hit of one selection is a hit of any other selection of the same
/// candidates.
proof fn lemma_selection_within(r1: Seq<Hit>, r2: Seq<Hit>, cands: Seq<Hit>, k: nat)
    requires
        is_selection(r1, cands, k),
        is_selection(r2, cands, k),
    ensures
        forall|x: Hit| r1.contains(x) ==> r2.contains(x),
{
    assert forall|x: Hit| r1.contains(x) implies r2.contains(x) by {
        if !r2.contains(x) {
            let ix = choose|i: int| 0 <= i < r1.len() && r1[i] == x;
            assert(cands.contains(x));
            // `r2` is full and all of it precedes `x`; then all of it is in `r1`
            assert forall|y: Hit| r2.contains(y) implies r1.contains(y) by {
                if !r1.contains(y) {
                    let iy = choose|i: int| 0 <= i < r2.len() && r2[i] == y;
                    assert(cands.contains(y));
                    assert(precedes(r1[ix], y));
                    assert(precedes(r2[iy], x));
                }
            }
            // so `r1` holds `r2` and `x` besides: more than `k`
            let longer = r2.push(x);
            assert(ascending(longer)) by {
                assert forall|i: int, j: int| 0 <= i < j < longer.len() implies precedes(
                    #[trigger] longer[i],
                    #[trigger] longer[j],
                ) by {
                    if j < r2.len() {
                        assert(longer[i] == r2[i] && longer[j] == r2[j]);
                    } else {
                        assert(longer[i] == r2[i]);
                        assert(precedes(r2[i], x));
                    }
                }
            }
            assert forall|z: Hit| longer.contains(z) implies r1.contains(z) by {
                let i = choose|i: int| 0 <= i < longer.len() && longer[i] == z;
                if i < r2.len() {
                    assert(r2[i] == z);
                    assert(r2.contains(z));
                }
            }
            lemma_ascending_within(longer, r1);
        }
    }
}

/// There is one selection only: what `is_selection` says of a sequence, it
/// says of `selected` and of nothing else.
pub proof fn lemma_selection_unique(r1: Seq<Hit>, r2: Seq<Hit>, cands: Seq<Hit>, k: nat)
    requires
        is_selection(r1, cands, k),
        is_selection(r2, cands, k),
    ensures
        r1 == r2,
{
    lemma_selection_within(r1, r2, cands, k);
    lemma_selection_within(r2, r1, cands, k);
    lemma_ascending_same(r1, r2);
}

/// The best `k` of the best `more` are the best `k`, where `more` is no less
/// than `k`.
pub proof fn lemma_selected_twice(cands: Seq<Hit>, k: nat, more: nat)
    requires
        k <= more,
    ensures
        selected(selected(cands, more), k) == selected(cands, k),
{
    let wide = selected(cands, more);
    let r = selected(wide, k);
    lemma_selected_is_selection(cands, more);
    lemma_selected_is_selection(wide, k);
    lemma_selected_is_selection(cands, k);
    assert forall|x: Hit| r.contains(x) implies cands.contains(x) by {
        assert(wide.contains(x));
    }
    assert forall|x: Hit| cands.contains(x) && !r.contains(x) implies r.len() == k && forall|
        i: int,
    |
        0 <= i < r.len() ==> precedes(#[trigger] r[i], x) by {
        if !wide.contains(x) {
            // `wide` is full and all of it precedes `x`
            assert forall|i: int| 0 <= i < r.len() implies precedes(#[trigger] r[i], x) by {
                assert(r.contains(r[i]));
                assert(wide.contains(r[i]));
                let j = choose|j: int| 0 <= j < wide.len() && wide[j] == r[i];
                assert(precedes(wide[j], x));
            }
            if r.len() < k {
                // then `r` left nothing of `wide` out, which is longer
                assert forall|y: Hit| wide.contains(y) implies r.contains(y) by {}
                lemma_ascending_within(wide, r);
            }
        }
    }
    lemma_selection_unique(r, selected(cands, k), cands, k);
}

/// Whether `a` precedes `b`.
pub fn precedes_of(a: &Hit, b: &Hit) -> (r: bool)
    ensures
        r == precedes(*a, *b),
{
    a.dist < b.dist || (a.dist == b.dist && a.label < b.label)
}

/// Offers `h` to the hits kept so far.
pub fn offer(best: &mut Vec<Hit>, h: Hit, k: usize)
    ensures
        final(best)@ == offered(old(best)@, h, k as nat),
{
    let mut p: usize = best.len();
    let mut scanning: bool = true;
    assert(best@.take(p as int) =~= best@);
    while scanning
        invariant
            best@ == old(best)@,
            p <= best@.len(),
            rank(best@, h) == rank(best@.take(p as int), h),
            !scanning ==> rank(best@, h) == p,
        decreases p + (if scanning { 1nat } else { 0nat }),
    {
        if p == 0 {
            scanning = false;
        } else if precedes_of(&best[p - 1], &h) {
            scanning = false;
        } else {
            assert(best@.take(p as int).drop_last() =~= best@.take(p - 1));
            p = p - 1;
        }
    }
    let present: bool = p < best.len() && best[p].dist == h.dist && best[p].label == h.label;
    assert(present == (p < best@.len() && best@[p as int] == h));
    if !present {
        best.insert(p, h);
    }
    if best.len() > k {
        best.pop();
    }
}

} // verus!
