//! A store of vectors of one dimension, searched exhaustively.

use vstd::prelude::*;
use crate::error::STATUS_REFUSED;
use crate::layout::count;
use crate::layout::row;
use crate::layout::whole;
use crate::layout::row_of;
use crate::layout::lemma_whole_bounds;
use crate::layout::lemma_count_appended;
use crate::layout::lemma_count_exact;
use crate::metric::l2_sqr;
use crate::metric::l2_sqr_of;
use crate::metric::lemma_sq_dist_bound;
use crate::select::Hit;
use crate::select::offer;
use crate::select::selected;
use crate::select::lemma_selected_is_selection;
use crate::select::lemma_selected_twice;

verus! {

/// The mathematical content of a store: the dimension and the components of
/// the stored vectors, one vector after another. The label of a vector is
/// its position among them.
pub struct StoreModel {
    pub d: nat,
    pub xb: Seq<i32>,
}

impl StoreModel {
    /// The dimension is positive and only whole vectors are stored.
    pub open spec fn wf(self) -> bool {
        &&& 0 < self.d <= u32::MAX
        &&& self.xb.len() % self.d == 0
    }

    /// The number of stored vectors.
    pub open spec fn ntotal(self) -> nat {
        count(self.xb.len(), self.d)
    }

    /// The store with the whole vectors of `data` added behind the others.
    pub open spec fn extended(self, data: Seq<i32>) -> StoreModel {
        StoreModel { d: self.d, xb: self.xb + whole(data, self.d) }
    }

    /// The store without its vectors.
    pub open spec fn cleared(self) -> StoreModel {
        StoreModel { d: self.d, xb: Seq::empty() }
    }

    /// The stored vector `label` with its distance to `q`.
    pub open spec fn hit(self, q: Seq<i32>, label: int) -> Hit {
        Hit { dist: l2_sqr(q, row(self.xb, self.d, label)) as u128, label: label as u64 }
    }

    /// Every stored vector with its distance to `q`, in the order of the labels.
    pub open spec fn hits(self, q: Seq<i32>) -> Seq<Hit> {
        Seq::new(self.ntotal(), |i: int| self.hit(q, i))
    }

    /// The `k` stored vectors nearest to `q`, nearest first.
    pub open spec fn nearest(self, q: Seq<i32>, k: nat) -> Seq<Hit> {
        selected(self.hits(q), k)
    }

    /// The candidates that name a stored vector, each with the distance of
    /// that vector to `q`, in the order of the candidates.
    pub open spec fn rescored(self, q: Seq<i32>, cands: Seq<Hit>) -> Seq<Hit>
        decreases cands.len(),
    {
        if cands.len() == 0 {
            Seq::empty()
        } else {
            let rest = self.rescored(q, cands.drop_last());
            let label = cands.last().label;
            if label < self.ntotal() {
                rest.push(self.hit(q, label as int))
            } else {
                rest
            }
        }
    }

    /// The `k` nearest to `q` among the stored vectors that the candidates
    /// name, nearest first.
    pub open spec fn reranked(self, q: Seq<i32>, cands: Seq<Hit>, k: nat) -> Seq<Hit> {
        selected(self.rescored(q, cands), k)
    }
}

/// Adding whole vectors adds their number to the count.
pub proof fn lemma_extended(m: StoreModel, data: Seq<i32>)
    requires
        m.wf(),
    ensures
        m.extended(data).wf(),
        m.extended(data).ntotal() == m.ntotal() + count(data.len(), m.d),
{
    lemma_whole_bounds(data.len(), m.d);
    lemma_count_appended(m.xb.len(), count(data.len(), m.d), m.d);
}

/// A label among the nearest is the label of a stored vector.
pub proof fn lemma_nearest_labels(m: StoreModel, q: Seq<i32>, k: nat)
    ensures
        forall|i: int|
            0 <= i < m.nearest(q, k).len() ==> (#[trigger] m.nearest(q, k)[i]).label < m.ntotal(),
{
    let r = m.nearest(q, k);
    lemma_selected_is_selection(m.hits(q), k);
    assert forall|i: int| 0 <= i < r.len() implies (#[trigger] r[i]).label < m.ntotal() by {
        assert(r.contains(r[i]));
        assert(m.hits(q).contains(r[i]));
        let j = choose|j: int| 0 <= j < m.hits(q).len() && m.hits(q)[j] == r[i];
        assert(r[i] == m.hit(q, j));
    }
}

/// A candidate that was scored again names a stored vector.
pub proof fn lemma_rescored_labels(m: StoreModel, q: Seq<i32>, cands: Seq<Hit>)
    ensures
        forall|i: int|
            0 <= i < m.rescored(q, cands).len() ==> (#[trigger] m.rescored(q, cands)[i]).label
                < m.ntotal(),
    decreases cands.len(),
{
    if cands.len() > 0 {
        let rest = m.rescored(q, cands.drop_last());
        let all = m.rescored(q, cands);
        lemma_rescored_labels(m, q, cands.drop_last());
        assert forall|i: int| 0 <= i < all.len() implies (#[trigger] all[i]).label < m.ntotal() by {
            if i < rest.len() {
                assert(all[i] == rest[i]);
            }
        }
    }
}

/// A label among the candidates that were ranked again is the label of a
/// stored vector.
pub proof fn lemma_reranked_labels(m: StoreModel, q: Seq<i32>, cands: Seq<Hit>, k: nat)
    ensures
        forall|i: int|
            0 <= i < m.reranked(q, cands, k).len() ==> (#[trigger] m.reranked(q, cands, k)[i]).label
                < m.ntotal(),
{
    let r = m.reranked(q, cands, k);
    let scored = m.rescored(q, cands);
    lemma_selected_is_selection(scored, k);
    lemma_rescored_labels(m, q, cands);
    assert forall|i: int| 0 <= i < r.len() implies (#[trigger] r[i]).label < m.ntotal() by {
        assert(r.contains(r[i]));
        assert(scored.contains(r[i]));
        let j = choose|j: int| 0 <= j < scored.len() && scored[j] == r[i];
        assert(scored[j].label < m.ntotal());
    }
}

/// Candidates that are hits of the store itself stay as they are when they
/// are scored again.
pub proof fn lemma_rescored_own(m: StoreModel, q: Seq<i32>, cands: Seq<Hit>)
    requires
        forall|i: int|
            0 <= i < cands.len() ==> (#[trigger] cands[i]).label < m.ntotal() && cands[i] == m.hit(
                q,
                cands[i].label as int,
            ),
    ensures
        m.rescored(q, cands) == cands,
    decreases cands.len(),
{
    if cands.len() == 0 {
        assert(m.rescored(q, cands) =~= cands);
    } else {
        let rest = cands.drop_last();
        assert forall|i: int| 0 <= i < rest.len() implies (#[trigger] rest[i]).label < m.ntotal()
            && rest[i] == m.hit(q, rest[i].label as int) by {
            assert(rest[i] == cands[i]);
        }
        lemma_rescored_own(m, q, rest);
        assert(cands.last() == cands[cands.len() - 1]);
        assert(m.rescored(q, cands) =~= cands);
    }
}

/// To rank again the nearest `more` of a store that holds no more vectors
/// than labels can tell apart gives the nearest `k`, where `more` is no less
/// than `k`.
pub proof fn lemma_reranked_nearest(m: StoreModel, q: Seq<i32>, k: nat, more: nat)
    requires
        m.ntotal() <= u64::MAX,
        k <= more,
    ensures
        m.reranked(q, m.nearest(q, more), k) == m.nearest(q, k),
{
    let wide = m.nearest(q, more);
    lemma_selected_is_selection(m.hits(q), more);
    assert forall|i: int| 0 <= i < wide.len() implies (#[trigger] wide[i]).label < m.ntotal()
        && wide[i] == m.hit(q, wide[i].label as int) by {
        assert(wide.contains(wide[i]));
        assert(m.hits(q).contains(wide[i]));
        let j = choose|j: int| 0 <= j < m.hits(q).len() && m.hits(q)[j] == wide[i];
        assert(wide[i] == m.hit(q, j));
    }
    lemma_rescored_own(m, q, wide);
    lemma_selected_twice(m.hits(q), k, more);
}

/// A store of the object layer.
#[derive(Debug)]
pub struct FlatStore {
    d: u32,
    xb: Vec<i32>,
}

impl View for FlatStore {
    type V = StoreModel;

    closed spec fn view(&self) -> StoreModel {
        StoreModel { d: self.d as nat, xb: self.xb@ }
    }
}

impl FlatStore {
    /// The store is well formed.
    pub open spec fn wf(&self) -> bool {
        self@.wf()
    }

    /// Makes an empty store for vectors of dimension `d`, which must be positive.
    pub fn new(d: u32) -> (r: Result<FlatStore, i32>)
        ensures
            match r {
                Ok(s) => d > 0 && s.wf() && s@ == (StoreModel { d: d as nat, xb: Seq::empty() }),
                Err(code) => d == 0 && code == STATUS_REFUSED,
            },
    {
        if d == 0 {
            Err(STATUS_REFUSED)
        } else {
            proof {
                lemma_count_exact(0, d as nat);
            }
            Ok(FlatStore { d, xb: Vec::new() })
        }
    }

    /// The dimension of the stored vectors.
    pub fn d(&self) -> (d: u32)
        ensures
            d == self@.d,
    {
        self.d
    }

    /// The number of stored vectors.
    pub fn ntotal(&self) -> (n: u64)
        requires
            self.wf(),
        ensures
            n == self@.ntotal(),
    {
        (self.xb.len() / (self.d as usize)) as u64
    }

    /// A deep copy.
    pub fn duplicate(&self) -> (s: FlatStore)
        ensures
            s@ == self@,
    {
        FlatStore { d: self.d, xb: self.xb.clone() }
    }

    /// Adds the whole vectors of `data` behind the stored ones.
    pub fn extend(&mut self, data: &[i32])
        requires
            old(self).wf(),
        ensures
            final(self).wf(),
            final(self)@ == old(self)@.extended(data@),
    {
        let d: usize = self.d as usize;
        let n: usize = data.len() / d;
        proof {
            lemma_whole_bounds(data@.len(), d as nat);
            lemma_extended(self@, data@);
        }
        let m: usize = n * d;
        let mut i: usize = 0;
        while i < m
            invariant
                m <= data@.len(),
                i <= m,
                self.d == old(self).d,
                self.xb@ == old(self).xb@ + data@.take(i as int),
            decreases m - i,
        {
            self.xb.push(data[i]);
            assert(data@.take(i + 1) =~= data@.take(i as int).push(data@[i as int]));
            i = i + 1;
        }
    }

    /// Removes every stored vector.
    pub fn clear(&mut self)
        requires
            old(self).wf(),
        ensures
            final(self).wf(),
            final(self)@ == old(self)@.cleared(),
    {
        proof {
            lemma_count_exact(0, self.d as nat);
        }
        self.xb.clear();
    }

    /// The stored vector `label` with its distance to `q`.
    fn hit_of(&self, q: &[i32], label: usize) -> (h: Hit)
        requires
            self.wf(),
            q@.len() == self@.d,
            label < self@.ntotal(),
        ensures
            h == self@.hit(q@, label as int),
    {
        let d: usize = self.d as usize;
        let x: &[i32] = row_of(self.xb.as_slice(), d, label);
        proof {
            lemma_sq_dist_bound(q@, x@, d as nat);
            assert(d * 0xffff_ffff_ffff_ffff <= 0xffff_ffff * 0xffff_ffff_ffff_ffff)
                by (nonlinear_arith)
                requires
                    d <= 0xffff_ffff,
            ;
        }
        Hit { dist: l2_sqr_of(q, x), label: label as u64 }
    }

    /// The `k` stored vectors nearest to `q`, nearest first.
    pub fn nearest(&self, q: &[i32], k: usize) -> (best: Vec<Hit>)
        requires
            self.wf(),
            q@.len() == self@.d,
        ensures
            best@ == self@.nearest(q@, k as nat),
    {
        let n: usize = self.xb.len() / (self.d as usize);
        let mut best: Vec<Hit> = Vec::new();
        let mut i: usize = 0;
        while i < n
            invariant
                self.wf(),
                q@.len() == self@.d,
                n == self@.ntotal(),
                i <= n,
                best@ == selected(self@.hits(q@).take(i as int), k as nat),
            decreases n - i,
        {
            let h: Hit = self.hit_of(q, i);
            offer(&mut best, h, k);
            assert(self@.hits(q@).take(i + 1).drop_last() =~= self@.hits(q@).take(i as int));
            i = i + 1;
        }
        assert(self@.hits(q@).take(n as int) =~= self@.hits(q@));
        best
    }

    /// The `k` nearest to `q` among the stored vectors that the candidates
    /// name, nearest first.
    pub fn rerank(&self, q: &[i32], cands: &Vec<Hit>, k: usize) -> (best: Vec<Hit>)
        requires
            self.wf(),
            q@.len() == self@.d,
        ensures
            best@ == self@.reranked(q@, cands@, k as nat),
    {
        let n: usize = self.xb.len() / (self.d as usize);
        let mut best: Vec<Hit> = Vec::new();
        let mut i: usize = 0;
        while i < cands.len()
            invariant
                self.wf(),
                q@.len() == self@.d,
                n == self@.ntotal(),
                i <= cands@.len(),
                best@ == selected(self@.rescored(q@, cands@.take(i as int)), k as nat),
            decreases cands@.len() - i,
        {
            let label: u64 = cands[i].label;
            assert(cands@.take(i + 1).drop_last() =~= cands@.take(i as int));
            if label < n as u64 {
                let h: Hit = self.hit_of(q, label as usize);
                offer(&mut best, h, k);
                assert(self@.rescored(q@, cands@.take(i + 1)).drop_last() =~= self@.rescored(
                    q@,
                    cands@.take(i as int),
                ));
            }
            i = i + 1;
        }
        assert(cands@.take(cands@.len() as int) =~= cands@);
        best
    }
}

} // verus!
