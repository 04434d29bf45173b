//! Indexes of the object layer: a store, a pipeline of transforms in front of
//! an index, and an exact re-ranking stage around an index.

use vstd::prelude::*;
use crate::error::STATUS_OK;
use crate::error::STATUS_REFUSED;
use crate::layout::count;
use crate::layout::row;
use crate::layout::row_of;
use crate::layout::lemma_count_exact;
use crate::native::chain::adopt_chain;
use crate::native::chain::chain_model;
use crate::native::chain::learn_chain;
use crate::native::chain::learned_from;
use crate::native::chain::lemma_through_count;
use crate::native::chain::run_chain;
use crate::native::chain::staged;
use crate::native::chain::trained_chain;
use crate::native::model::ObjectModel;
use crate::native::model::lemma_added;
use crate::native::model::lemma_emptied;
use crate::native::model::lemma_trained;
use crate::native::store::StoreModel;
use crate::native::store::FlatStore;
use crate::native::transform::NativeTransform;
use crate::select::Hit;
use crate::select::padded;

verus! {

/// An index of the object layer.
#[derive(Debug)]
pub enum NativeObject {
    Flat { store: FlatStore },
    PreTransform { chain: Vec<NativeTransform>, sub: Box<NativeObject>, own_fields: bool },
    RefineFlat { base: Box<NativeObject>, store: FlatStore, k_factor: u32, own_fields: bool },
}

impl NativeObject {
    /// The mathematical content of the index.
    pub open spec fn model(&self) -> ObjectModel
        decreases self,
    {
        match self {
            NativeObject::Flat { store } => ObjectModel::Flat { store: store@ },
            NativeObject::PreTransform { chain, sub, own_fields } => ObjectModel::PreTransform {
                chain: chain_model(chain@),
                sub: Box::new(sub.model()),
                own_fields: *own_fields,
            },
            NativeObject::RefineFlat { base, store, k_factor, own_fields } => ObjectModel::RefineFlat {
                base: Box::new(base.model()),
                store: store@,
                k_factor: *k_factor as nat,
                own_fields: *own_fields,
            },
        }
    }

    /// The index is well formed.
    pub open spec fn wf(&self) -> bool {
        self.model().wf()
    }
}

impl View for NativeObject {
    type V = ObjectModel;

    open spec fn view(&self) -> ObjectModel {
        self.model()
    }
}

impl NativeObject {
    /// Makes an empty store index for vectors of dimension `d`, which must
    /// be positive.
    pub fn flat(d: u32) -> (r: Result<NativeObject, i32>)
        ensures
            match r {
                Ok(o) => {
                    &&& d > 0
                    &&& o.wf()
                    &&& o@ == (ObjectModel::Flat {
                        store: StoreModel { d: d as nat, xb: Seq::empty() },
                    })
                },
                Err(code) => d == 0 && code == STATUS_REFUSED,
            },
    {
        match FlatStore::new(d) {
            Ok(store) => Ok(NativeObject::Flat { store }),
            Err(code) => Err(code),
        }
    }

    /// Puts the transform `lt` in front of the index `sub`, which must take
    /// vectors of the dimension that the transform gives. The new index owns
    /// both. Where it cannot be made, both come back.
    pub fn pre_transform(lt: NativeTransform, sub: NativeObject) -> (r: Result<
        NativeObject,
        (i32, NativeTransform, NativeObject),
    >)
        requires
            lt.wf(),
            sub.wf(),
        ensures
            match r {
                Ok(o) => {
                    &&& lt@.d_out == sub@.d()
                    &&& o.wf()
                    &&& o@ == (ObjectModel::PreTransform {
                        chain: seq![lt@],
                        sub: Box::new(sub@),
                        own_fields: true,
                    })
                },
                Err((code, lt_back, sub_back)) => {
                    &&& lt@.d_out != sub@.d()
                    &&& code == STATUS_REFUSED
                    &&& lt_back == lt
                    &&& sub_back == sub
                },
            },
    {
        if lt.d_out() != sub.d() {
            return Err((STATUS_REFUSED, lt, sub));
        }
        let mut chain: Vec<NativeTransform> = Vec::new();
        chain.push(lt);
        assert(chain_model(chain@) =~= seq![lt@]);
        Ok(NativeObject::PreTransform { chain, sub: Box::new(sub), own_fields: true })
    }

    /// Wraps the index `base`, which must be empty, in a re-ranking stage
    /// with a store of its own and a factor of one. The new index owns the
    /// base. Where it cannot be made, the base comes back.
    pub fn refine_flat(base: NativeObject) -> (r: Result<NativeObject, (i32, NativeObject)>)
        requires
            base.wf(),
        ensures
            match r {
                Ok(o) => {
                    &&& base@.ntotal() == 0
                    &&& o.wf()
                    &&& o@ == (ObjectModel::RefineFlat {
                        base: Box::new(base@),
                        store: StoreModel { d: base@.d(), xb: Seq::empty() },
                        k_factor: 1,
                        own_fields: true,
                    })
                },
                Err((code, base_back)) => {
                    &&& base@.ntotal() != 0
                    &&& code == STATUS_REFUSED
                    &&& base_back == base
                },
            },
    {
        if base.ntotal() != 0 {
            return Err((STATUS_REFUSED, base));
        }
        proof {
            base.lemma_d_positive();
        }
        match FlatStore::new(base.d()) {
            Ok(store) => {
                proof {
                    lemma_count_exact(0, base@.d());
                }
                Ok(
                    NativeObject::RefineFlat {
                        base: Box::new(base),
                        store,
                        k_factor: 1,
                        own_fields: true,
                    },
                )
            },
            Err(code) => Err((code, base)),
        }
    }

    /// A well-formed index takes vectors of a positive dimension.
    pub proof fn lemma_d_positive(&self)
        requires
            self.wf(),
        ensures
            0 < self@.d() <= u32::MAX,
    {
        match self@ {
            ObjectModel::Flat { store } => {},
            ObjectModel::PreTransform { chain, .. } => {
                assert(chain[0].wf());
            },
            ObjectModel::RefineFlat { store, .. } => {},
        }
    }

    /// The dimension of the vectors that the index takes.
    pub fn d(&self) -> (d: u32)
        requires
            self.wf(),
        ensures
            d == self@.d(),
    {
        match self {
            NativeObject::Flat { store } => store.d(),
            NativeObject::PreTransform { chain, .. } => chain[0].d_in(),
            NativeObject::RefineFlat { store, .. } => store.d(),
        }
    }

    /// The number of vectors in the index.
    pub fn ntotal(&self) -> (n: u64)
        requires
            self.wf(),
        ensures
            n == self@.ntotal(),
        decreases self,
    {
        match self {
            NativeObject::Flat { store } => store.ntotal(),
            NativeObject::PreTransform { sub, .. } => sub.ntotal(),
            NativeObject::RefineFlat { store, .. } => store.ntotal(),
        }
    }

    /// Whether each transform in the index is trained.
    pub fn is_trained(&self) -> (b: bool)
        requires
            self.wf(),
        ensures
            b == self@.is_trained(),
        decreases self,
    {
        match self {
            NativeObject::Flat { .. } => true,
            NativeObject::PreTransform { chain, sub, .. } => {
                let mut all: bool = true;
                let mut i: usize = 0;
                while i < chain.len()
                    invariant
                        i <= chain@.len(),
                        all <==> forall|j: int|
                            0 <= j < i ==> (#[trigger] chain_model(chain@)[j]).trained,
                    decreases chain@.len() - i,
                {
                    if !chain[i].is_trained() {
                        assert(!chain_model(chain@)[i as int].trained);
                        all = false;
                    }
                    i = i + 1;
                }
                all && sub.is_trained()
            },
            NativeObject::RefineFlat { base, .. } => base.is_trained(),
        }
    }
}

impl NativeObject {
    /// Adds the whole vectors of `data`. Nothing is added unless each
    /// transform on the way can be applied to them.
    pub fn add(&mut self, data: &[i32]) -> (status: i32)
        requires
            old(self).wf(),
        ensures
            final(self).wf(),
            final(self)@.kind() == old(self)@.kind(),
            old(self)@.add_ok(data@) ==> status == STATUS_OK && final(self)@ == old(self)@.added(
                data@,
            ),
            !old(self)@.add_ok(data@) ==> status == STATUS_REFUSED && final(self)@ == old(self)@,
            status == STATUS_OK ==> final(self)@.ntotal() == old(self)@.ntotal() + count(
                data@.len(),
                old(self)@.d(),
            ),
        decreases *old(self),
    {
        proof {
            lemma_added(self@, data@);
        }
        match self {
            NativeObject::Flat { store } => {
                store.extend(data);
                STATUS_OK
            },
            NativeObject::PreTransform { chain, sub, .. } => {
                match run_chain(chain, data) {
                    Ok(out) => sub.add(out.as_slice()),
                    Err(code) => code,
                }
            },
            NativeObject::RefineFlat { base, store, .. } => {
                let status: i32 = base.add(data);
                if status == STATUS_OK {
                    store.extend(data);
                }
                status
            },
        }
    }

    /// Removes every vector from the index. What training set stays.
    pub fn reset(&mut self) -> (status: i32)
        requires
            old(self).wf(),
        ensures
            final(self).wf(),
            final(self)@.kind() == old(self)@.kind(),
            status == STATUS_OK,
            final(self)@ == old(self)@.emptied(),
            final(self)@.ntotal() == 0,
        decreases *old(self),
    {
        proof {
            lemma_emptied(self@);
        }
        match self {
            NativeObject::Flat { store } => {
                store.clear();
                STATUS_OK
            },
            NativeObject::PreTransform { sub, .. } => sub.reset(),
            NativeObject::RefineFlat { base, store, .. } => {
                store.clear();
                base.reset()
            },
        }
    }
}

impl NativeObject {
    /// Trains the index on the whole vectors of `data`: each untrained
    /// transform learns from the training data as it reaches it. Nothing is
    /// changed unless the whole index can be trained.
    pub fn train(&mut self, data: &[i32]) -> (status: i32)
        requires
            old(self).wf(),
        ensures
            final(self).wf(),
            final(self)@.kind() == old(self)@.kind(),
            old(self)@.train_ok(data@) ==> status == STATUS_OK && final(self)@ == old(self)@.trained(data@),
            !old(self)@.train_ok(data@) ==> status == STATUS_REFUSED && final(self)@ == old(self)@,
            status == STATUS_OK ==> final(self)@.is_trained(),
        decreases *old(self),
    {
        proof {
            lemma_trained(self@, data@);
        }
        match self {
            NativeObject::Flat { .. } => STATUS_OK,
            NativeObject::PreTransform { chain, sub, .. } => {
                let ghost cm = chain_model(chain@);
                match learn_chain(chain, data) {
                    Ok((learned, out)) => {
                        let status: i32 = sub.train(out.as_slice());
                        if status == STATUS_OK {
                            proof {
                                // what was learned has the length of a centre
                                assert forall|j: int| 0 <= j < chain@.len() implies {
                                    &&& (#[trigger] chain@[j]).wf()
                                    &&& learned@[j] matches Some(c) ==> c@.len() == chain@[j]@.d_in
                                } by {
                                    assert(cm[j].wf());
                                    assert(learned_from(
                                        cm[j],
                                        staged(cm, data@, j as nat),
                                        learned@[j],
                                    ));
                                }
                            }
                            adopt_chain(chain, learned);
                            proof {
                                // each stage is now as training leaves it
                                assert forall|j: int| 0 <= j < cm.len() implies chain_model(chain@)[j]
                                    == trained_chain(cm, data@)[j] by {
                                    assert(learned_from(
                                        cm[j],
                                        staged(cm, data@, j as nat),
                                        learned@[j],
                                    ));
                                }
                                assert(chain_model(chain@) =~= trained_chain(cm, data@));
                            }
                        }
                        status
                    },
                    Err(code) => code,
                }
            },
            NativeObject::RefineFlat { base, .. } => base.train(data),
        }
    }

    /// The hits for the one query `q`, nearest first, at most `k`.
    pub fn search_one(&self, q: &[i32], k: usize) -> (r: Result<Vec<Hit>, i32>)
        requires
            self.wf(),
            q@.len() == self@.d(),
        ensures
            match r {
                Ok(best) => self@.search_ok(q@, k as nat) && best@ == self@.hits(q@, k as nat),
                Err(code) => !self@.search_ok(q@, k as nat) && code == STATUS_REFUSED,
            },
        decreases self,
    {
        match self {
            NativeObject::Flat { store } => {
                if k == 0 {
                    Err(STATUS_REFUSED)
                } else {
                    Ok(store.nearest(q, k))
                }
            },
            NativeObject::PreTransform { chain, sub, .. } => {
                match run_chain(chain, q) {
                    Ok(out) => {
                        proof {
                            let cm = chain_model(chain@);
                            // one query goes in, so one vector comes out
                            lemma_through_count(cm, q@, cm.len());
                            assert(cm[0].wf());
                            lemma_count_exact(1, cm[0].d_in);
                            assert(out@.len() == 1 * cm.last().d_out);
                        }
                        sub.search_one(out.as_slice(), k)
                    },
                    Err(code) => Err(code),
                }
            },
            NativeObject::RefineFlat { base, store, k_factor, .. } => {
                match k.checked_mul(*k_factor as usize) {
                    None => Err(STATUS_REFUSED),
                    Some(k_base) => {
                        match base.search_one(q, k_base) {
                            Ok(cands) => Ok(store.rerank(q, &cands, k)),
                            Err(code) => Err(code),
                        }
                    },
                }
            },
        }
    }

    /// The results for the whole vectors of `queries`: for each query `k`
    /// entries, which are its hits, nearest first, and then empty entries.
    pub fn search(&self, queries: &[i32], k: usize) -> (r: Result<Vec<Hit>, i32>)
        requires
            self.wf(),
        ensures
            match r {
                Ok(out) => self@.batch_ok(queries@, k as nat) && out@ == self@.results(
                    queries@,
                    k as nat,
                ),
                Err(code) => !self@.batch_ok(queries@, k as nat) && code == STATUS_REFUSED,
            },
    {
        if k == 0 {
            return Err(STATUS_REFUSED);
        }
        proof {
            self.lemma_d_positive();
        }
        let d: usize = self.d() as usize;
        let n: usize = queries.len() / d;
        let mut out: Vec<Hit> = Vec::new();
        let mut i: usize = 0;
        while i < n
            invariant
                self.wf(),
                k > 0,
                d == self@.d(),
                d > 0,
                n == count(queries@.len(), d as nat),
                i <= n,
                out@ == self@.batch_hits(queries@, k as nat, i as nat),
                forall|j: int|
                    0 <= j < i ==> self@.search_ok(#[trigger] row(queries@, d as nat, j), k as nat),
            decreases n - i,
        {
            let q: &[i32] = row_of(queries, d, i);
            match self.search_one(q, k) {
                Ok(best) => {
                    let ghost head = out@;
                    let ghost tail = padded(best@, k as nat);
                    let mut j: usize = 0;
                    while j < k
                        invariant
                            j <= k,
                            tail == padded(best@, k as nat),
                            out@ == head + tail.take(j as int),
                        decreases k - j,
                    {
                        let entry: Hit = if j < best.len() {
                            best[j]
                        } else {
                            Hit::none()
                        };
                        out.push(entry);
                        assert(tail.take(j + 1) =~= tail.take(j as int).push(tail[j as int]));
                        j = j + 1;
                    }
                    assert(tail.take(k as int) =~= tail);
                },
                Err(code) => {
                    return Err(code);
                },
            }
            i = i + 1;
        }
        Ok(out)
    }

    /// A deep copy: a new index with the same content, which shares nothing
    /// with this one.
    pub fn duplicate(&self) -> (o: NativeObject)
        ensures
            o@ == self@,
        decreases self,
    {
        match self {
            NativeObject::Flat { store } => NativeObject::Flat { store: store.duplicate() },
            NativeObject::PreTransform { chain, sub, own_fields } => {
                let mut copy: Vec<NativeTransform> = Vec::new();
                let mut i: usize = 0;
                while i < chain.len()
                    invariant
                        i <= chain@.len(),
                        copy@.len() == i,
                        forall|j: int| 0 <= j < i ==> (#[trigger] copy@[j])@ == chain@[j]@,
                    decreases chain@.len() - i,
                {
                    copy.push(chain[i].duplicate());
                    i = i + 1;
                }
                assert(chain_model(copy@) =~= chain_model(chain@));
                NativeObject::PreTransform {
                    chain: copy,
                    sub: Box::new(sub.duplicate()),
                    own_fields: *own_fields,
                }
            },
            NativeObject::RefineFlat { base, store, k_factor, own_fields } => NativeObject::RefineFlat {
                base: Box::new(base.duplicate()),
                store: store.duplicate(),
                k_factor: *k_factor,
                own_fields: *own_fields,
            },
        }
    }

    /// Whether the index is a pipeline.
    pub fn is_pre_transform(&self) -> (b: bool)
        ensures
            b == (self@ is PreTransform),
    {
        match self {
            NativeObject::PreTransform { .. } => true,
            _ => false,
        }
    }

    /// Whether the index is a re-ranking stage.
    pub fn is_refine_flat(&self) -> (b: bool)
        ensures
            b == (self@ is RefineFlat),
    {
        match self {
            NativeObject::RefineFlat { .. } => true,
            _ => false,
        }
    }

    /// Whether the index is a plain store.
    pub fn is_flat(&self) -> (b: bool)
        ensures
            b == (self@ is Flat),
    {
        match self {
            NativeObject::Flat { .. } => true,
            _ => false,
        }
    }

    /// Puts the transform `lt` in front of the stages of a pipeline. It must
    /// give vectors of the dimension that the pipeline takes. The pipeline
    /// then owns it. Where it does not fit, it comes back.
    pub fn prepend_transform(&mut self, lt: NativeTransform) -> (r: Result<
        (),
        (i32, NativeTransform),
    >)
        requires
            old(self).wf(),
            old(self)@ is PreTransform,
            lt.wf(),
        ensures
            final(self).wf(),
            final(self)@.kind() == old(self)@.kind(),
            match r {
                Ok(_) => lt@.d_out == old(self)@.d() && final(self)@ == old(self)@.prepended(lt@),
                Err((code, lt_back)) => {
                    &&& lt@.d_out != old(self)@.d()
                    &&& code == STATUS_REFUSED
                    &&& lt_back == lt
                    &&& final(self)@ == old(self)@
                },
            },
    {
        if lt.d_out() != self.d() {
            return Err((STATUS_REFUSED, lt));
        }
        match self {
            NativeObject::PreTransform { chain, .. } => {
                let ghost cm = chain_model(chain@);
                chain.insert(0, lt);
                proof {
                    let after = chain_model(chain@);
                    assert(after =~= seq![lt@] + cm);
                    assert forall|i: int| 0 <= i < after.len() implies (#[trigger] after[i]).wf() by {
                        if i > 0 {
                            assert(cm[i - 1].wf());
                        }
                    }
                    assert forall|i: int| 0 <= i < after.len() - 1 implies (#[trigger] after[i]).d_out
                        == after[i + 1].d_in by {
                        if i > 0 {
                            assert(cm[i - 1].d_out == cm[i - 1 + 1].d_in);
                        }
                    }
                    assert(after.last() == cm.last());
                }
            },
            _ => {},
        }
        Ok(())
    }

    /// Sets the factor by which a re-ranking stage multiplies the number of
    /// results asked of it, to get the number of candidates that it asks of
    /// its base.
    pub fn set_k_factor(&mut self, k_factor: u32)
        requires
            old(self).wf(),
            old(self)@ is RefineFlat,
        ensures
            final(self).wf(),
            final(self)@.kind() == old(self)@.kind(),
            final(self)@ == old(self)@.with_k_factor(k_factor as nat),
    {
        match self {
            NativeObject::RefineFlat { k_factor: slot, .. } => {
                *slot = k_factor;
            },
            _ => {},
        }
    }

    /// The factor of a re-ranking stage.
    pub fn k_factor(&self) -> (k_factor: u32)
        requires
            self.wf(),
            self@ is RefineFlat,
        ensures
            k_factor == self@->k_factor,
    {
        match self {
            NativeObject::RefineFlat { k_factor, .. } => *k_factor,
            _ => 0,
        }
    }
}

} // verus!
