//! The mathematical content of the indexes of the object layer, and what
//! the operations on them come to.

use vstd::prelude::*;
use crate::layout::count;
use crate::layout::row;
use crate::layout::lemma_count_exact;
use crate::native::chain::chain_wf;
use crate::native::chain::through;
use crate::native::chain::passes;
use crate::native::chain::staged;
use crate::native::chain::stages_ok;
use crate::native::chain::trained_chain;
use crate::native::chain::lemma_through_count;
use crate::native::store::StoreModel;
use crate::native::store::lemma_extended;
use crate::native::store::lemma_nearest_labels;
use crate::native::store::lemma_reranked_labels;
use crate::native::store::lemma_reranked_nearest;
use crate::native::transform::TransformModel;
use crate::select::Hit;
use crate::select::padded;
use crate::select::ascending;
use crate::select::lemma_selected_is_selection;

verus! {

/// The variant of an index, down through what it wraps.
pub enum IndexKind {
    Flat,
    PreTransform(Box<IndexKind>),
    RefineFlat(Box<IndexKind>),
}

/// The mathematical content of an index.
pub enum ObjectModel {
    /// A store that is searched exhaustively.
    Flat { store: StoreModel },
    /// A chain of transforms, applied first to last, in front of an index.
    PreTransform { chain: Seq<TransformModel>, sub: Box<ObjectModel>, own_fields: bool },
    /// An index whose candidates are ranked again by their exact distance,
    /// which is taken from a store of the same vectors.
    RefineFlat { base: Box<ObjectModel>, store: StoreModel, k_factor: nat, own_fields: bool },
}

impl ObjectModel {
    /// The variant of the index.
    pub open spec fn kind(self) -> IndexKind
        decreases self,
    {
        match self {
            ObjectModel::Flat { .. } => IndexKind::Flat,
            ObjectModel::PreTransform { sub, .. } => IndexKind::PreTransform(Box::new(sub.kind())),
            ObjectModel::RefineFlat { base, .. } => IndexKind::RefineFlat(Box::new(base.kind())),
        }
    }

    /// The dimension of the vectors that the index takes.
    pub open spec fn d(self) -> nat {
        match self {
            ObjectModel::Flat { store } => store.d,
            ObjectModel::PreTransform { chain, .. } => chain[0].d_in,
            ObjectModel::RefineFlat { store, .. } => store.d,
        }
    }

    /// The number of vectors in the index.
    pub open spec fn ntotal(self) -> nat
        decreases self,
    {
        match self {
            ObjectModel::Flat { store } => store.ntotal(),
            ObjectModel::PreTransform { sub, .. } => sub.ntotal(),
            ObjectModel::RefineFlat { store, .. } => store.ntotal(),
        }
    }

    /// Whether the index is ready to take vectors: each transform in it is
    /// trained.
    pub open spec fn is_trained(self) -> bool
        decreases self,
    {
        match self {
            ObjectModel::Flat { .. } => true,
            ObjectModel::PreTransform { chain, sub, .. } => {
                &&& forall|i: int| 0 <= i < chain.len() ==> (#[trigger] chain[i]).trained
                &&& sub.is_trained()
            },
            ObjectModel::RefineFlat { base, .. } => base.is_trained(),
        }
    }

    /// The index is well formed: dimensions agree where one part feeds
    /// another, a re-ranking stage stores every vector of its base, and a
    /// composite owns its parts.
    pub open spec fn wf(self) -> bool
        decreases self,
    {
        match self {
            ObjectModel::Flat { store } => store.wf(),
            ObjectModel::PreTransform { chain, sub, own_fields } => {
                &&& chain_wf(chain)
                &&& chain.last().d_out == sub.d()
                &&& sub.wf()
                &&& own_fields
            },
            ObjectModel::RefineFlat { base, store, k_factor, own_fields } => {
                &&& base.wf()
                &&& store.wf()
                &&& store.d == base.d()
                &&& store.ntotal() == base.ntotal()
                &&& k_factor <= u32::MAX
                &&& own_fields
            },
        }
    }

    /// Whether `data` can be added: each transform on the way can be applied.
    pub open spec fn add_ok(self, data: Seq<i32>) -> bool
        decreases self,
    {
        match self {
            ObjectModel::Flat { .. } => true,
            ObjectModel::PreTransform { chain, sub, .. } => {
                &&& passes(chain, data, chain.len())
                &&& sub.add_ok(through(chain, data, chain.len()))
            },
            ObjectModel::RefineFlat { base, .. } => base.add_ok(data),
        }
    }

    /// The index after the whole vectors of `data` were added.
    pub open spec fn added(self, data: Seq<i32>) -> ObjectModel
        decreases self,
    {
        match self {
            ObjectModel::Flat { store } => ObjectModel::Flat { store: store.extended(data) },
            ObjectModel::PreTransform { chain, sub, own_fields } => ObjectModel::PreTransform {
                chain,
                sub: Box::new(sub.added(through(chain, data, chain.len()))),
                own_fields,
            },
            ObjectModel::RefineFlat { base, store, k_factor, own_fields } => ObjectModel::RefineFlat {
                base: Box::new(base.added(data)),
                store: store.extended(data),
                k_factor,
                own_fields,
            },
        }
    }

    /// Whether the index can be trained on `data`.
    pub open spec fn train_ok(self, data: Seq<i32>) -> bool
        decreases self,
    {
        match self {
            ObjectModel::Flat { .. } => true,
            ObjectModel::PreTransform { chain, sub, .. } => {
                &&& stages_ok(chain, data, chain.len())
                &&& sub.train_ok(staged(chain, data, chain.len()))
            },
            ObjectModel::RefineFlat { base, .. } => base.train_ok(data),
        }
    }

    /// The index after training on the whole vectors of `data`.
    pub open spec fn trained(self, data: Seq<i32>) -> ObjectModel
        decreases self,
    {
        match self {
            ObjectModel::Flat { store } => self,
            ObjectModel::PreTransform { chain, sub, own_fields } => ObjectModel::PreTransform {
                chain: trained_chain(chain, data),
                sub: Box::new(sub.trained(staged(chain, data, chain.len()))),
                own_fields,
            },
            ObjectModel::RefineFlat { base, store, k_factor, own_fields } => ObjectModel::RefineFlat {
                base: Box::new(base.trained(data)),
                store,
                k_factor,
                own_fields,
            },
        }
    }

    /// The index without its vectors. What training set stays.
    pub open spec fn emptied(self) -> ObjectModel
        decreases self,
    {
        match self {
            ObjectModel::Flat { store } => ObjectModel::Flat { store: store.cleared() },
            ObjectModel::PreTransform { chain, sub, own_fields } => ObjectModel::PreTransform {
                chain,
                sub: Box::new(sub.emptied()),
                own_fields,
            },
            ObjectModel::RefineFlat { base, store, k_factor, own_fields } => ObjectModel::RefineFlat {
                base: Box::new(base.emptied()),
                store: store.cleared(),
                k_factor,
                own_fields,
            },
        }
    }

    /// A pipeline with the transform `t` put in front of its stages.
    pub open spec fn prepended(self, t: TransformModel) -> ObjectModel {
        match self {
            ObjectModel::PreTransform { chain, sub, own_fields } => ObjectModel::PreTransform {
                chain: seq![t] + chain,
                sub,
                own_fields,
            },
            _ => self,
        }
    }

    /// A re-ranking stage with its factor set to `k_factor`.
    pub open spec fn with_k_factor(self, k_factor: nat) -> ObjectModel {
        match self {
            ObjectModel::RefineFlat { base, store, own_fields, .. } => ObjectModel::RefineFlat {
                base,
                store,
                k_factor,
                own_fields,
            },
            _ => self,
        }
    }

    /// Whether the `k` nearest to the one query `q` can be searched: `k` is
    /// positive, each transform on the way can be applied to the query, and
    /// the number of candidates that a re-ranking stage asks of its base is
    /// one that the machine can count.
    pub open spec fn search_ok(self, q: Seq<i32>, k: nat) -> bool
        decreases self,
    {
        match self {
            ObjectModel::Flat { .. } => k > 0,
            ObjectModel::PreTransform { chain, sub, .. } => {
                &&& passes(chain, q, chain.len())
                &&& sub.search_ok(through(chain, q, chain.len()), k)
            },
            ObjectModel::RefineFlat { base, k_factor, .. } => {
                &&& k * k_factor <= usize::MAX
                &&& base.search_ok(q, k * k_factor)
            },
        }
    }

    /// The hits for the one query `q`, nearest first, at most `k`.
    ///
    /// A pipeline searches what it wraps with the transformed query and
    /// hands on what comes back. A re-ranking stage asks its base for
    /// `k * k_factor` candidates and keeps the `k` of them whose stored
    /// vectors are nearest to the query.
    pub open spec fn hits(self, q: Seq<i32>, k: nat) -> Seq<Hit>
        decreases self,
    {
        match self {
            ObjectModel::Flat { store } => store.nearest(q, k),
            ObjectModel::PreTransform { chain, sub, .. } => sub.hits(
                through(chain, q, chain.len()),
                k,
            ),
            ObjectModel::RefineFlat { base, store, k_factor, .. } => store.reranked(
                q,
                base.hits(q, k * k_factor),
                k,
            ),
        }
    }

    /// Whether the whole vectors of `queries` can be searched for their `k`
    /// nearest.
    pub open spec fn batch_ok(self, queries: Seq<i32>, k: nat) -> bool {
        &&& k > 0
        &&& forall|i: int|
            0 <= i < count(queries.len(), self.d()) ==> self.search_ok(
                #[trigger] row(queries, self.d(), i),
                k,
            )
    }

    /// The results for the first `n` queries, `k` entries for each: the hits
    /// of the query, nearest first, then empty entries.
    pub open spec fn batch_hits(self, queries: Seq<i32>, k: nat, n: nat) -> Seq<Hit>
        decreases n,
    {
        if n == 0 {
            Seq::empty()
        } else {
            self.batch_hits(queries, k, (n - 1) as nat) + padded(
                self.hits(row(queries, self.d(), n - 1), k),
                k,
            )
        }
    }

    /// The results for the whole vectors of `queries`.
    pub open spec fn results(self, queries: Seq<i32>, k: nat) -> Seq<Hit> {
        self.batch_hits(queries, k, count(queries.len(), self.d()))
    }
}

/// Adding keeps an index well formed, of its variant and dimension, and as
/// trained as it was, and adds to its count the number of whole vectors given.
pub proof fn lemma_added(m: ObjectModel, data: Seq<i32>)
    requires
        m.wf(),
    ensures
        m.added(data).wf(),
        m.added(data).kind() == m.kind(),
        m.added(data).d() == m.d(),
        m.added(data).is_trained() == m.is_trained(),
        m.added(data).ntotal() == m.ntotal() + count(data.len(), m.d()),
    decreases m,
{
    match m {
        ObjectModel::Flat { store } => {
            lemma_extended(store, data);
        },
        ObjectModel::PreTransform { chain, sub, own_fields } => {
            let inner = through(chain, data, chain.len());
            lemma_added(*sub, inner);
            lemma_through_count(chain, data, chain.len());
        },
        ObjectModel::RefineFlat { base, store, k_factor, own_fields } => {
            lemma_added(*base, data);
            lemma_extended(store, data);
        },
    }
}

/// Training keeps an index well formed, of its variant and dimension, and
/// with the vectors that it had, and leaves it trained.
pub proof fn lemma_trained(m: ObjectModel, data: Seq<i32>)
    requires
        m.wf(),
    ensures
        m.trained(data).wf(),
        m.trained(data).kind() == m.kind(),
        m.trained(data).d() == m.d(),
        m.trained(data).ntotal() == m.ntotal(),
        m.trained(data).is_trained(),
    decreases m,
{
    match m {
        ObjectModel::Flat { store } => {},
        ObjectModel::PreTransform { chain, sub, own_fields } => {
            let inner = staged(chain, data, chain.len());
            let after = trained_chain(chain, data);
            lemma_trained(*sub, inner);
            assert forall|i: int| 0 <= i < after.len() implies (#[trigger] after[i]).wf()
                && after[i].trained && after[i].d_in == chain[i].d_in && after[i].d_out
                == chain[i].d_out by {
                assert(chain[i].wf());
            }
            assert forall|i: int| 0 <= i < after.len() - 1 implies (#[trigger] after[i]).d_out
                == after[i + 1].d_in by {
                assert(chain[i].d_out == chain[i + 1].d_in);
            }
            assert(after.last().d_out == chain.last().d_out);
            assert(chain[0].wf());
        },
        ObjectModel::RefineFlat { base, store, k_factor, own_fields } => {
            lemma_trained(*base, data);
        },
    }
}

/// Emptying keeps an index well formed, of its variant and dimension, and as
/// trained as it was, and leaves no vector in it.
pub proof fn lemma_emptied(m: ObjectModel)
    requires
        m.wf(),
    ensures
        m.emptied().wf(),
        m.emptied().kind() == m.kind(),
        m.emptied().d() == m.d(),
        m.emptied().is_trained() == m.is_trained(),
        m.emptied().ntotal() == 0,
    decreases m,
{
    match m {
        ObjectModel::Flat { store } => {
            lemma_count_exact(0, store.d);
        },
        ObjectModel::PreTransform { chain, sub, own_fields } => {
            lemma_emptied(*sub);
        },
        ObjectModel::RefineFlat { base, store, k_factor, own_fields } => {
            lemma_emptied(*base);
            lemma_count_exact(0, store.d);
        },
    }
}

/// The hits for a query come nearest first, the smaller label first among
/// equally near ones; there are at most `k` of them; and each names a vector
/// of the index.
pub proof fn lemma_hits_ranked(m: ObjectModel, q: Seq<i32>, k: nat)
    ensures
        ascending(m.hits(q, k)),
        m.hits(q, k).len() <= k,
        forall|i: int| 0 <= i < m.hits(q, k).len() ==> (#[trigger] m.hits(q, k)[i]).label < m.ntotal(),
    decreases m,
{
    match m {
        ObjectModel::Flat { store } => {
            lemma_selected_is_selection(store.hits(q), k);
            lemma_nearest_labels(store, q, k);
        },
        ObjectModel::PreTransform { chain, sub, .. } => {
            lemma_hits_ranked(*sub, through(chain, q, chain.len()), k);
        },
        ObjectModel::RefineFlat { base, store, k_factor, .. } => {
            lemma_selected_is_selection(store.rescored(q, base.hits(q, k * k_factor)), k);
            lemma_reranked_labels(store, q, base.hits(q, k * k_factor), k);
        },
    }
}

/// A re-ranking stage around a flat index that holds the same vectors finds
/// what the flat index finds, if its factor is at least one and there are no
/// more vectors than labels can tell apart.
pub proof fn lemma_refined_flat_is_flat(
    store: StoreModel,
    k_factor: nat,
    own_fields: bool,
    q: Seq<i32>,
    k: nat,
)
    requires
        store.ntotal() <= u64::MAX,
        k_factor >= 1,
    ensures
        (ObjectModel::RefineFlat {
            base: Box::new(ObjectModel::Flat { store }),
            store,
            k_factor,
            own_fields,
        }).hits(q, k) == (ObjectModel::Flat { store }).hits(q, k),
{
    assert(k <= k * k_factor) by (nonlinear_arith)
        requires
            k_factor >= 1,
    ;
    lemma_reranked_nearest(store, q, k, k * k_factor);
    let flat = ObjectModel::Flat { store };
    assert(flat.hits(q, k * k_factor) == store.nearest(q, k * k_factor));
    assert(flat.hits(q, k) == store.nearest(q, k));
}

} // verus!
