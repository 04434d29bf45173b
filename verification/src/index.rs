//! Handles on indexes: what every handle can do, the generic handle, and
//! casts between it and the typed handles.

use vstd::prelude::*;
use crate::error::Error;
use crate::error::Boundary;
use crate::error::failure;
use crate::error::translate;
use crate::layout::count;
use crate::native::model::IndexKind;
use crate::native::model::ObjectModel;
use crate::native::object::NativeObject;
use crate::native::model::lemma_added;
use crate::native::model::lemma_emptied;
use crate::select::Hit;

pub mod flat;
pub mod pretransform;
pub mod refine_flat;

verus! {

/// The label of a stored vector in a search result, or the mark that an
/// entry of the result is empty.
#[derive(Debug, Clone, Copy, PartialEq, Eq, Hash)]
pub struct Idx(u64);

impl Idx {
    /// The label as a number. The greatest number marks an empty entry.
    pub closed spec fn raw(self) -> u64 {
        self.0
    }

    /// The label `idx`.
    pub fn new(idx: u64) -> (r: Idx)
        requires
            idx <= i64::MAX,
        ensures
            r.raw() == idx,
    {
        Idx(idx)
    }

    /// The mark of an empty entry.
    pub fn none() -> (r: Idx)
        ensures
            r.raw() == u64::MAX,
    {
        Idx(u64::MAX)
    }

    /// Whether this marks an empty entry.
    pub fn is_none(&self) -> (b: bool)
        ensures
            b == (self.raw() == u64::MAX),
    {
        self.0 == u64::MAX
    }

    /// Whether this is a label.
    pub fn is_some(&self) -> (b: bool)
        ensures
            b == (self.raw() != u64::MAX),
    {
        self.0 != u64::MAX
    }

    /// The label, if this is one.
    pub fn get(&self) -> (r: Option<u64>)
        ensures
            r == (if self.raw() == u64::MAX {
                None
            } else {
                Some(self.raw())
            }),
    {
        if self.0 == u64::MAX {
            None
        } else {
            Some(self.0)
        }
    }
}

/// The result of a search: for each query `k` entries, nearest first. The
/// entries of the first query come first. An empty entry has the greatest
/// distance and no label.
#[derive(Debug, PartialEq, Eq)]
pub struct SearchResult {
    pub distances: Vec<u128>,
    pub labels: Vec<Idx>,
}

impl View for SearchResult {
    type V = Seq<Hit>;

    open spec fn view(&self) -> Seq<Hit> {
        Seq::new(
            self.labels@.len(),
            |i: int| Hit { dist: self.distances@[i], label: self.labels@[i].raw() },
        )
    }
}

impl SearchResult {
    /// There is a distance for each label.
    pub open spec fn wf(&self) -> bool {
        self.distances@.len() == self.labels@.len()
    }

    /// Splits hits into their distances and labels.
    pub fn from_hits(hits: &Vec<Hit>) -> (r: SearchResult)
        ensures
            r.wf(),
            r@ == hits@,
    {
        let mut distances: Vec<u128> = Vec::new();
        let mut labels: Vec<Idx> = Vec::new();
        let mut i: usize = 0;
        while i < hits.len()
            invariant
                i <= hits@.len(),
                distances@.len() == i,
                labels@.len() == i,
                forall|j: int| 0 <= j < i ==> distances@[j] == hits@[j].dist,
                forall|j: int| 0 <= j < i ==> (#[trigger] labels@[j]).raw() == hits@[j].label,
            decreases hits@.len() - i,
        {
            distances.push(hits[i].dist);
            labels.push(Idx(hits[i].label));
            i = i + 1;
        }
        let r = SearchResult { distances, labels };
        assert(r@ =~= hits@);
        r
    }
}

/// A handle on an index of the object layer.
///
/// The type of a handle says which variants of index it may stand for. A
/// valid handle stands for a well-formed index of such a variant.
pub trait NativeIndex: Sized {
    /// The content of the index behind the handle.
    spec fn model(&self) -> ObjectModel;

    /// The variants of index that a handle of this type may stand for.
    spec fn admits(kind: IndexKind) -> bool;

    /// The handle is valid.
    spec fn wf(&self) -> bool;

    /// A valid handle stands for a well-formed index of a variant that its
    /// type admits.
    proof fn lemma_wf(&self)
        requires
            self.wf(),
        ensures
            self.model().wf(),
            Self::admits(self.model().kind()),
    ;

    /// The index behind the handle.
    fn inner_ptr(&self) -> (inner: &NativeObject)
        requires
            self.wf(),
        ensures
            inner.wf(),
            inner@ == self.model(),
    ;

    /// The index behind the handle, to be changed in place. The handle stays
    /// valid as long as the index stays well formed and of its variant.
    fn inner_mut(&mut self) -> (inner: &mut NativeObject)
        requires
            old(self).wf(),
        ensures
            inner.wf(),
            inner@ == old(self).model(),
            final(self).model() == final(inner)@,
            final(inner).wf() && final(inner)@.kind() == old(self).model().kind() ==> final(self).wf(),
    ;

    /// Gives up the handle for the index behind it.
    fn into_inner(self) -> (inner: NativeObject)
        requires
            self.wf(),
        ensures
            inner.wf(),
            inner@ == self.model(),
    ;
}

/// A handle that can be made for any index of a variant that its type admits.
pub trait FromInnerPtr: NativeIndex {
    /// Makes a handle on `inner`, which must be of a variant that the type
    /// of the handle admits.
    fn from_inner_ptr(inner: NativeObject) -> (r: Self)
        requires
            inner.wf(),
            Self::admits(inner@.kind()),
        ensures
            r.wf(),
            r.model() == inner@,
    ;
}

/// A handle that can be made for an index after a test of its variant.
pub trait TryFromInnerPtr: NativeIndex {
    /// Makes a handle on `inner` if it is of a variant that the type of the
    /// handle admits. If it is not, `inner` comes back with the error.
    fn try_from_inner_ptr(inner: NativeObject) -> (r: Result<Self, (Error, NativeObject)>)
        requires
            inner.wf(),
        ensures
            match r {
                Ok(index) => {
                    &&& Self::admits(inner@.kind())
                    &&& index.wf()
                    &&& index.model() == inner@
                },
                Err((e, back)) => {
                    &&& !Self::admits(inner@.kind())
                    &&& e == Error::BadCast
                    &&& back == inner
                },
            },
    ;
}

/// What every index can do.
pub trait Index: NativeIndex {
    /// Whether the index is ready to take vectors.
    fn is_trained(&self) -> (b: bool)
        requires
            self.wf(),
        ensures
            b == self.model().is_trained(),
    {
        self.inner_ptr().is_trained()
    }

    /// The number of vectors in the index.
    fn ntotal(&self) -> (n: u64)
        requires
            self.wf(),
        ensures
            n == self.model().ntotal(),
    {
        self.inner_ptr().ntotal()
    }

    /// The dimension of the vectors that the index takes.
    fn d(&self) -> (d: u32)
        requires
            self.wf(),
        ensures
            d == self.model().d(),
    {
        self.inner_ptr().d()
    }

    /// Adds the whole vectors of `x`; components behind the last whole
    /// vector are left out. Each vector gets the next free label. Fails, and
    /// adds nothing, unless each transform on the way to the stores can be
    /// applied to the vectors.
    fn add(&mut self, x: &[i32]) -> (r: Result<(), Error>)
        requires
            old(self).wf(),
        ensures
            final(self).wf(),
            match r {
                Ok(_) => {
                    &&& old(self).model().add_ok(x@)
                    &&& final(self).model() == old(self).model().added(x@)
                    &&& final(self).model().ntotal() == old(self).model().ntotal() + count(
                        x@.len(),
                        old(self).model().d(),
                    )
                },
                Err(e) => {
                    &&& !old(self).model().add_ok(x@)
                    &&& e == Error::OperationError
                    &&& final(self).model() == old(self).model()
                },
            },
    {
        let inner = self.inner_mut();
        let status: i32 = inner.add(x);
        translate(status, Boundary::Operation)
    }

    /// Trains the index on the whole vectors of `x`. Fails, and changes
    /// nothing, unless each untrained transform can learn from the vectors
    /// that reach it and can then be applied to them.
    fn train(&mut self, x: &[i32]) -> (r: Result<(), Error>)
        requires
            old(self).wf(),
        ensures
            final(self).wf(),
            match r {
                Ok(_) => {
                    &&& old(self).model().train_ok(x@)
                    &&& final(self).model() == old(self).model().trained(x@)
                    &&& final(self).model().is_trained()
                },
                Err(e) => {
                    &&& !old(self).model().train_ok(x@)
                    &&& e == Error::OperationError
                    &&& final(self).model() == old(self).model()
                },
            },
    {
        let inner = self.inner_mut();
        let status: i32 = inner.train(x);
        translate(status, Boundary::Operation)
    }

    /// Searches the `k` nearest stored vectors for each whole vector of
    /// `query`. The index is left as it is.
    fn search(&mut self, query: &[i32], k: usize) -> (r: Result<SearchResult, Error>)
        requires
            old(self).wf(),
        ensures
            final(self).wf(),
            final(self).model() == old(self).model(),
            match r {
                Ok(found) => {
                    &&& old(self).model().batch_ok(query@, k as nat)
                    &&& found.wf()
                    &&& found@ == old(self).model().results(query@, k as nat)
                },
                Err(e) => !old(self).model().batch_ok(query@, k as nat) && e
                    == Error::OperationError,
            },
    {
        match self.inner_ptr().search(query, k) {
            Ok(hits) => Ok(SearchResult::from_hits(&hits)),
            Err(code) => Err(failure(code, Boundary::Operation)),
        }
    }

    /// Removes every vector from the index. What training set stays.
    fn reset(&mut self) -> (r: Result<(), Error>)
        requires
            old(self).wf(),
        ensures
            final(self).wf(),
            r is Ok,
            final(self).model() == old(self).model().emptied(),
            final(self).model().ntotal() == 0,
    {
        let inner = self.inner_mut();
        let status: i32 = inner.reset();
        translate(status, Boundary::Operation)
    }
}

/// An index that can be searched through a shared reference, by several
/// callers at a time. A composite is one only if what it wraps is one.
pub trait ConcurrentIndex: Index {
    /// Searches the `k` nearest stored vectors for each whole vector of
    /// `query`.
    fn search(&self, query: &[i32], k: usize) -> (r: Result<SearchResult, Error>)
        requires
            self.wf(),
        ensures
            match r {
                Ok(found) => {
                    &&& self.model().batch_ok(query@, k as nat)
                    &&& found.wf()
                    &&& found@ == self.model().results(query@, k as nat)
                },
                Err(e) => !self.model().batch_ok(query@, k as nat) && e == Error::OperationError,
            },
    {
        match self.inner_ptr().search(query, k) {
            Ok(hits) => Ok(SearchResult::from_hits(&hits)),
            Err(code) => Err(failure(code, Boundary::Operation)),
        }
    }
}

/// An index that lives in main memory and is worked on by the processor. A
/// composite is one only if what it wraps is one.
pub trait CpuIndex: Index {
}

/// What copying the index behind `source` gives: a valid handle on an index
/// with the same content.
pub open spec fn copy_of<T: NativeIndex>(source: T, r: Result<T, Error>) -> bool {
    r matches Ok(copy) && copy.wf() && copy.model() == source.model()
}

/// An index of which a deep copy can be made.
pub trait TryClone: NativeIndex {
    /// Makes a deep copy: a handle on a new index with the same content,
    /// which shares nothing with this one.
    fn try_clone(&self) -> (r: Result<Self, Error>)
        requires
            self.wf(),
        ensures
            copy_of(*self, r),
    ;
}

/// A generic handle: it may stand for an index of any variant.
#[derive(Debug)]
pub struct IndexImpl {
    inner: NativeObject,
}

impl NativeIndex for IndexImpl {
    closed spec fn model(&self) -> ObjectModel {
        self.inner@
    }

    open spec fn admits(kind: IndexKind) -> bool {
        true
    }

    closed spec fn wf(&self) -> bool {
        self.inner.wf()
    }

    proof fn lemma_wf(&self) {
    }

    fn inner_ptr(&self) -> (inner: &NativeObject) {
        &self.inner
    }

    fn inner_mut(&mut self) -> (inner: &mut NativeObject) {
        &mut self.inner
    }

    fn into_inner(self) -> (inner: NativeObject) {
        self.inner
    }
}

impl FromInnerPtr for IndexImpl {
    fn from_inner_ptr(inner: NativeObject) -> (r: Self) {
        IndexImpl { inner }
    }
}

impl Index for IndexImpl {
}

impl CpuIndex for IndexImpl {
}

impl TryClone for IndexImpl {
    fn try_clone(&self) -> (r: Result<Self, Error>) {
        Ok(IndexImpl { inner: self.inner.duplicate() })
    }
}

/// A cast that failed, with the handle that was to be cast, which is as it
/// was.
#[derive(Debug)]
pub struct CastFailure {
    pub error: Error,
    pub source: IndexImpl,
}

/// What turning the typed handle `typed` into a generic handle gives: a valid
/// generic handle on the same index.
pub open spec fn upcast_of<T: NativeIndex>(typed: T, generic: IndexImpl) -> bool {
    generic.wf() && generic.model() == typed.model()
}

/// A typed handle that can be turned into the generic handle.
pub trait UpcastIndex: NativeIndex {
    /// Turns the handle into a generic handle on the same index. This always
    /// works, and the index is as it was.
    fn upcast(self) -> (r: IndexImpl)
        requires
            self.wf(),
        ensures
            upcast_of(self, r),
    {
        IndexImpl { inner: self.into_inner() }
    }
}

/// Searches of indexes with the same content for the same queries give the
/// same distances and the same labels, entry by entry.
pub proof fn lemma_search_deterministic(
    m: ObjectModel,
    query: Seq<i32>,
    k: nat,
    first: SearchResult,
    second: SearchResult,
)
    requires
        first.wf(),
        second.wf(),
        first@ == m.results(query, k),
        second@ == m.results(query, k),
    ensures
        first.distances@ == second.distances@,
        first.labels@ == second.labels@,
{
    assert(first@.len() == first.labels@.len());
    assert(second@.len() == second.labels@.len());
    assert forall|i: int| 0 <= i < first.labels@.len() implies first.distances@[i]
        == second.distances@[i] && first.labels@[i] == second.labels@[i] by {
        assert(first@[i] == second@[i]);
    }
    assert(first.distances@ =~= second.distances@);
    assert(first.labels@ =~= second.labels@);
}

/// What is done to a deep copy shows in the copy alone, and what is done to
/// its source in the source alone: after vectors were added to one of the
/// two, its count is that of the other and the number added, and after one
/// was emptied it holds nothing, whatever the other holds.
pub proof fn lemma_copy_is_independent<T: NativeIndex>(source: T, r: Result<T, Error>, x: Seq<i32>)
    requires
        source.wf(),
        copy_of(source, r),
    ensures
        r matches Ok(copy) && {
            &&& copy.model().added(x).ntotal() == source.model().ntotal() + count(
                x.len(),
                source.model().d(),
            )
            &&& source.model().added(x).ntotal() == copy.model().ntotal() + count(
                x.len(),
                copy.model().d(),
            )
            &&& copy.model().emptied().ntotal() == 0
            &&& source.model().emptied().ntotal() == 0
        },
{
    source.lemma_wf();
    lemma_added(source.model(), x);
    lemma_emptied(source.model());
}

} // verus!
