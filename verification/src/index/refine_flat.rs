//! The handle on a re-ranking stage around an index.

use vstd::prelude::*;
use std::marker::PhantomData;
use crate::error::Error;
use crate::error::Boundary;
use crate::error::failure;
use crate::index::CastFailure;
use crate::index::ConcurrentIndex;
use crate::index::CpuIndex;
use crate::index::FromInnerPtr;
use crate::index::Index;
use crate::index::IndexImpl;
use crate::index::NativeIndex;
use crate::index::TryClone;
use crate::index::TryFromInnerPtr;
use crate::index::UpcastIndex;
use crate::index::upcast_of;
use crate::native::model::IndexKind;
use crate::native::model::ObjectModel;
use crate::native::object::NativeObject;
use crate::native::store::StoreModel;

verus! {

/// A re-ranking stage, under its usual name.
pub type RefineFlatIndex<BI> = RefineFlatIndexImpl<BI>;

/// A handle on a re-ranking stage. It keeps every vector that is added in a
/// store of its own beside the base index. For `k` results it asks the base
/// for `k * k_factor` candidates, takes the exact distance of each from its
/// store, and hands back the `k` nearest, nearest first. `BI` is the type of
/// handle that the base index had when the stage was made.
#[derive(Debug)]
pub struct RefineFlatIndexImpl<BI> {
    inner: NativeObject,
    base_index: PhantomData<BI>,
}

impl<BI: NativeIndex> RefineFlatIndexImpl<BI> {
    /// Makes a re-ranking stage around `base_index`, with the factor one,
    /// and takes the base over. Fails unless the base is empty: the stage
    /// must store each vector that its base holds.
    pub fn new(base_index: BI) -> (r: Result<Self, Error>)
        requires
            base_index.wf(),
        ensures
            match r {
                Ok(index) => {
                    &&& base_index.model().ntotal() == 0
                    &&& index.wf()
                    &&& index.model() == (ObjectModel::RefineFlat {
                        base: Box::new(base_index.model()),
                        store: StoreModel { d: base_index.model().d(), xb: Seq::empty() },
                        k_factor: 1,
                        own_fields: true,
                    })
                },
                Err(e) => base_index.model().ntotal() != 0 && e == Error::ConstructionError,
            },
    {
        proof {
            base_index.lemma_wf();
        }
        match Self::new_helper(base_index.into_inner()) {
            Ok(index) => Ok(index),
            Err((e, base_back)) => Err(e),
        }
    }

    /// Builds the stage and the handle on it. Where the stage cannot be
    /// built, the base comes back: it was not taken over, and whoever holds
    /// it releases it.
    fn new_helper(base_index: NativeObject) -> (r: Result<Self, (Error, NativeObject)>)
        requires
            base_index.wf(),
            BI::admits(base_index@.kind()),
        ensures
            match r {
                Ok(index) => {
                    &&& base_index@.ntotal() == 0
                    &&& index.wf()
                    &&& index.model() == (ObjectModel::RefineFlat {
                        base: Box::new(base_index@),
                        store: StoreModel { d: base_index@.d(), xb: Seq::empty() },
                        k_factor: 1,
                        own_fields: true,
                    })
                },
                Err((e, base_back)) => {
                    &&& base_index@.ntotal() != 0
                    &&& e == Error::ConstructionError
                    &&& base_back == base_index
                },
            },
    {
        match NativeObject::refine_flat(base_index) {
            Ok(inner) => Ok(RefineFlatIndexImpl { inner, base_index: PhantomData }),
            Err((code, base_back)) => Err((failure(code, Boundary::Construction), base_back)),
        }
    }

    /// Sets the factor by which the number of results asked of the stage is
    /// multiplied to get the number of candidates that it asks of its base.
    /// Any factor is taken; a search with a factor that gives no candidate,
    /// or more than can be counted, fails.
    pub fn set_k_factor(&mut self, kf: u32)
        requires
            old(self).wf(),
        ensures
            final(self).wf(),
            final(self).model() == old(self).model().with_k_factor(kf as nat),
            final(self).model()->k_factor == kf,
    {
        self.inner.set_k_factor(kf);
    }

    /// The factor of the stage, as it was last set; one, if it never was.
    pub fn k_factor(&self) -> (kf: u32)
        requires
            self.wf(),
        ensures
            kf == self.model()->k_factor,
    {
        self.inner.k_factor()
    }
}

impl IndexImpl {
    /// What the cast of this generic handle to a handle on a re-ranking
    /// stage gives: a valid handle on the same index if that is such a stage,
    /// and else the failure of the cast with this handle as it was.
    pub open spec fn refine_flat_cast(
        self,
        r: Result<RefineFlatIndexImpl<IndexImpl>, CastFailure>,
    ) -> bool {
        match r {
            Ok(index) => {
                &&& self.model() is RefineFlat
                &&& index.wf()
                &&& index.model() == self.model()
            },
            Err(failed) => {
                &&& !(self.model() is RefineFlat)
                &&& failed.error == Error::BadCast
                &&& failed.source.wf()
                &&& failed.source.model() == self.model()
            },
        }
    }

    /// Turns the generic handle into a handle on a re-ranking stage, if the
    /// index behind it is one. If it is not, the cast fails and the generic
    /// handle comes back as it was.
    pub fn into_refine_flat(self) -> (r: Result<RefineFlatIndexImpl<IndexImpl>, CastFailure>)
        requires
            self.wf(),
        ensures
            self.refine_flat_cast(r),
    {
        match RefineFlatIndexImpl::<IndexImpl>::try_from_inner_ptr(self.into_inner()) {
            Ok(index) => Ok(index),
            Err((error, inner)) => Err(
                CastFailure { error, source: IndexImpl::from_inner_ptr(inner) },
            ),
        }
    }
}

/// A handle on a re-ranking stage that is turned into the generic handle and
/// back is a valid handle on the same stage again: of the same dimension, as
/// trained as it was, and with as many vectors.
pub proof fn lemma_upcast_then_downcast<BI: NativeIndex>(
    typed: RefineFlatIndexImpl<BI>,
    generic: IndexImpl,
    r: Result<RefineFlatIndexImpl<IndexImpl>, CastFailure>,
)
    requires
        typed.wf(),
        upcast_of(typed, generic),
        generic.refine_flat_cast(r),
    ensures
        r matches Ok(back) && {
            &&& back.wf()
            &&& back.model() == typed.model()
            &&& back.model().d() == typed.model().d()
            &&& back.model().is_trained() == typed.model().is_trained()
            &&& back.model().ntotal() == typed.model().ntotal()
        },
{
    typed.lemma_wf();
}

/// The cast to a handle on a re-ranking stage fails for an index that was
/// made as something else, and the generic handle comes back valid and on
/// the same index.
pub proof fn lemma_downcast_of_other_fails<T: NativeIndex>(
    typed: T,
    generic: IndexImpl,
    r: Result<RefineFlatIndexImpl<IndexImpl>, CastFailure>,
)
    requires
        typed.wf(),
        !(typed.model() is RefineFlat),
        upcast_of(typed, generic),
        generic.refine_flat_cast(r),
    ensures
        r matches Err(failed) && {
            &&& failed.error == Error::BadCast
            &&& failed.source.wf()
            &&& failed.source.model() == typed.model()
        },
{
}

impl<BI: NativeIndex> NativeIndex for RefineFlatIndexImpl<BI> {
    closed spec fn model(&self) -> ObjectModel {
        self.inner@
    }

    open spec fn admits(kind: IndexKind) -> bool {
        kind matches IndexKind::RefineFlat(base) && BI::admits(*base)
    }

    closed spec fn wf(&self) -> bool {
        self.inner.wf() && Self::admits(self.inner@.kind())
    }

    proof fn lemma_wf(&self) {
    }

    fn inner_ptr(&self) -> (inner: &NativeObject) {
        &self.inner
    }

    fn inner_mut(&mut self) -> (inner: &mut NativeObject) {
        &mut self.inner
    }

    fn into_inner(self) -> (inner: NativeObject) {
        self.inner
    }
}

impl FromInnerPtr for RefineFlatIndexImpl<IndexImpl> {
    fn from_inner_ptr(inner: NativeObject) -> (r: Self) {
        RefineFlatIndexImpl { inner, base_index: PhantomData }
    }
}

impl TryFromInnerPtr for RefineFlatIndexImpl<IndexImpl> {
    fn try_from_inner_ptr(inner: NativeObject) -> (r: Result<Self, (Error, NativeObject)>) {
        if inner.is_refine_flat() {
            Ok(RefineFlatIndexImpl { inner, base_index: PhantomData })
        } else {
            Err((Error::BadCast, inner))
        }
    }
}

impl<BI: NativeIndex> Index for RefineFlatIndexImpl<BI> {
}

impl<BI: ConcurrentIndex> ConcurrentIndex for RefineFlatIndexImpl<BI> {
}

impl<BI: CpuIndex> CpuIndex for RefineFlatIndexImpl<BI> {
}

impl<BI: NativeIndex> UpcastIndex for RefineFlatIndexImpl<BI> {
}

impl<BI: NativeIndex> TryClone for RefineFlatIndexImpl<BI> {
    fn try_clone(&self) -> (r: Result<Self, Error>) {
        Ok(RefineFlatIndexImpl { inner: self.inner.duplicate(), base_index: PhantomData })
    }
}

} // verus!
