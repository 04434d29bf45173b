//! The handle on a pipeline: a chain of vector transforms in front of an index.

use vstd::prelude::*;
use std::marker::PhantomData;
use crate::error::Error;
use crate::error::Boundary;
use crate::error::failure;
use crate::index::CastFailure;
use crate::index::ConcurrentIndex;
use crate::index::CpuIndex;
use crate::index::FromInnerPtr;
use crate::index::Index;
use crate::index::IndexImpl;
use crate::index::NativeIndex;
use crate::index::TryClone;
use crate::index::UpcastIndex;
use crate::index::upcast_of;
use crate::native::model::IndexKind;
use crate::native::model::ObjectModel;
use crate::native::object::NativeObject;
use crate::native::transform::NativeTransform;
use crate::vector_transform::NativeVectorTransform;

verus! {

/// A pipeline, under its usual name.
pub type PreTransformIndex<I> = PreTransformIndexImpl<I>;

/// A handle on a pipeline. Vectors that are added, trained on or searched
/// for go through the chain of transforms, first stage to last, and then to
/// the wrapped index, whose labels and distances a search hands back as they
/// are. `I` is the type of handle that the wrapped index had when the
/// pipeline was made.
#[derive(Debug)]
pub struct PreTransformIndexImpl<I> {
    inner: NativeObject,
    sub_index: PhantomData<I>,
}

impl<I: NativeIndex> PreTransformIndexImpl<I> {
    /// Makes a pipeline of the transform `lt` and the index `sub_index`, and
    /// takes both over. Fails unless the transform gives vectors of the
    /// dimension that the index takes.
    pub fn new<LT: NativeVectorTransform>(lt: LT, sub_index: I) -> (r: Result<Self, Error>)
        requires
            lt.wf(),
            sub_index.wf(),
        ensures
            match r {
                Ok(index) => {
                    &&& lt.model().d_out == sub_index.model().d()
                    &&& index.wf()
                    &&& index.model() == (ObjectModel::PreTransform {
                        chain: seq![lt.model()],
                        sub: Box::new(sub_index.model()),
                        own_fields: true,
                    })
                },
                Err(e) => lt.model().d_out != sub_index.model().d() && e
                    == Error::ConstructionError,
            },
    {
        proof {
            sub_index.lemma_wf();
        }
        match Self::new_helper(lt.into_inner(), sub_index.into_inner()) {
            Ok(index) => Ok(index),
            Err((e, lt_back, sub_back)) => Err(e),
        }
    }

    /// Builds the pipeline and the handle on it. Where the pipeline cannot
    /// be built, the parts come back: they were not taken over, and whoever
    /// holds them releases them.
    fn new_helper(lt: NativeTransform, sub_index: NativeObject) -> (r: Result<
        Self,
        (Error, NativeTransform, NativeObject),
    >)
        requires
            lt.wf(),
            sub_index.wf(),
            I::admits(sub_index@.kind()),
        ensures
            match r {
                Ok(index) => {
                    &&& lt@.d_out == sub_index@.d()
                    &&& index.wf()
                    &&& index.model() == (ObjectModel::PreTransform {
                        chain: seq![lt@],
                        sub: Box::new(sub_index@),
                        own_fields: true,
                    })
                },
                Err((e, lt_back, sub_back)) => {
                    &&& lt@.d_out != sub_index@.d()
                    &&& e == Error::ConstructionError
                    &&& lt_back == lt
                    &&& sub_back == sub_index
                },
            },
    {
        match NativeObject::pre_transform(lt, sub_index) {
            Ok(inner) => Ok(PreTransformIndexImpl { inner, sub_index: PhantomData }),
            Err((code, lt_back, sub_back)) => Err(
                (failure(code, Boundary::Construction), lt_back, sub_back),
            ),
        }
    }

    /// Puts the transform `ltrans` in front of the stages of the pipeline,
    /// which takes it over. Fails, and leaves the pipeline as it is, unless
    /// the transform gives vectors of the dimension that the pipeline takes.
    pub fn prepend_transform<LT: NativeVectorTransform>(&mut self, ltrans: LT) -> (r: Result<
        (),
        Error,
    >)
        requires
            old(self).wf(),
            ltrans.wf(),
        ensures
            final(self).wf(),
            match r {
                Ok(_) => {
                    &&& ltrans.model().d_out == old(self).model().d()
                    &&& final(self).model() == old(self).model().prepended(ltrans.model())
                },
                Err(e) => {
                    &&& ltrans.model().d_out != old(self).model().d()
                    &&& e == Error::OperationError
                    &&& final(self).model() == old(self).model()
                },
            },
    {
        match self.inner.prepend_transform(ltrans.into_inner()) {
            Ok(_) => Ok(()),
            Err((code, lt_back)) => Err(failure(code, Boundary::Operation)),
        }
    }
}

impl IndexImpl {
    /// What the cast of this generic handle to a handle on a pipeline gives:
    /// a valid handle on the same index if that is a pipeline, and else the
    /// failure of the cast with this handle as it was.
    pub open spec fn pre_transform_cast(
        self,
        r: Result<PreTransformIndexImpl<IndexImpl>, CastFailure>,
    ) -> bool {
        match r {
            Ok(index) => {
                &&& self.model() is PreTransform
                &&& index.wf()
                &&& index.model() == self.model()
            },
            Err(failed) => {
                &&& !(self.model() is PreTransform)
                &&& failed.error == Error::BadCast
                &&& failed.source.wf()
                &&& failed.source.model() == self.model()
            },
        }
    }

    /// Turns the generic handle into a handle on a pipeline, if the index
    /// behind it is one. If it is not, the cast fails and the generic handle
    /// comes back as it was.
    pub fn into_pre_transform(self) -> (r: Result<PreTransformIndexImpl<IndexImpl>, CastFailure>)
        requires
            self.wf(),
        ensures
            self.pre_transform_cast(r),
    {
        let inner: NativeObject = self.into_inner();
        if inner.is_pre_transform() {
            Ok(PreTransformIndexImpl { inner, sub_index: PhantomData })
        } else {
            Err(CastFailure { error: Error::BadCast, source: IndexImpl::from_inner_ptr(inner) })
        }
    }
}

/// A handle on a pipeline that is turned into the generic handle and back is
/// a valid handle on the same pipeline again: of the same dimension, as
/// trained as it was, and with as many vectors.
pub proof fn lemma_upcast_then_downcast<I: NativeIndex>(
    typed: PreTransformIndexImpl<I>,
    generic: IndexImpl,
    r: Result<PreTransformIndexImpl<IndexImpl>, CastFailure>,
)
    requires
        typed.wf(),
        upcast_of(typed, generic),
        generic.pre_transform_cast(r),
    ensures
        r matches Ok(back) && {
            &&& back.wf()
            &&& back.model() == typed.model()
            &&& back.model().d() == typed.model().d()
            &&& back.model().is_trained() == typed.model().is_trained()
            &&& back.model().ntotal() == typed.model().ntotal()
        },
{
    typed.lemma_wf();
}

/// The cast to a handle on a pipeline fails for an index that was made as
/// something else, and the generic handle comes back valid and on the same
/// index.
pub proof fn lemma_downcast_of_other_fails<T: NativeIndex>(
    typed: T,
    generic: IndexImpl,
    r: Result<PreTransformIndexImpl<IndexImpl>, CastFailure>,
)
    requires
        typed.wf(),
        !(typed.model() is PreTransform),
        upcast_of(typed, generic),
        generic.pre_transform_cast(r),
    ensures
        r matches Err(failed) && {
            &&& failed.error == Error::BadCast
            &&& failed.source.wf()
            &&& failed.source.model() == typed.model()
        },
{
}

impl<I: NativeIndex> NativeIndex for PreTransformIndexImpl<I> {
    closed spec fn model(&self) -> ObjectModel {
        self.inner@
    }

    open spec fn admits(kind: IndexKind) -> bool {
        kind matches IndexKind::PreTransform(sub) && I::admits(*sub)
    }

    closed spec fn wf(&self) -> bool {
        self.inner.wf() && Self::admits(self.inner@.kind())
    }

    proof fn lemma_wf(&self) {
    }

    fn inner_ptr(&self) -> (inner: &NativeObject) {
        &self.inner
    }

    fn inner_mut(&mut self) -> (inner: &mut NativeObject) {
        &mut self.inner
    }

    fn into_inner(self) -> (inner: NativeObject) {
        self.inner
    }
}

impl FromInnerPtr for PreTransformIndexImpl<IndexImpl> {
    fn from_inner_ptr(inner: NativeObject) -> (r: Self) {
        PreTransformIndexImpl { inner, sub_index: PhantomData }
    }
}

impl<I: NativeIndex> Index for PreTransformIndexImpl<I> {
}

impl<I: ConcurrentIndex> ConcurrentIndex for PreTransformIndexImpl<I> {
}

impl<I: CpuIndex> CpuIndex for PreTransformIndexImpl<I> {
}

impl<I: NativeIndex> UpcastIndex for PreTransformIndexImpl<I> {
}

impl<I: NativeIndex> TryClone for PreTransformIndexImpl<I> {
    fn try_clone(&self) -> (r: Result<Self, Error>) {
        Ok(PreTransformIndexImpl { inner: self.inner.duplicate(), sub_index: PhantomData })
    }
}

} // verus!
