//! Handles on vector transforms.

use vstd::prelude::*;
use crate::error::Error;
use crate::error::Boundary;
use crate::error::failure;
use crate::error::translate;
use crate::native::transform::apply_ok;
use crate::native::transform::applied;
use crate::native::transform::train_ok;
use crate::native::transform::trained_on;
use crate::native::transform::NativeTransform;
use crate::native::transform::TransformModel;

verus! {

/// A handle on a transform of the object layer.
pub trait NativeVectorTransform: Sized {
    /// The content of the transform behind the handle.
    spec fn model(&self) -> TransformModel;

    /// The handle is valid.
    spec fn wf(&self) -> bool;

    /// A valid handle stands for a well-formed transform.
    proof fn lemma_wf(&self)
        requires
            self.wf(),
        ensures
            self.model().wf(),
    ;

    /// The transform behind the handle.
    fn inner_ptr(&self) -> (inner: &NativeTransform)
        requires
            self.wf(),
        ensures
            inner.wf(),
            inner@ == self.model(),
    ;

    /// The transform behind the handle, to be changed in place. The handle
    /// stays valid as long as the transform stays well formed.
    fn inner_mut(&mut self) -> (inner: &mut NativeTransform)
        requires
            old(self).wf(),
        ensures
            inner.wf(),
            inner@ == old(self).model(),
            final(self).model() == final(inner)@,
            final(inner).wf() ==> final(self).wf(),
    ;

    /// Gives up the handle for the transform behind it.
    fn into_inner(self) -> (inner: NativeTransform)
        requires
            self.wf(),
        ensures
            inner.wf(),
            inner@ == self.model(),
    ;
}

/// What every transform can tell of itself.
pub trait VectorTransform: NativeVectorTransform {
    /// Whether the transform is ready to be applied.
    fn is_trained(&self) -> (b: bool)
        requires
            self.wf(),
        ensures
            b == self.model().trained,
    {
        self.inner_ptr().is_trained()
    }

    /// The dimension of the vectors that the transform takes.
    fn d_in(&self) -> (d: u32)
        requires
            self.wf(),
        ensures
            d == self.model().d_in,
    {
        self.inner_ptr().d_in()
    }

    /// The dimension of the vectors that the transform gives.
    fn d_out(&self) -> (d: u32)
        requires
            self.wf(),
        ensures
            d == self.model().d_out,
    {
        self.inner_ptr().d_out()
    }

    /// Trains the transform on the whole vectors of `x`. A trained transform
    /// stays as it is. Fails, and changes nothing, if the transform is
    /// untrained and `x` holds no whole vector.
    fn train(&mut self, x: &[i32]) -> (r: Result<(), Error>)
        requires
            old(self).wf(),
        ensures
            final(self).wf(),
            match r {
                Ok(_) => {
                    &&& train_ok(old(self).model(), x@)
                    &&& final(self).model() == trained_on(old(self).model(), x@)
                },
                Err(e) => {
                    &&& !train_ok(old(self).model(), x@)
                    &&& e == Error::OperationError
                    &&& final(self).model() == old(self).model()
                },
            },
    {
        let inner = self.inner_mut();
        let status: i32 = inner.train(x);
        translate(status, Boundary::Operation)
    }

    /// The images of the whole vectors of `x`, one after another. Fails if
    /// the transform is untrained or a component of an image does not fit.
    fn apply(&self, x: &[i32]) -> (r: Result<Vec<i32>, Error>)
        requires
            self.wf(),
        ensures
            match r {
                Ok(y) => apply_ok(self.model(), x@) && y@ == applied(self.model(), x@),
                Err(e) => !apply_ok(self.model(), x@) && e == Error::OperationError,
            },
    {
        match self.inner_ptr().apply(x) {
            Ok(y) => Ok(y),
            Err(code) => Err(failure(code, Boundary::Operation)),
        }
    }
}

/// A handle on a linear map that is applied to centred vectors.
#[derive(Debug)]
pub struct LinearTransformImpl {
    inner: NativeTransform,
}

impl LinearTransformImpl {
    /// Makes an untrained transform from vectors of dimension `d_in` to
    /// vectors of dimension `d_out`, with the given matrix of `d_out` rows of
    /// `d_in` coefficients. Training sets its centre to the mean of the
    /// training vectors. Fails unless both dimensions are positive and the
    /// matrix has `d_out * d_in` coefficients.
    pub fn new(d_in: u32, d_out: u32, matrix: Vec<i32>) -> (r: Result<Self, Error>)
        ensures
            match r {
                Ok(lt) => {
                    &&& NativeTransform::shape_ok(d_in, d_out, matrix@.len())
                    &&& lt.wf()
                    &&& lt.model() == (TransformModel {
                        d_in: d_in as nat,
                        d_out: d_out as nat,
                        matrix: matrix@,
                        center: Seq::new(d_in as nat, |j: int| 0i32),
                        trained: false,
                    })
                },
                Err(e) => {
                    &&& !NativeTransform::shape_ok(d_in, d_out, matrix@.len())
                    &&& e == Error::ConstructionError
                },
            },
    {
        match NativeTransform::new(d_in, d_out, matrix) {
            Ok(inner) => Ok(LinearTransformImpl { inner }),
            Err(code) => Err(failure(code, Boundary::Construction)),
        }
    }

    /// Makes a trained transform with the given matrix and centre. Fails
    /// unless both dimensions are positive, the matrix has `d_out * d_in`
    /// coefficients and the centre has `d_in` components.
    pub fn with_center(d_in: u32, d_out: u32, matrix: Vec<i32>, center: Vec<i32>) -> (r: Result<
        Self,
        Error,
    >)
        ensures
            match r {
                Ok(lt) => {
                    &&& NativeTransform::shape_ok(d_in, d_out, matrix@.len())
                    &&& center@.len() == d_in
                    &&& lt.wf()
                    &&& lt.model() == (TransformModel {
                        d_in: d_in as nat,
                        d_out: d_out as nat,
                        matrix: matrix@,
                        center: center@,
                        trained: true,
                    })
                },
                Err(e) => {
                    &&& !(NativeTransform::shape_ok(d_in, d_out, matrix@.len()) && center@.len()
                        == d_in)
                    &&& e == Error::ConstructionError
                },
            },
    {
        match NativeTransform::with_center(d_in, d_out, matrix, center) {
            Ok(inner) => Ok(LinearTransformImpl { inner }),
            Err(code) => Err(failure(code, Boundary::Construction)),
        }
    }
}

impl NativeVectorTransform for LinearTransformImpl {
    closed spec fn model(&self) -> TransformModel {
        self.inner@
    }

    closed spec fn wf(&self) -> bool {
        self.inner.wf()
    }

    proof fn lemma_wf(&self) {
    }

    fn inner_ptr(&self) -> (inner: &NativeTransform) {
        &self.inner
    }

    fn inner_mut(&mut self) -> (inner: &mut NativeTransform) {
        &mut self.inner
    }

    fn into_inner(self) -> (inner: NativeTransform) {
        self.inner
    }
}

impl VectorTransform for LinearTransformImpl {
}

} // verus!
