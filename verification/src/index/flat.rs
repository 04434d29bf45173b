//! The handle on a plain store of vectors.

use vstd::prelude::*;
use crate::error::Error;
use crate::error::Boundary;
use crate::error::failure;
use crate::index::ConcurrentIndex;
use crate::index::CpuIndex;
use crate::index::FromInnerPtr;
use crate::index::Index;
use crate::index::NativeIndex;
use crate::index::TryClone;
use crate::index::TryFromInnerPtr;
use crate::index::UpcastIndex;
use crate::native::model::IndexKind;
use crate::native::model::ObjectModel;
use crate::native::object::NativeObject;
use crate::native::store::StoreModel;

verus! {

/// A handle on a store of vectors that is searched exhaustively, by squared
/// Euclidean distance.
#[derive(Debug)]
pub struct FlatIndexImpl {
    inner: NativeObject,
}

impl FlatIndexImpl {
    /// Makes an empty store for vectors of dimension `d`. Fails if `d` is zero.
    pub fn new_l2(d: u32) -> (r: Result<Self, Error>)
        ensures
            match r {
                Ok(index) => {
                    &&& d > 0
                    &&& index.wf()
                    &&& index.model() == (ObjectModel::Flat {
                        store: StoreModel { d: d as nat, xb: Seq::empty() },
                    })
                },
                Err(e) => d == 0 && e == Error::ConstructionError,
            },
    {
        match NativeObject::flat(d) {
            Ok(inner) => Ok(FlatIndexImpl { inner }),
            Err(code) => Err(failure(code, Boundary::Construction)),
        }
    }
}

impl NativeIndex for FlatIndexImpl {
    closed spec fn model(&self) -> ObjectModel {
        self.inner@
    }

    open spec fn admits(kind: IndexKind) -> bool {
        kind is Flat
    }

    closed spec fn wf(&self) -> bool {
        self.inner.wf() && self.inner@ is Flat
    }

    proof fn lemma_wf(&self) {
    }

    fn inner_ptr(&self) -> (inner: &NativeObject) {
        &self.inner
    }

    fn inner_mut(&mut self) -> (inner: &mut NativeObject) {
        &mut self.inner
    }

    fn into_inner(self) -> (inner: NativeObject) {
        self.inner
    }
}

impl FromInnerPtr for FlatIndexImpl {
    fn from_inner_ptr(inner: NativeObject) -> (r: Self) {
        FlatIndexImpl { inner }
    }
}

impl TryFromInnerPtr for FlatIndexImpl {
    fn try_from_inner_ptr(inner: NativeObject) -> (r: Result<Self, (Error, NativeObject)>) {
        if inner.is_flat() {
            Ok(FlatIndexImpl { inner })
        } else {
            Err((Error::BadCast, inner))
        }
    }
}

impl Index for FlatIndexImpl {
}

impl ConcurrentIndex for FlatIndexImpl {
}

impl CpuIndex for FlatIndexImpl {
}

impl UpcastIndex for FlatIndexImpl {
}

impl TryClone for FlatIndexImpl {
    fn try_clone(&self) -> (r: Result<Self, Error>) {
        Ok(FlatIndexImpl { inner: self.inner.duplicate() })
    }
}

} // verus!
