use composite_index::error::Error;
use composite_index::index::flat::FlatIndexImpl;
use composite_index::index::pretransform::PreTransformIndexImpl;
use composite_index::index::refine_flat::RefineFlatIndexImpl;
use composite_index::index::{
    FromInnerPtr, Idx, Index, IndexImpl, NativeIndex, TryClone, TryFromInnerPtr, UpcastIndex,
};
use composite_index::vector_transform::LinearTransformImpl;

fn pipeline() -> PreTransformIndexImpl<FlatIndexImpl> {
    let vt = LinearTransformImpl::new(2, 1, vec![1, 1]).unwrap();
    let flat = FlatIndexImpl::new_l2(1).unwrap();
    PreTransformIndexImpl::new(vt, flat).unwrap()
}

#[test]
fn a_pipeline_comes_back_from_the_generic_handle() {
    let mut index = pipeline();
    let untrained = index.upcast().into_pre_transform().unwrap();
    assert!(!untrained.is_trained());
    assert_eq!(untrained.ntotal(), 0);
    assert_eq!(untrained.d(), 2);

    index = pipeline();
    index.train(&[1, 2, 3, 4]).unwrap();
    index.add(&[1, 2, 3, 4, 5, 6]).unwrap();
    let mut back = index.upcast().into_pre_transform().unwrap();
    assert!(back.is_trained());
    assert_eq!(back.ntotal(), 3);
    assert_eq!(back.d(), 2);
    back.add(&[7, 8]).unwrap();
    assert_eq!(back.ntotal(), 4);
}

#[test]
fn a_refinement_comes_back_from_the_generic_handle() {
    let mut index = RefineFlatIndexImpl::new(FlatIndexImpl::new_l2(3).unwrap()).unwrap();
    index.set_k_factor(6);
    index.add(&[1, 2, 3, 4, 5, 6]).unwrap();
    let mut back = index.upcast().into_refine_flat().unwrap();
    assert!(back.is_trained());
    assert_eq!(back.ntotal(), 2);
    assert_eq!(back.d(), 3);
    assert_eq!(back.k_factor(), 6);
    let found = Index::search(&mut back, &[4, 5, 6], 1).unwrap();
    assert_eq!(found.labels, vec![Idx::new(1)]);
}

#[test]
fn a_cast_to_another_variant_fails_and_gives_the_handle_back() {
    let mut flat = FlatIndexImpl::new_l2(1).unwrap();
    flat.add(&[1, 2]).unwrap();
    let failed = flat.upcast().into_pre_transform().unwrap_err();
    assert_eq!(failed.error, Error::BadCast);
    let failed = failed.source.into_refine_flat().unwrap_err();
    assert_eq!(failed.error, Error::BadCast);
    let mut source = failed.source;
    assert_eq!(source.ntotal(), 2);
    source.add(&[3]).unwrap();
    assert_eq!(source.ntotal(), 3);
    let found = Index::search(&mut source, &[3], 1).unwrap();
    assert_eq!(found.labels, vec![Idx::new(2)]);

    let failed = pipeline().upcast().into_refine_flat().unwrap_err();
    assert_eq!(failed.error, Error::BadCast);
    assert_eq!(failed.source.d(), 2);
    assert!(failed.source.into_pre_transform().is_ok());

    let refined = RefineFlatIndexImpl::new(FlatIndexImpl::new_l2(2).unwrap()).unwrap();
    let failed = refined.upcast().into_pre_transform().unwrap_err();
    assert_eq!(failed.error, Error::BadCast);
    assert!(failed.source.into_refine_flat().is_ok());
}

#[test]
fn a_cast_goes_by_the_outermost_variant() {
    let refined = RefineFlatIndexImpl::new(pipeline()).unwrap();
    let generic = refined.upcast();
    let failed = generic.into_pre_transform().unwrap_err();
    assert_eq!(failed.error, Error::BadCast);
    let back = failed.source.into_refine_flat().unwrap();
    assert_eq!(back.d(), 2);
}

#[test]
fn the_generic_handle_does_what_the_index_behind_it_does() {
    let mut generic = pipeline().upcast();
    assert!(!generic.is_trained());
    assert_eq!(generic.add(&[1, 1]), Err(Error::OperationError));
    generic.train(&[0, 0]).unwrap();
    generic.add(&[1, 1, 5, 5]).unwrap();
    assert_eq!(generic.ntotal(), 2);
    let found = generic.search(&[4, 4], 2).unwrap();
    assert_eq!(found.labels, vec![Idx::new(1), Idx::new(0)]);
    assert_eq!(found.distances, vec![4, 36]);
    let mut copy = generic.try_clone().unwrap();
    copy.reset().unwrap();
    assert_eq!(copy.ntotal(), 0);
    assert_eq!(generic.ntotal(), 2);
}

#[test]
fn handles_are_made_from_the_index_behind_them() {
    let mut flat = FlatIndexImpl::new_l2(2).unwrap();
    flat.add(&[1, 2]).unwrap();
    assert_eq!(flat.inner_ptr().ntotal(), 1);
    let inner = flat.into_inner();

    let (error, inner) =
        RefineFlatIndexImpl::<IndexImpl>::try_from_inner_ptr(inner).unwrap_err();
    assert_eq!(error, Error::BadCast);
    let flat = FlatIndexImpl::try_from_inner_ptr(inner).unwrap();
    assert_eq!(flat.ntotal(), 1);

    let inner = RefineFlatIndexImpl::new(FlatIndexImpl::new_l2(2).unwrap())
        .unwrap()
        .into_inner();
    let (error, inner) = FlatIndexImpl::try_from_inner_ptr(inner).unwrap_err();
    assert_eq!(error, Error::BadCast);
    let refined = RefineFlatIndexImpl::<IndexImpl>::try_from_inner_ptr(inner).unwrap();
    assert_eq!(refined.k_factor(), 1);
    let generic = IndexImpl::from_inner_ptr(refined.into_inner());
    assert_eq!(generic.d(), 2);

    let inner = pipeline().into_inner();
    assert!(inner.is_pre_transform());
    let typed = PreTransformIndexImpl::<IndexImpl>::from_inner_ptr(inner);
    assert_eq!(typed.d(), 2);
}
