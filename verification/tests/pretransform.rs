use composite_index::index::flat::FlatIndexImpl;
use composite_index::index::pretransform::PreTransformIndexImpl;
use composite_index::index::{ConcurrentIndex, Idx, Index, UpcastIndex};
use composite_index::vector_transform::LinearTransformImpl;

const D: u32 = 8;

/// Vectors are held with one binary digit behind the point.
fn fixed(data: &[f32]) -> Vec<i32> {
    data.iter().map(|x| (x * 2.0) as i32).collect()
}

/// The reduction from 8 to 4 dimensions that adds up neighbouring components.
fn pair_sums() -> Vec<i32> {
    let mut matrix = vec![0; 4 * 8];
    for o in 0..4 {
        matrix[o * 8 + 2 * o] = 1;
        matrix[o * 8 + 2 * o + 1] = 1;
    }
    matrix
}

#[test]
fn pre_transform_index_from_cast_upcast() {
    // a reduction to 4 dimensions in front of a flat index, as "PCA4,Flat" describes one
    let vt = LinearTransformImpl::new(D, 4, pair_sums()).unwrap();
    let flat = FlatIndexImpl::new_l2(4).unwrap();
    let mut index = PreTransformIndexImpl::new(vt, flat).unwrap().upcast();

    let some_data = &fixed(&[
        7.5_f32, -7.5, 7.5, -7.5, 7.5, 7.5, 7.5, 7.5, -1., 1., 1., 1., 1., 1., 1., -1., 0., 0.,
        0., 1., 1., 0., 0., -1., 100., 100., 100., 100., -100., 100., 100., 100., 120., 100.,
        100., 105., -100., 100., 100., 105.,
    ]);
    if !index.is_trained() {
        index.train(some_data).unwrap();
    }
    index.add(some_data).unwrap();
    assert_eq!(index.ntotal(), 5);

    let index = index.into_pre_transform().unwrap();
    assert_eq!(index.is_trained(), true);
    assert_eq!(index.ntotal(), 5);
    assert_eq!(index.d(), 8);

    let index_impl = index.upcast();
    assert_eq!(index_impl.is_trained(), true);
    assert_eq!(index_impl.ntotal(), 5);
    assert_eq!(index_impl.d(), 8);
}

#[test]
fn pre_transform_index_search() {
    const D_OUT: u32 = D / 2;
    let index = FlatIndexImpl::new_l2(D_OUT).unwrap();
    assert_eq!(index.d(), D_OUT);
    assert_eq!(index.ntotal(), 0);
    let some_data = &fixed(&[
        7.5_f32, -7.5, 7.5, -7.5, 7.5, 7.5, 7.5, 7.5, -1., 1., 1., 1., 1., 1., 1., -1., 0., 0.,
        0., 1., 1., 0., 0., -1., 100., 100., 100., 100., -100., 100., 100., 100., 120., 100.,
        100., 105., -100., 100., 100., 105.,
    ]);

    let vt = LinearTransformImpl::new(D, D_OUT, pair_sums()).unwrap();
    let mut pre_transform_index = PreTransformIndexImpl::new(vt, index).unwrap();
    assert_eq!(pre_transform_index.d(), D);

    if !pre_transform_index.is_trained() {
        pre_transform_index.train(some_data).unwrap();
    }
    pre_transform_index.add(some_data).unwrap();
    assert_eq!(pre_transform_index.ntotal(), 5);

    let my_query = fixed(&[0.; D as usize]);
    let result = pre_transform_index.search(&my_query, 5).unwrap();
    assert_eq!(
        result.labels,
        vec![2, 1, 0, 3, 4]
            .into_iter()
            .map(Idx::new)
            .collect::<Vec<_>>()
    );
    assert!(result.distances.iter().all(|x| *x > 0));

    let my_query = fixed(&[100.; D as usize]);
    let result = (&pre_transform_index).search(&my_query, 5).unwrap();
    assert_eq!(
        result.labels,
        vec![3, 4, 0, 1, 2]
            .into_iter()
            .map(Idx::new)
            .collect::<Vec<_>>()
    );
    assert!(result.distances.iter().all(|x| *x > 0));

    pre_transform_index.reset().unwrap();
    assert_eq!(pre_transform_index.ntotal(), 0);
}
