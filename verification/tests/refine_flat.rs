use composite_index::index::flat::FlatIndexImpl;
use composite_index::index::refine_flat::RefineFlatIndexImpl;
use composite_index::index::{ConcurrentIndex, Idx, Index, UpcastIndex};

const D: u32 = 8;

/// Vectors are held with one binary digit behind the point.
fn fixed(data: &[f32]) -> Vec<i32> {
    data.iter().map(|x| (x * 2.0) as i32).collect()
}

#[test]
fn refine_flat_index_search() {
    let index = FlatIndexImpl::new_l2(D).unwrap();
    assert_eq!(index.d(), D);
    assert_eq!(index.ntotal(), 0);

    let mut refine = RefineFlatIndexImpl::new(index).unwrap();
    let some_data = &fixed(&[
        7.5_f32, -7.5, 7.5, -7.5, 7.5, 7.5, 7.5, 7.5, -1., 1., 1., 1., 1., 1., 1., -1., 0., 0.,
        0., 1., 1., 0., 0., -1., 100., 100., 100., 100., -100., 100., 100., 100., 120., 100.,
        100., 105., -100., 100., 100., 105.,
    ]);
    refine.add(some_data).unwrap();
    assert_eq!(refine.ntotal(), 5);

    let my_query = fixed(&[0.; D as usize]);
    let result = refine.search(&my_query, 5).unwrap();
    assert_eq!(
        result.labels,
        vec![2, 1, 0, 3, 4]
            .into_iter()
            .map(Idx::new)
            .collect::<Vec<_>>()
    );
    assert!(result.distances.iter().all(|x| *x > 0));

    let my_query = fixed(&[100.; D as usize]);
    // a stage around a flat index can be searched behind a shared reference
    let result = (&refine).search(&my_query, 5).unwrap();
    assert_eq!(
        result.labels,
        vec![3, 4, 0, 1, 2]
            .into_iter()
            .map(Idx::new)
            .collect::<Vec<_>>()
    );
    assert!(result.distances.iter().all(|x| *x > 0));

    refine.reset().unwrap();
    assert_eq!(refine.ntotal(), 0);
}

#[test]
fn refine_flat_index_upcast() {
    let index = FlatIndexImpl::new_l2(D).unwrap();
    assert_eq!(index.d(), D);
    assert_eq!(index.ntotal(), 0);

    let refine = RefineFlatIndexImpl::new(index).unwrap();

    let index_impl = refine.upcast();
    assert_eq!(index_impl.d(), D);
}
