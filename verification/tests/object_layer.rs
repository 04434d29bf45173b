use composite_index::error::{STATUS_OK, STATUS_REFUSED};
use composite_index::index::SearchResult;
use composite_index::layout::row_of;
use composite_index::native::chain::run_chain;
use composite_index::native::object::NativeObject;
use composite_index::native::store::FlatStore;
use composite_index::native::transform::NativeTransform;
use composite_index::select::Hit;

#[test]
fn operations_report_a_status() {
    assert_eq!(NativeObject::flat(0).err(), Some(STATUS_REFUSED));
    let mut flat = NativeObject::flat(2).unwrap();
    assert!(flat.is_flat());
    assert!(!flat.is_pre_transform());
    assert!(!flat.is_refine_flat());
    assert_eq!(flat.add(&[1, 2, 3, 4]), STATUS_OK);
    assert_eq!(flat.train(&[]), STATUS_OK);
    assert_eq!(flat.ntotal(), 2);
    assert_eq!(flat.search(&[1, 2], 0).err(), Some(STATUS_REFUSED));
    assert_eq!(flat.search_one(&[1, 2], 0).err(), Some(STATUS_REFUSED));
    assert_eq!(
        flat.search_one(&[1, 2], 5).unwrap(),
        vec![Hit { dist: 0, label: 0 }, Hit { dist: 8, label: 1 }]
    );
    assert_eq!(flat.reset(), STATUS_OK);
    assert_eq!(flat.ntotal(), 0);
}

#[test]
fn parts_that_do_not_fit_come_back() {
    let lt = NativeTransform::with_center(2, 1, vec![1, 1], vec![0, 0]).unwrap();
    let mut sub = NativeObject::flat(3).unwrap();
    assert_eq!(sub.add(&[1, 2, 3]), STATUS_OK);
    let (code, lt, sub) = NativeObject::pre_transform(lt, sub).unwrap_err();
    assert_eq!(code, STATUS_REFUSED);
    assert_eq!(lt.d_in(), 2);
    assert_eq!(lt.d_out(), 1);
    assert!(lt.is_trained());
    assert_eq!(sub.d(), 3);
    assert_eq!(sub.ntotal(), 1);

    let (code, mut base) = NativeObject::refine_flat(sub).unwrap_err();
    assert_eq!(code, STATUS_REFUSED);
    assert_eq!(base.ntotal(), 1);
    assert_eq!(base.reset(), STATUS_OK);
    let refined = NativeObject::refine_flat(base).unwrap();
    assert!(refined.is_refine_flat());
    assert_eq!(refined.k_factor(), 1);
    assert_eq!(refined.d(), 3);

    let mut pipeline = NativeObject::pre_transform(lt, NativeObject::flat(1).unwrap()).unwrap();
    assert!(pipeline.is_pre_transform());
    let wide = NativeTransform::new(2, 3, vec![0; 6]).unwrap();
    let (code, wide) = pipeline.prepend_transform(wide).unwrap_err();
    assert_eq!(code, STATUS_REFUSED);
    assert_eq!(wide.d_out(), 3);
    assert!(!wide.is_trained());
    assert_eq!(pipeline.d(), 2);
}

#[test]
fn a_copy_of_an_index_has_its_content() {
    let lt = NativeTransform::with_center(1, 1, vec![3], vec![1]).unwrap();
    let mut index =
        NativeObject::refine_flat(NativeObject::pre_transform(lt, NativeObject::flat(1).unwrap()).unwrap())
            .unwrap();
    index.set_k_factor(2);
    assert_eq!(index.add(&[1, 5, 2]), STATUS_OK);
    let mut copy = index.duplicate();
    assert_eq!(copy.ntotal(), 3);
    assert_eq!(copy.k_factor(), 2);
    assert!(copy.is_trained());
    assert_eq!(copy.search(&[2], 2).unwrap(), index.search(&[2], 2).unwrap());
    assert_eq!(copy.reset(), STATUS_OK);
    assert_eq!(index.ntotal(), 3);
    assert_eq!(
        index.search(&[2], 2).unwrap(),
        vec![Hit { dist: 0, label: 2 }, Hit { dist: 1, label: 0 }]
    );
}

#[test]
fn a_chain_applies_its_stages_first_to_last() {
    // (x, y) goes to (x + y, x - y), and (u, v) to 10 u + v
    let first = NativeTransform::with_center(2, 2, vec![1, 1, 1, -1], vec![0, 0]).unwrap();
    let second = NativeTransform::with_center(2, 1, vec![10, 1], vec![0, 0]).unwrap();
    let chain = vec![first, second];
    assert_eq!(run_chain(&chain, &[3, 1, 0, 2, 9]).unwrap(), vec![42, 18]);
    assert_eq!(run_chain(&chain, &[i32::MAX, i32::MAX]).err(), Some(STATUS_REFUSED));
    let untrained = vec![NativeTransform::new(1, 1, vec![1]).unwrap()];
    assert_eq!(run_chain(&untrained, &[1]).err(), Some(STATUS_REFUSED));
}

#[test]
fn a_transform_learns_and_adopts_a_centre() {
    let mut lt = NativeTransform::new(2, 1, vec![1, 1]).unwrap();
    assert_eq!(lt.apply(&[1, 1]).err(), Some(STATUS_REFUSED));
    assert_eq!(lt.learn(&[7]), None);
    let center = lt.learn(&[1, 10, 4, 21]).unwrap();
    assert_eq!(center, vec![2, 15]);
    assert_eq!(lt.apply_with(&center, &[2, 15, 3, 17]).unwrap(), vec![0, 3]);
    assert!(!lt.is_trained());
    lt.adopt(center);
    assert!(lt.is_trained());
    assert_eq!(lt.apply(&[3, 17]).unwrap(), vec![3]);
    assert_eq!(lt.train(&[100, 100]), STATUS_OK);
    assert_eq!(lt.apply(&[3, 17]).unwrap(), vec![3]);
    let copy = lt.duplicate();
    assert_eq!(copy.apply(&[2, 15]).unwrap(), vec![0]);

    let mut untrained = NativeTransform::new(1, 1, vec![1]).unwrap();
    assert_eq!(untrained.train(&[]), STATUS_REFUSED);
    assert_eq!(untrained.train(&[5, 6]), STATUS_OK);
    assert_eq!(untrained.apply(&[5]).unwrap(), vec![0]);
    assert_eq!(NativeTransform::new(1, 2, vec![1]).err(), Some(STATUS_REFUSED));
    assert_eq!(
        NativeTransform::with_center(1, 1, vec![1], vec![]).err(),
        Some(STATUS_REFUSED)
    );
}

#[test]
fn a_store_ranks_its_vectors_and_candidates() {
    assert_eq!(FlatStore::new(0).err(), Some(STATUS_REFUSED));
    let mut store = FlatStore::new(2).unwrap();
    assert_eq!(store.d(), 2);
    store.extend(&[0, 0, 3, 4, 6, 8, 1]);
    assert_eq!(store.ntotal(), 3);
    assert_eq!(
        store.nearest(&[6, 8], 2),
        vec![Hit { dist: 0, label: 2 }, Hit { dist: 25, label: 1 }]
    );
    // candidates are scored anew; one that names no stored vector is left out,
    // and one that comes twice counts once
    let cands = vec![
        Hit { dist: 999, label: 0 },
        Hit { dist: 0, label: 7 },
        Hit { dist: 5, label: 1 },
        Hit { dist: 1, label: 0 },
    ];
    assert_eq!(
        store.rerank(&[3, 4], &cands, 3),
        vec![Hit { dist: 0, label: 1 }, Hit { dist: 25, label: 0 }]
    );
    let copy = store.duplicate();
    store.clear();
    assert_eq!(store.ntotal(), 0);
    assert_eq!(copy.ntotal(), 3);
}

#[test]
fn results_are_split_into_distances_and_labels() {
    let hits = vec![Hit { dist: 4, label: 1 }, Hit::none()];
    let found = SearchResult::from_hits(&hits);
    assert_eq!(found.distances, vec![4, u128::MAX]);
    assert_eq!(found.labels[0].get(), Some(1));
    assert!(found.labels[1].is_none());
}

#[test]
fn rows_are_taken_from_a_batch() {
    assert_eq!(row_of(&[1, 2, 3, 4, 5, 6, 7], 3, 0), &[1, 2, 3]);
    assert_eq!(row_of(&[1, 2, 3, 4, 5, 6, 7], 3, 1), &[4, 5, 6]);
}
