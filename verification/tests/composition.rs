use composite_index::error::Error;
use composite_index::index::flat::FlatIndexImpl;
use composite_index::index::pretransform::PreTransformIndexImpl;
use composite_index::index::refine_flat::RefineFlatIndexImpl;
use composite_index::index::{ConcurrentIndex, CpuIndex, Idx, Index, TryClone};
use composite_index::vector_transform::{LinearTransformImpl, VectorTransform};

fn labels(raw: &[u64]) -> Vec<Idx> {
    raw.iter().map(|l| Idx::new(*l)).collect()
}

/// The transform from 2 dimensions to 1 that keeps the first component.
fn first_component() -> LinearTransformImpl {
    LinearTransformImpl::with_center(2, 1, vec![1, 0], vec![0, 0]).unwrap()
}

fn searched_by_many<T: ConcurrentIndex>(index: &T, query: &[i32], k: usize) -> Vec<Idx> {
    index.search(query, k).unwrap().labels
}

fn on_the_processor<T: CpuIndex>(index: &T) -> u32 {
    index.d()
}

#[test]
fn count_follows_add_and_reset_in_a_flat_index() {
    let mut index = FlatIndexImpl::new_l2(2).unwrap();
    index.add(&[1, 1, 2, 2, 3, 3]).unwrap();
    assert_eq!(index.ntotal(), 3);
    index.add(&[4, 4]).unwrap();
    assert_eq!(index.ntotal(), 4);
    index.reset().unwrap();
    assert_eq!(index.ntotal(), 0);
}

#[test]
fn count_follows_add_and_reset_in_a_pipeline() {
    let flat = FlatIndexImpl::new_l2(1).unwrap();
    let mut index = PreTransformIndexImpl::new(first_component(), flat).unwrap();
    index.add(&[1, 1, 2, 2, 3, 3]).unwrap();
    assert_eq!(index.ntotal(), 3);
    index.reset().unwrap();
    assert_eq!(index.ntotal(), 0);
    assert_eq!(index.d(), 2);
    assert!(index.is_trained());
}

#[test]
fn count_follows_add_and_reset_in_a_refinement() {
    let flat = FlatIndexImpl::new_l2(2).unwrap();
    let mut index = RefineFlatIndexImpl::new(flat).unwrap();
    index.add(&[1, 1, 2, 2, 3, 3, 9]).unwrap();
    assert_eq!(index.ntotal(), 3);
    index.reset().unwrap();
    assert_eq!(index.ntotal(), 0);
    index.add(&[5, 5]).unwrap();
    assert_eq!(index.ntotal(), 1);
}

#[test]
fn count_follows_add_and_reset_in_nested_composites() {
    let flat = FlatIndexImpl::new_l2(1).unwrap();
    let pipeline = PreTransformIndexImpl::new(first_component(), flat).unwrap();
    let mut refined = RefineFlatIndexImpl::new(pipeline).unwrap();
    refined.add(&[1, 1, 2, 2]).unwrap();
    assert_eq!(refined.ntotal(), 2);

    let flat = FlatIndexImpl::new_l2(1).unwrap();
    let inner = RefineFlatIndexImpl::new(flat).unwrap();
    let mut outer = PreTransformIndexImpl::new(first_component(), inner).unwrap();
    outer.add(&[1, 1, 2, 2, 3, 3]).unwrap();
    assert_eq!(outer.ntotal(), 3);
    outer.reset().unwrap();
    assert_eq!(outer.ntotal(), 0);
    refined.reset().unwrap();
    assert_eq!(refined.ntotal(), 0);
}

#[test]
fn a_pipeline_hands_back_what_the_wrapped_index_finds() {
    // (x, y) goes to x + 2 y
    let vt = LinearTransformImpl::with_center(2, 1, vec![1, 2], vec![0, 0]).unwrap();
    let flat = FlatIndexImpl::new_l2(1).unwrap();
    let mut index = PreTransformIndexImpl::new(vt, flat).unwrap();
    index.add(&[0, 10, 7, 0, 1, 1]).unwrap();
    // images: 20, 7, 3; the query goes to 4
    let found = Index::search(&mut index, &[4, 0], 3).unwrap();
    assert_eq!(found.labels, labels(&[2, 1, 0]));
    assert_eq!(found.distances, vec![1, 9, 256]);
}

#[test]
fn a_pipeline_centres_before_it_maps() {
    // (x, y) goes to 3 (x - 1) + 4 (y - 2)
    let vt = LinearTransformImpl::with_center(2, 1, vec![3, 4], vec![1, 2]).unwrap();
    assert_eq!(vt.apply(&[2, 4, 1, 2, 0, 0]).unwrap(), vec![11, 0, -11]);
}

#[test]
fn prepend_puts_the_new_stage_first() {
    // the first stage made: (x, y) goes to x + y
    let sum = LinearTransformImpl::with_center(2, 1, vec![1, 1], vec![0, 0]).unwrap();
    let flat = FlatIndexImpl::new_l2(1).unwrap();
    let mut index = PreTransformIndexImpl::new(sum, flat).unwrap();
    // the stage put in front: (x, y, z) goes to (x, 2 y + z)
    let front = LinearTransformImpl::with_center(3, 2, vec![1, 0, 0, 0, 2, 1], vec![0, 0, 0])
        .unwrap();
    index.prepend_transform(front).unwrap();
    assert_eq!(index.d(), 3);
    index.add(&[1, 1, 1]).unwrap();
    // the vector goes to (1, 3) and then to 4; the query goes to (0, 0) and then to 0
    let found = Index::search(&mut index, &[0, 0, 0], 1).unwrap();
    assert_eq!(found.labels, labels(&[0]));
    assert_eq!(found.distances, vec![16]);
}

#[test]
fn training_a_pipeline_trains_each_stage_on_what_reaches_it() {
    // second stage: untrained, (u, v) goes to u + v, less what it learns
    let second = LinearTransformImpl::new(2, 1, vec![1, 1]).unwrap();
    assert!(!second.is_trained());
    let flat = FlatIndexImpl::new_l2(1).unwrap();
    let mut index = PreTransformIndexImpl::new(second, flat).unwrap();
    // first stage: untrained, doubles both components of what is left of the centre
    let first = LinearTransformImpl::new(2, 2, vec![2, 0, 0, 2]).unwrap();
    index.prepend_transform(first).unwrap();
    assert!(!index.is_trained());
    assert_eq!(index.ntotal(), 0);

    index.train(&[0, 0, 4, 8]).unwrap();
    assert!(index.is_trained());
    assert_eq!(index.ntotal(), 0);

    // the first stage learned (2, 4): it sends (0, 0) to (-4, -8) and (4, 8) to (4, 8).
    // the second stage learned the mean of those, (0, 0).
    index.add(&[2, 4, 3, 4]).unwrap();
    // (2, 4) goes to (0, 0) and to 0; (3, 4) goes to (2, 0) and to 2
    let found = Index::search(&mut index, &[2, 5], 2).unwrap();
    // the query goes to (0, 2) and to 2
    assert_eq!(found.labels, labels(&[1, 0]));
    assert_eq!(found.distances, vec![0, 4]);
}

#[test]
fn training_rounds_the_mean_down() {
    let mut vt = LinearTransformImpl::new(1, 1, vec![1]).unwrap();
    assert!(!vt.is_trained());
    assert_eq!(vt.d_in(), 1);
    assert_eq!(vt.d_out(), 1);
    vt.train(&[-3, -4]).unwrap();
    assert!(vt.is_trained());
    // the mean of -3 and -4 is -3.5, which is rounded down to -4
    assert_eq!(vt.apply(&[0, -4]).unwrap(), vec![4, 0]);

    let mut vt = LinearTransformImpl::new(2, 2, vec![1, 0, 0, 1]).unwrap();
    vt.train(&[1, -1, 2, -2, 4, -4, 100]).unwrap();
    // the means are 7 / 3 and -7 / 3, rounded down to 2 and -3
    assert_eq!(vt.apply(&[0, 0]).unwrap(), vec![-2, 3]);
}

#[test]
fn training_leaves_a_trained_transform_as_it_is() {
    let mut vt = LinearTransformImpl::with_center(1, 1, vec![1], vec![10]).unwrap();
    vt.train(&[1, 2, 3]).unwrap();
    vt.train(&[]).unwrap();
    assert_eq!(vt.apply(&[10]).unwrap(), vec![0]);
}

#[test]
fn refinement_ranks_the_candidates_of_its_base_by_exact_distance() {
    // the base sees the first component only
    let flat = FlatIndexImpl::new_l2(1).unwrap();
    let base = PreTransformIndexImpl::new(first_component(), flat).unwrap();
    let mut index = RefineFlatIndexImpl::new(base).unwrap();
    index.add(&[0, 10, 1, 0, 5, 0]).unwrap();
    assert_eq!(index.k_factor(), 1);

    // to the base the nearest to (0, 0) is vector 0, then 1, then 2
    let found = Index::search(&mut index, &[0, 0], 1).unwrap();
    assert_eq!(found.labels, labels(&[0]));
    assert_eq!(found.distances, vec![100]);

    let found = Index::search(&mut index, &[0, 0], 2).unwrap();
    assert_eq!(found.labels, labels(&[1, 0]));
    assert_eq!(found.distances, vec![1, 100]);

    index.set_k_factor(3);
    let found = Index::search(&mut index, &[0, 0], 1).unwrap();
    assert_eq!(found.labels, labels(&[1]));
    assert_eq!(found.distances, vec![1]);

    index.set_k_factor(2);
    let found = Index::search(&mut index, &[0, 0], 2).unwrap();
    assert_eq!(found.labels, vec![Idx::new(1), Idx::new(2)]);
    assert_eq!(found.distances, vec![1, 25]);
}

#[test]
fn refinement_of_a_flat_index_finds_what_the_flat_index_finds() {
    let data = [3, 1, -2, 8, 0, 0, 7, 7, -5, 2];
    let mut flat = FlatIndexImpl::new_l2(2).unwrap();
    flat.add(&data).unwrap();
    let mut refined = RefineFlatIndexImpl::new(FlatIndexImpl::new_l2(2).unwrap()).unwrap();
    refined.add(&data).unwrap();
    refined.set_k_factor(2);
    let plain = Index::search(&mut flat, &[1, 1, 6, 6], 5).unwrap();
    let again = Index::search(&mut refined, &[1, 1, 6, 6], 5).unwrap();
    assert_eq!(plain, again);
    assert_eq!(plain.labels[0], Idx::new(2));
    assert_eq!(plain.distances[0], 2);
}

#[test]
fn k_factor_is_read_back_as_it_was_set() {
    let mut index = RefineFlatIndexImpl::new(FlatIndexImpl::new_l2(4).unwrap()).unwrap();
    assert_eq!(index.k_factor(), 1);
    index.set_k_factor(4);
    assert_eq!(index.k_factor(), 4);
    index.set_k_factor(0);
    assert_eq!(index.k_factor(), 0);
    index.set_k_factor(u32::MAX);
    assert_eq!(index.k_factor(), u32::MAX);
}

#[test]
fn a_copy_and_its_original_go_their_own_ways() {
    let flat = FlatIndexImpl::new_l2(1).unwrap();
    let mut source = PreTransformIndexImpl::new(first_component(), flat).unwrap();
    source.add(&[1, 1, 2, 2]).unwrap();

    let mut copy = source.try_clone().unwrap();
    assert_eq!(copy.ntotal(), 2);
    assert_eq!(copy.d(), 2);

    copy.add(&[3, 3]).unwrap();
    assert_eq!(copy.ntotal(), 3);
    assert_eq!(source.ntotal(), 2);

    copy.reset().unwrap();
    assert_eq!(copy.ntotal(), 0);
    assert_eq!(source.ntotal(), 2);

    source.add(&[4, 4, 5, 5]).unwrap();
    assert_eq!(source.ntotal(), 4);
    assert_eq!(copy.ntotal(), 0);

    source.reset().unwrap();
    copy.add(&[6, 6]).unwrap();
    assert_eq!(source.ntotal(), 0);
    assert_eq!(copy.ntotal(), 1);
}

#[test]
fn a_copy_of_a_refinement_keeps_factor_and_vectors() {
    let mut source = RefineFlatIndexImpl::new(FlatIndexImpl::new_l2(1).unwrap()).unwrap();
    source.set_k_factor(5);
    source.add(&[7, 9]).unwrap();
    let mut copy = source.try_clone().unwrap();
    assert_eq!(copy.k_factor(), 5);
    source.set_k_factor(2);
    assert_eq!(copy.k_factor(), 5);
    let found = Index::search(&mut copy, &[8], 2).unwrap();
    assert_eq!(found.labels, labels(&[0, 1]));
    copy.reset().unwrap();
    assert_eq!(source.ntotal(), 2);
}

#[test]
fn composites_of_concurrent_indexes_are_searched_behind_shared_references() {
    let flat = FlatIndexImpl::new_l2(1).unwrap();
    let mut pipeline = PreTransformIndexImpl::new(first_component(), flat).unwrap();
    pipeline.add(&[5, 0, 1, 0]).unwrap();
    assert_eq!(searched_by_many(&pipeline, &[0, 0], 2), labels(&[1, 0]));
    assert_eq!(on_the_processor(&pipeline), 2);

    let mut refined = RefineFlatIndexImpl::new(FlatIndexImpl::new_l2(1).unwrap()).unwrap();
    refined.add(&[5, 1]).unwrap();
    assert_eq!(searched_by_many(&refined, &[0], 2), labels(&[1, 0]));
    assert_eq!(on_the_processor(&refined), 1);
}

#[test]
fn construction_fails_where_the_parts_do_not_fit() {
    assert_eq!(FlatIndexImpl::new_l2(0).err(), Some(Error::ConstructionError));

    let flat = FlatIndexImpl::new_l2(3).unwrap();
    let r = PreTransformIndexImpl::new(first_component(), flat);
    assert_eq!(r.err(), Some(Error::ConstructionError));

    let mut flat = FlatIndexImpl::new_l2(1).unwrap();
    flat.add(&[1]).unwrap();
    let r = RefineFlatIndexImpl::new(flat);
    assert_eq!(r.err(), Some(Error::ConstructionError));

    assert_eq!(
        LinearTransformImpl::new(2, 2, vec![1, 0, 0]).err(),
        Some(Error::ConstructionError)
    );
    assert_eq!(
        LinearTransformImpl::new(0, 1, vec![]).err(),
        Some(Error::ConstructionError)
    );
    assert_eq!(
        LinearTransformImpl::new(1, 0, vec![]).err(),
        Some(Error::ConstructionError)
    );
    assert_eq!(
        LinearTransformImpl::with_center(2, 1, vec![1, 1], vec![0]).err(),
        Some(Error::ConstructionError)
    );
    assert_eq!(
        LinearTransformImpl::with_center(2, 1, vec![1], vec![0, 0]).err(),
        Some(Error::ConstructionError)
    );
}

#[test]
fn a_failed_operation_leaves_the_handle_as_it_was() {
    let flat = FlatIndexImpl::new_l2(1).unwrap();
    let mut index = PreTransformIndexImpl::new(first_component(), flat).unwrap();
    index.add(&[1, 1]).unwrap();

    // a stage that gives vectors of 3 dimensions does not fit in front
    let wrong = LinearTransformImpl::with_center(1, 3, vec![1, 1, 1], vec![0]).unwrap();
    assert_eq!(index.prepend_transform(wrong), Err(Error::OperationError));
    assert_eq!(index.d(), 2);
    assert_eq!(index.ntotal(), 1);

    // nothing can be the nearest of none
    assert_eq!(Index::search(&mut index, &[0, 0], 0).err(), Some(Error::OperationError));
    assert_eq!(
        ConcurrentIndex::search(&index, &[0, 0], 0).err(),
        Some(Error::OperationError)
    );

    index.add(&[2, 2]).unwrap();
    assert_eq!(index.ntotal(), 2);
    let found = Index::search(&mut index, &[2, 0], 1).unwrap();
    assert_eq!(found.labels, labels(&[1]));
}

#[test]
fn an_untrained_pipeline_takes_no_vectors() {
    let vt = LinearTransformImpl::new(1, 1, vec![1]).unwrap();
    let flat = FlatIndexImpl::new_l2(1).unwrap();
    let mut index = PreTransformIndexImpl::new(vt, flat).unwrap();
    assert!(!index.is_trained());
    assert_eq!(index.add(&[1, 2]), Err(Error::OperationError));
    assert_eq!(index.ntotal(), 0);
    assert_eq!(Index::search(&mut index, &[1], 1).err(), Some(Error::OperationError));
    // there is nothing to learn from no vector
    assert_eq!(index.train(&[]), Err(Error::OperationError));
    assert!(!index.is_trained());
    index.train(&[4]).unwrap();
    assert!(index.is_trained());
    index.add(&[1, 2]).unwrap();
    assert_eq!(index.ntotal(), 2);
}

#[test]
fn an_untrained_transform_is_not_applied() {
    let mut vt = LinearTransformImpl::new(1, 1, vec![1]).unwrap();
    assert_eq!(vt.apply(&[1]).err(), Some(Error::OperationError));
    assert_eq!(vt.train(&[]), Err(Error::OperationError));
    assert!(!vt.is_trained());
}

#[test]
fn nothing_is_added_where_an_image_does_not_fit() {
    // doubles its input
    let vt = LinearTransformImpl::with_center(1, 1, vec![2], vec![0]).unwrap();
    assert_eq!(vt.apply(&[i32::MAX / 2]).unwrap(), vec![i32::MAX - 1]);
    assert_eq!(vt.apply(&[i32::MIN / 2]).unwrap(), vec![i32::MIN]);
    assert_eq!(vt.apply(&[1, i32::MAX / 2 + 1]).err(), Some(Error::OperationError));
    assert_eq!(vt.apply(&[i32::MIN / 2 - 1]).err(), Some(Error::OperationError));

    let flat = FlatIndexImpl::new_l2(1).unwrap();
    let mut index = RefineFlatIndexImpl::new(PreTransformIndexImpl::new(vt, flat).unwrap())
        .unwrap();
    assert_eq!(index.add(&[1, 2, i32::MAX]), Err(Error::OperationError));
    assert_eq!(index.ntotal(), 0);
    assert_eq!(
        Index::search(&mut index, &[i32::MAX], 1).err(),
        Some(Error::OperationError)
    );
    index.add(&[1, 2, 3]).unwrap();
    assert_eq!(index.ntotal(), 3);
}

#[test]
fn training_fails_as_a_whole_or_not_at_all() {
    // the second stage doubles what reaches it, and what it is trained on must fit
    let second = LinearTransformImpl::with_center(1, 1, vec![2], vec![0]).unwrap();
    let flat = FlatIndexImpl::new_l2(1).unwrap();
    let mut index = PreTransformIndexImpl::new(second, flat).unwrap();
    let first = LinearTransformImpl::new(1, 1, vec![1]).unwrap();
    index.prepend_transform(first).unwrap();
    // the first stage would learn the centre 0, and the second cannot double what comes
    assert_eq!(index.train(&[i32::MAX, -i32::MAX]), Err(Error::OperationError));
    assert!(!index.is_trained());
    index.train(&[10, 20]).unwrap();
    assert!(index.is_trained());
    // the first stage learned 15 now, not 0
    index.add(&[15]).unwrap();
    let found = Index::search(&mut index, &[16], 1).unwrap();
    assert_eq!(found.distances, vec![4]);
}

#[test]
fn a_refinement_with_a_factor_that_gives_no_candidate_is_not_searched() {
    let mut index = RefineFlatIndexImpl::new(FlatIndexImpl::new_l2(1).unwrap()).unwrap();
    index.add(&[1, 2]).unwrap();
    index.set_k_factor(0);
    assert_eq!(Index::search(&mut index, &[1], 1).err(), Some(Error::OperationError));
    index.set_k_factor(u32::MAX);
    assert_eq!(
        Index::search(&mut index, &[1], usize::MAX).err(),
        Some(Error::OperationError)
    );
    index.set_k_factor(1);
    let found = Index::search(&mut index, &[1], 1).unwrap();
    assert_eq!(found.labels, labels(&[0]));
}
