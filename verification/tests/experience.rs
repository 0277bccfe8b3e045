use avm::experience::compact_times;

#[test]
fn keyframe_times_are_thinned_evenly_and_ordered() {
    assert_eq!(compact_times(vec![5, 1, 9], 12), vec![5, 1, 9]);
    assert_eq!(compact_times((0..20).collect(), 3), vec![0, 9, 19]);
    assert_eq!(compact_times(vec![7, 7, 7, 1], 2), vec![1, 7]);
    assert_eq!(compact_times(vec![1, 2, 3], 0), Vec::<u64>::new());
}
