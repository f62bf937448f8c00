use autocmd::schedule::wait_plan;

#[test]
fn zero_interval_is_one_empty_sleep() {
    assert_eq!(wait_plan(0), vec![0]);
}

#[test]
fn short_interval_is_one_sleep() {
    assert_eq!(wait_plan(1), vec![1]);
    assert_eq!(wait_plan(59), vec![59]);
}

#[test]
fn exact_chunk_is_one_sleep() {
    assert_eq!(wait_plan(60), vec![60]);
}

#[test]
fn just_over_a_chunk() {
    assert_eq!(wait_plan(61), vec![60, 1]);
}

#[test]
fn two_full_chunks() {
    assert_eq!(wait_plan(120), vec![60, 60]);
}

#[test]
fn chunks_and_remainder() {
    assert_eq!(wait_plan(121), vec![60, 60, 1]);
    assert_eq!(wait_plan(190), vec![60, 60, 60, 10]);
}

#[test]
fn totals_match_the_interval() {
    for d in [0u64, 1, 59, 60, 61, 119, 120, 121, 3600, 3661] {
        let plan = wait_plan(d);
        assert!(!plan.is_empty());
        assert_eq!(plan.iter().sum::<u64>(), d);
        assert!(plan.iter().all(|c| *c <= 60));
    }
}
