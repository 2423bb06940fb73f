use demo_as_code_postprocess::timeline::{locate_time, TimelinePosition};

#[test]
fn empty_log_has_no_position() {
    assert_eq!(locate_time(&[], 5), TimelinePosition::Empty);
}

#[test]
fn before_and_after_the_log() {
    let times = [10u64, 20, 30];
    assert_eq!(locate_time(&times, 3), TimelinePosition::AtOrBeforeFirst);
    assert_eq!(locate_time(&times, 10), TimelinePosition::AtOrBeforeFirst);
    assert_eq!(locate_time(&times, 30), TimelinePosition::AtOrAfterLast);
    assert_eq!(locate_time(&times, 99), TimelinePosition::AtOrAfterLast);
}

#[test]
fn between_neighbours() {
    let times = [10u64, 20, 30, 40, 50];
    assert_eq!(locate_time(&times, 11), TimelinePosition::Between(0));
    assert_eq!(locate_time(&times, 20), TimelinePosition::Between(1));
    assert_eq!(locate_time(&times, 29), TimelinePosition::Between(1));
    assert_eq!(locate_time(&times, 45), TimelinePosition::Between(3));
    assert_eq!(locate_time(&times, 49), TimelinePosition::Between(3));
}

#[test]
fn single_sample_log() {
    let times = [7u64];
    assert_eq!(locate_time(&times, 7), TimelinePosition::AtOrBeforeFirst);
    assert_eq!(locate_time(&times, 8), TimelinePosition::AtOrAfterLast);
}

#[test]
fn repeated_times_pick_the_last_at_or_before() {
    let times = [0u64, 5, 5, 5, 9];
    assert_eq!(locate_time(&times, 5), TimelinePosition::Between(3));
    assert_eq!(locate_time(&times, 4), TimelinePosition::Between(0));
}

#[test]
fn later_moments_never_go_back() {
    let times: Vec<u64> = (0..50).map(|i| i * 3).collect();
    let mut last = 0usize;
    for t in 1..146u64 {
        if let TimelinePosition::Between(i) = locate_time(&times, t) {
            assert!(i >= last);
            assert!(times[i] <= t && t < times[i + 1]);
            last = i;
        }
    }
}

#[test]
fn unsorted_log_still_brackets() {
    let times = [1u64, 50, 2, 40, 60];
    match locate_time(&times, 45) {
        TimelinePosition::Between(i) => assert!(times[i] <= 45 && 45 < times[i + 1]),
        other => panic!("unexpected {:?}", other),
    }
}
