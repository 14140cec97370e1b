use xfuzz::feedback::MaxMapFeedback;

#[test]
fn fresh_feedback_has_seen_nothing() {
    let feedback = MaxMapFeedback::new(3);
    assert_eq!(feedback.map_len(), 3);
    assert_eq!(feedback.snapshot(), vec![0u8, 0, 0]);
    assert_eq!(feedback.map().len(), 3);
}

#[test]
fn first_coverage_is_interesting_and_merged() {
    let mut feedback = MaxMapFeedback::new(3);
    assert!(feedback.is_interesting(&vec![0, 1, 0]));
    assert_eq!(feedback.snapshot(), vec![0u8, 1, 0]);
}

#[test]
fn all_zero_coverage_is_never_interesting() {
    let mut feedback = MaxMapFeedback::new(3);
    assert!(!feedback.is_interesting(&vec![0, 0, 0]));
    assert_eq!(feedback.snapshot(), vec![0u8, 0, 0]);
}

#[test]
fn repeated_coverage_is_not_interesting() {
    let mut feedback = MaxMapFeedback::new(3);
    assert!(feedback.is_interesting(&vec![2, 0, 1]));
    assert!(!feedback.is_interesting(&vec![2, 0, 1]));
    assert!(!feedback.is_interesting(&vec![1, 0, 1]));
    assert!(!feedback.is_interesting(&vec![0, 0, 0]));
    assert_eq!(feedback.snapshot(), vec![2u8, 0, 1]);
}

#[test]
fn higher_counter_is_interesting() {
    let mut feedback = MaxMapFeedback::new(2);
    assert!(feedback.is_interesting(&vec![1, 0]));
    assert!(feedback.is_interesting(&vec![0, 4]));
    assert!(feedback.is_interesting(&vec![2, 3]));
    assert_eq!(feedback.snapshot(), vec![2u8, 4]);
}

#[test]
fn global_map_never_decreases() {
    let mut feedback = MaxMapFeedback::new(4);
    let locals: Vec<Vec<u8>> = vec![
        vec![0, 3, 0, 1],
        vec![0, 0, 0, 0],
        vec![9, 1, 0, 0],
        vec![1, 1, 1, 1],
        vec![0, 255, 0, 0],
        vec![0, 0, 0, 0],
    ];
    let mut before = feedback.snapshot();
    for local in &locals {
        feedback.is_interesting(local);
        let after = feedback.snapshot();
        assert_eq!(after.len(), before.len());
        for i in 0..after.len() {
            assert!(after[i] >= before[i]);
        }
        before = after;
    }
    assert_eq!(before, vec![9u8, 255, 1, 1]);
}

#[test]
fn replaying_the_same_maps_repeats_the_decisions() {
    let locals: Vec<Vec<u8>> = vec![
        vec![1, 0, 0],
        vec![1, 0, 0],
        vec![0, 2, 0],
        vec![1, 1, 0],
        vec![0, 0, 1],
        vec![1, 2, 1],
    ];
    let mut first = MaxMapFeedback::new(3);
    let decisions: Vec<bool> = locals.iter().map(|l| first.is_interesting(l)).collect();
    assert_eq!(decisions, vec![true, false, true, false, true, false]);
    let mut second = MaxMapFeedback::new(3);
    let replayed: Vec<bool> = locals.iter().map(|l| second.is_interesting(l)).collect();
    assert_eq!(replayed, decisions);
    assert_eq!(first.snapshot(), second.snapshot());
}
