use picklist::highlight::runs_to_ranges;

#[test]
fn test_runs_to_ranges() {
    assert_eq!(runs_to_ranges(vec![]), vec![]);
    assert_eq!(runs_to_ranges(vec![0, 1, 2, 3, 4]), vec![0..=4]);
    assert_eq!(runs_to_ranges(vec![0, 1, 3, 4]), vec![0..=1, 3..=4]);
    assert_eq!(runs_to_ranges(vec![0, 2, 4]), vec![0..=0, 2..=2, 4..=4]);
}

#[test]
fn single_position_is_one_run() {
    assert_eq!(runs_to_ranges(vec![7]), vec![7..=7]);
}

#[test]
fn runs_cover_exactly_the_positions() {
    let positions: Vec<usize> = vec![2, 3, 4, 9, 11, 12, 20];
    let runs = runs_to_ranges(positions.clone());
    assert_eq!(runs, vec![2..=4, 9..=9, 11..=12, 20..=20]);
    let mut covered: Vec<usize> = Vec::new();
    for r in runs.iter() {
        assert!(r.start() <= r.end());
        for p in r.clone() {
            covered.push(p);
        }
    }
    assert_eq!(covered, positions);
    for pair in runs.windows(2) {
        assert!(*pair[0].end() + 1 < *pair[1].start());
    }
}

#[test]
fn repeated_position_stays_in_its_run() {
    assert_eq!(runs_to_ranges(vec![1, 1, 2]), vec![1..=2]);
}

#[test]
fn descending_position_opens_a_run() {
    assert_eq!(runs_to_ranges(vec![5, 3, 4]), vec![5..=5, 3..=4]);
}

#[test]
fn largest_position_does_not_overflow() {
    assert_eq!(
        runs_to_ranges(vec![usize::MAX - 1, usize::MAX]),
        vec![usize::MAX - 1..=usize::MAX]
    );
}
