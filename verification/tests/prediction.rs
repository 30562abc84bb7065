use git_stats_web::prediction::{PredictionAttributes, PredictionStructure};

#[test]
fn single_observation_ratio() {
    let mut ps = PredictionStructure::new();
    assert!(ps.insert_item(PredictionAttributes::LinesAdded, 5, 1000));
    assert_eq!(ps.predict(&vec![(PredictionAttributes::LinesAdded, 5)]), Some(1000));
    assert_eq!(ps.predict(&vec![(PredictionAttributes::LinesAdded, 1)]), Some(200));
}

#[test]
fn insert_reports_fresh_entry_only_once() {
    let mut ps = PredictionStructure::new();
    assert_eq!(ps.insert_item(PredictionAttributes::LinesAdded, 5, 1000), true);
    assert_eq!(ps.insert_item(PredictionAttributes::LinesAdded, 5, 1000), false);
    assert_eq!(ps.insert_item(PredictionAttributes::LinesAdded, 7, 40), false);
    // Other kinds are still fresh.
    assert_eq!(ps.insert_item(PredictionAttributes::FilesChanged, 1, 1000), true);
    assert_eq!(ps.insert_item(PredictionAttributes::LinesRemoved, 1, 1000), true);
}

#[test]
fn projection_clamped_to_observed_time_range() {
    let mut ps = PredictionStructure::new();
    ps.insert_item(PredictionAttributes::LinesAdded, 1, 10);
    ps.insert_item(PredictionAttributes::LinesAdded, 2, 50);
    // ratio = 60 / 3 = 20; 100 * 20 = 2000 exceeds the observed maximum time
    // of 50, so the result is clamped down to 50.
    assert_eq!(ps.predict(&vec![(PredictionAttributes::LinesAdded, 100)]), Some(50));
    // The lower clamp is the seeded minimum time of zero.
    assert_eq!(ps.predict(&vec![(PredictionAttributes::LinesAdded, 0)]), Some(0));
}

#[test]
fn untrained_structure_predicts_nothing() {
    let ps = PredictionStructure::new();
    assert_eq!(ps.predict(&vec![(PredictionAttributes::LinesAdded, 5)]), None);
    assert_eq!(ps.predict(&vec![]), None);
}

#[test]
fn zero_magnitude_kind_contributes_nothing() {
    let mut ps = PredictionStructure::new();
    ps.insert_item(PredictionAttributes::FilesChanged, 0, 1000);
    // The kind was trained, but its summed magnitude is zero, so the ratio
    // would divide by zero; the kind is skipped instead.
    assert_eq!(ps.predict(&vec![(PredictionAttributes::FilesChanged, 5)]), None);
}

#[test]
fn only_contributing_kinds_enter_the_mean() {
    let mut ps = PredictionStructure::new();
    ps.insert_item(PredictionAttributes::LinesAdded, 5, 1000);
    let obs = vec![
        (PredictionAttributes::FilesChanged, 9),
        (PredictionAttributes::LinesAdded, 5),
        (PredictionAttributes::LinesRemoved, 9),
    ];
    assert_eq!(ps.predict(&obs), Some(1000));
}

#[test]
fn mean_of_two_contributing_kinds() {
    let mut ps = PredictionStructure::new();
    ps.insert_item(PredictionAttributes::LinesAdded, 5, 1000);
    ps.insert_item(PredictionAttributes::FilesChanged, 1, 100);
    let obs = vec![
        (PredictionAttributes::FilesChanged, 1),
        (PredictionAttributes::LinesAdded, 5),
    ];
    // FilesChanged projects 100, LinesAdded projects 1000; the mean is 550.
    assert_eq!(ps.predict(&obs), Some(550));
}

#[test]
fn negative_projection_clamps_to_seeded_minimum() {
    let mut ps = PredictionStructure::new();
    ps.insert_item(PredictionAttributes::LinesAdded, 5, 1000);
    // A negative observed value projects a negative duration, which the
    // seeded minimum time of zero clamps away.
    assert_eq!(ps.predict(&vec![(PredictionAttributes::LinesAdded, -5)]), Some(0));
}
