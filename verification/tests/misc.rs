use git_stats_web::database::HostOptions;
use git_stats_web::templates::get_header_spacer_size;
use git_stats_web::utils::UpdateResult;

#[test]
fn host_option_renders_lower_case() {
    assert_eq!(HostOptions::Github.to_string(), "github");
}

#[test]
fn header_spacer_size_is_fixed() {
    assert_eq!(get_header_spacer_size(), 86);
}

#[test]
fn update_result_polarity() {
    let good: UpdateResult<i32, &str> = UpdateResult::Accepted(3);
    let bad: UpdateResult<i32, &str> = UpdateResult::Rejected("broken");
    assert!(good.is_ok());
    assert!(!good.is_err());
    assert!(bad.is_err());
    assert!(!bad.is_ok());
    assert_eq!(good.ok(), Some(3));
    assert_eq!(bad.ok(), None);
    assert_eq!(bad.err(), Some("broken"));
    assert_eq!(good.err(), None);
}

#[test]
fn update_result_from_option() {
    let made: UpdateResult<i32, &str> = UpdateResult::from_option(Some(7), "missing");
    assert!(made.is_ok());
    assert_eq!(made.ok(), Some(7));
    let fallen: UpdateResult<i32, &str> = UpdateResult::from_option(None, "missing");
    assert!(fallen.is_err());
    assert_eq!(fallen.err(), Some("missing"));
}

#[test]
fn update_result_indifferent() {
    let good: UpdateResult<i32, i32> = UpdateResult::Accepted(5);
    let bad: UpdateResult<i32, i32> = UpdateResult::Rejected(9);
    assert_eq!(good.indifferent(), 5);
    assert_eq!(bad.indifferent(), 9);
}
