use minitcp::release::{
    nag_lines, parse_semver, parse_tag_name, recently_checked, version_newer, without_v, CheckOutcome,
    INSTALL_URL, REPO,
};

#[test]
fn the_install_url_points_at_this_repo() {
    assert!(INSTALL_URL.contains(REPO), "{INSTALL_URL}");
}

#[test]
fn a_failed_check_is_retried_much_sooner_than_a_successful_one() {
    let (ok_marker, ok_age) = CheckOutcome::Succeeded.marker();
    let (failed_marker, failed_age) = CheckOutcome::Failed.marker();
    assert!(failed_age < ok_age);
    assert_ne!(ok_marker, failed_marker);
}

#[test]
fn a_marker_round_trips_through_the_cache_file() {
    for outcome in [CheckOutcome::Succeeded, CheckOutcome::Failed] {
        let (marker, _) = outcome.marker();
        assert!(CheckOutcome::from_marker(&marker) == outcome);
    }
}

#[test]
fn an_unreadable_marker_is_treated_as_a_failed_check() {
    assert!(CheckOutcome::from_marker(b"") == CheckOutcome::Failed);
    assert!(CheckOutcome::from_marker(b"\xff\xfe") == CheckOutcome::Failed);
}

fn tag_case() {
    let json = r#"{"tag_name":"v1.2.3","name":"1.2.3"}"#;
    assert_eq!(parse_tag_name(json).as_deref(), Some("v1.2.3"));
}

fn newer_case() {
    assert!(version_newer("1.2.3", "1.2.2"));
    assert!(!version_newer("1.1.0", "1.1.0"));
    assert!(!version_newer("1.0.9", "1.1.0"));
}

#[test]
fn mod_parse_tag_from_github_json() {
    tag_case();
}

#[test]
fn update_parse_tag_from_github_json() {
    tag_case();
}

#[test]
fn mod_newer_patch() {
    newer_case();
}

#[test]
fn update_newer_patch() {
    newer_case();
}

// ------------------------------------------------------------ more cases

#[test]
fn a_reply_without_a_tag_has_none() {
    assert_eq!(parse_tag_name(r#"{"name":"1.2.3"}"#), None);
    assert_eq!(parse_tag_name(r#"{"tag_name": 3}"#), None);
    assert_eq!(parse_tag_name(r#"{"tag_name" : "v2.0.0"}"#).as_deref(), Some("v2.0.0"));
}

#[test]
fn versions_read_missing_parts_as_zero() {
    assert_eq!(parse_semver("1.2.3"), (1, 2, 3));
    assert_eq!(parse_semver("1.2.3-rc1"), (1, 2, 3));
    assert_eq!(parse_semver("2"), (2, 0, 0));
    assert_eq!(parse_semver("x.y"), (0, 0, 0));
    assert!(version_newer("2.0.0", "1.9.9"));
    assert!(version_newer("1.10.0", "1.9.0"));
}

#[test]
fn a_check_is_recent_only_while_its_marker_says_so() {
    assert!(recently_checked(Some(b"ok"), Some(10)));
    assert!(!recently_checked(Some(b"ok"), Some(86_400)));
    assert!(recently_checked(Some(b"failed"), Some(3_599)));
    assert!(!recently_checked(Some(b"failed"), Some(3_600)));
    assert!(!recently_checked(None, Some(1)));
    assert!(!recently_checked(Some(b"ok"), None));
}

#[test]
fn the_nag_names_both_versions_and_the_installer() {
    let lines = nag_lines("v1.3.0", "v1.2.0");
    assert_eq!(lines.len(), 2);
    assert_eq!(lines[0], "minitcp 1.3.0 is available (you have 1.2.0)");
    assert!(lines[1].contains(INSTALL_URL));
    assert!(nag_lines("1.2.0", "1.2.0").is_empty());
    assert_eq!(without_v("vv1.0"), "1.0");
}
