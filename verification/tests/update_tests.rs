use carbon_core::data::get_default_data;
use carbon_core::update::UpdateInfo;
use carbon_core::update::filter_release_notes;
use carbon_core::update::interpret_update_check;

#[test]
fn asset_pointer_lines_are_dropped() {
    let body = "New features!\n  See the assets below to download.\nBug fixes.";
    assert_eq!(filter_release_notes(body), Some("New features!\nBug fixes.".to_string()));
}

#[test]
fn notes_of_only_asset_pointers_become_nothing() {
    let body = "See the assets below to download this version.";
    assert_eq!(filter_release_notes(body), None);
    assert_eq!(filter_release_notes(""), None);
    assert_eq!(filter_release_notes("  \n\t\n"), None);
}

#[test]
fn surrounding_whitespace_is_trimmed() {
    let body = "\n\nChangelog\nSee the assets below\n\n";
    assert_eq!(filter_release_notes(body), Some("Changelog".to_string()));
}

#[test]
fn crlf_notes_are_handled() {
    let body = "First\r\nSee the assets below\r\nSecond";
    assert_eq!(filter_release_notes(body), Some("First\nSecond".to_string()));
}

#[test]
fn no_update_reports_nothing_available() {
    let u = interpret_update_check(None);
    assert_eq!(u, UpdateInfo { available: false, version: None, body: None });
}

#[test]
fn update_reports_version_and_cleaned_notes() {
    let u = interpret_update_check(Some((
        "1.2.3".to_string(),
        Some("Notes\nSee the assets below".to_string()),
    )));
    assert!(u.available);
    assert_eq!(u.version.as_deref(), Some("1.2.3"));
    assert_eq!(u.body.as_deref(), Some("Notes"));
    let bare = interpret_update_check(Some(("2.0.0".to_string(), None)));
    assert!(bare.available);
    assert_eq!(bare.version.as_deref(), Some("2.0.0"));
    assert!(bare.body.is_none());
}

#[test]
fn fresh_default_is_stamped_with_a_timestamp() {
    let d = get_default_data();
    assert!(!d.last_modified.is_empty());
    assert_eq!(d.boards[0].columns[0].cards[0].created_at, d.last_modified);
}
