use package_registry_manager::version_sync::{
    check_field_count, update_version_fields, version_replacement, VersionSyncError,
    LOCKFILE_VERSION_FIELDS, MANIFEST_VERSION_FIELDS,
};

const MANIFEST: &str = "{\n  \"version\": \"1.0.0\",\n  \"name\": \"demo\"\n}\n";

const LOCKFILE: &str = "{\n  \"version\": \"1.0.0\",\n  \"packages\": {\n    \"\": {\n      \"version\": \"1.0.0\"\n    },\n    \"node_modules/x\": {\n      \"version\": \"9.0.0\"\n    }\n  }\n}\n";

#[test]
fn updates_only_the_package_versions_in_a_lockfile() {
    let manifest = update_version_fields(MANIFEST, "1.1.0", MANIFEST_VERSION_FIELDS).unwrap();
    assert_eq!(
        manifest,
        "{\n  \"version\": \"1.1.0\",\n  \"name\": \"demo\"\n}\n"
    );
    let lock = update_version_fields(LOCKFILE, "1.1.0", LOCKFILE_VERSION_FIELDS).unwrap();
    assert_eq!(lock.matches("\"version\": \"1.1.0\"").count(), 2);
    assert!(lock.contains("\"version\": \"9.0.0\""));
}

#[test]
fn a_file_without_enough_version_fields_is_refused() {
    let error = update_version_fields(MANIFEST, "2.0.0", LOCKFILE_VERSION_FIELDS).unwrap_err();
    assert_eq!(error, VersionSyncError::TooFewFields { found: 1, expected: 2 });
    assert_eq!(
        error.message("js/package.json"),
        "js/package.json contains 1 version fields; expected at least 2"
    );
    let empty = update_version_fields("{}\n", "2.0.0", MANIFEST_VERSION_FIELDS).unwrap_err();
    assert_eq!(empty, VersionSyncError::TooFewFields { found: 0, expected: 1 });
}

#[test]
fn field_counts_are_checked_against_the_expected_number() {
    assert_eq!(check_field_count(3, 2), Ok(()));
    assert_eq!(check_field_count(2, 2), Ok(()));
    assert_eq!(
        check_field_count(1, 2),
        Err(VersionSyncError::TooFewFields { found: 1, expected: 2 })
    );
}

#[test]
fn the_replacement_keeps_both_groups_around_the_version() {
    assert_eq!(version_replacement("3.4.5"), "${1}3.4.5${2}");
    assert_eq!(
        VersionSyncError::InvalidMatcher.message("js/package.json"),
        "Failed to build version matcher"
    );
}

#[test]
fn a_trailing_comma_is_kept() {
    let updated = update_version_fields(LOCKFILE, "7.0.0", 1).unwrap();
    assert!(updated.starts_with("{\n  \"version\": \"7.0.0\",\n"));
    assert_eq!(updated.matches("\"version\": \"1.0.0\"").count(), 1);
}
