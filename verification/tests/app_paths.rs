use ledger_rs::app_paths::{
    DatabasePathSource, legacy_database_path, nonempty_path, platform_database_path,
    resolve_database_path_from,
};

#[test]
fn explicit_database_always_wins() {
    let resolved = resolve_database_path_from(
        Some("chosen.db".to_string()),
        Some("platform.db".to_string()),
        "legacy.db".to_string(),
        false,
        false,
    );

    assert_eq!(resolved.path(), "chosen.db");
    assert_eq!(resolved.source(), DatabasePathSource::Explicit);
}

#[test]
fn keeps_existing_legacy_database_when_platform_database_is_absent() {
    let legacy = "/tmp/ledger-test/legacy.db".to_string();
    let platform = "/tmp/ledger-test/platform.db".to_string();

    let resolved =
        resolve_database_path_from(None, Some(platform.clone()), legacy.clone(), false, true);

    assert_eq!(resolved.path(), legacy);
    assert!(resolved.uses_legacy_current_directory());
    assert_eq!(resolved.migration_target(), Some(platform.as_str()));
}

#[test]
fn uses_platform_database_on_first_run() {
    let legacy = "/tmp/ledger-test/legacy.db".to_string();
    let platform = "/tmp/ledger-test/platform.db".to_string();

    let resolved = resolve_database_path_from(None, Some(platform.clone()), legacy, false, false);

    assert_eq!(resolved.path(), platform);
    assert_eq!(resolved.source(), DatabasePathSource::PlatformDefault);
}

#[test]
fn platform_database_wins_after_migration() {
    let legacy = "/tmp/ledger-test/legacy.db".to_string();
    let platform = "/tmp/ledger-test/platform.db".to_string();

    let resolved = resolve_database_path_from(None, Some(platform.clone()), legacy, true, true);

    assert_eq!(resolved.path(), platform);
    assert_eq!(resolved.source(), DatabasePathSource::PlatformDefault);
    assert!(resolved.uses_platform_default());
    assert_eq!(resolved.migration_target(), None);
}

#[test]
fn falls_back_to_current_directory_without_platform_directory() {
    let resolved = resolve_database_path_from(None, None, "ledger.db".to_string(), false, false);

    assert_eq!(resolved.path(), "ledger.db");
    assert_eq!(resolved.source(), DatabasePathSource::CurrentDirectoryFallback);
    assert!(!resolved.uses_platform_default());
}

#[test]
fn ignores_empty_environment_values() {
    assert_eq!(nonempty_path(Some(String::new())), None);
    assert_eq!(nonempty_path(None), None);
    assert_eq!(
        nonempty_path(Some("data".to_string())),
        Some("data".to_string())
    );
}

#[test]
fn platform_path_lies_in_the_application_directory() {
    assert_eq!(platform_database_path("/home/me/.local/share", '/'), "/home/me/.local/share/ledger_rs/ledger.db");
    assert_eq!(platform_database_path("/data/", '/'), "/data/ledger_rs/ledger.db");
    assert_eq!(platform_database_path("C:\\Users\\me\\AppData", '\\'), "C:\\Users\\me\\AppData\\ledger_rs\\ledger.db");
    assert_eq!(legacy_database_path(), "ledger.db");
}

#[test]
fn migration_target_is_never_the_legacy_path_in_use() {
    let platform = platform_database_path("/home/me/.local/share", '/');
    let resolved = resolve_database_path_from(None, Some(platform.clone()), legacy_database_path(), false, true);
    assert_eq!(resolved.path(), "ledger.db");
    assert_eq!(resolved.migration_target(), Some(platform.as_str()));
    assert_ne!(resolved.migration_target(), Some(resolved.path()));
}
