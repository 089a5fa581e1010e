use mod_catalog::query::{get_mod, list_mods, GetError, ListError};
use mod_catalog::store::{LocalStore, ModInfo, VersionRow};
use mod_catalog::sync::{authorize_sync, run_sync, FetchOutcome, Snapshot, SyncOutcome};

fn info(name: &str, author: &str, icon: Option<&str>, short: &str, long: &str) -> ModInfo {
    ModInfo {
        name: name.to_string(),
        author: author.to_string(),
        icon_src: icon.map(|s| s.to_string()),
        short_desc: short.to_string(),
        long_desc: long.to_string(),
    }
}

fn version(id: i64, name: &str, link: &str, label: &str, changelog: Option<&str>) -> VersionRow {
    VersionRow {
        id,
        name: name.to_string(),
        link: link.to_string(),
        version: label.to_string(),
        changelog: changelog.map(|s| s.to_string()),
    }
}

fn store_with(infos: Vec<ModInfo>, versions: Vec<VersionRow>) -> LocalStore {
    let mut store = LocalStore::new();
    store.ensure_schema();
    for row in infos {
        store.insert_info(row);
    }
    for row in versions {
        store.insert_version(row);
    }
    store
}

fn info_fields(store: &LocalStore) -> Vec<(String, String, Option<String>, String, String)> {
    store
        .info_rows
        .iter()
        .map(|m| {
            (
                m.name.clone(),
                m.author.clone(),
                m.icon_src.clone(),
                m.short_desc.clone(),
                m.long_desc.clone(),
            )
        })
        .collect()
}

fn version_fields(store: &LocalStore) -> Vec<(i64, String, String, String, Option<String>)> {
    store
        .version_rows
        .iter()
        .map(|v| {
            (
                v.id,
                v.name.clone(),
                v.link.clone(),
                v.version.clone(),
                v.changelog.clone(),
            )
        })
        .collect()
}

#[test]
fn schema_setup_is_idempotent() {
    let mut store = store_with(
        vec![info("Alpha", "ada", None, "s", "l")],
        vec![version(1, "Alpha", "http://a/1", "1.0", None)],
    );
    let infos_before = info_fields(&store);
    let versions_before = version_fields(&store);
    store.ensure_schema();
    store.ensure_schema();
    assert!(store.info_present);
    assert!(store.versions_present);
    assert_eq!(info_fields(&store), infos_before);
    assert_eq!(version_fields(&store), versions_before);
}

#[test]
fn schema_setup_from_scratch_creates_empty_tables() {
    let mut store = LocalStore::new();
    assert!(!store.info_present);
    assert!(!store.versions_present);
    store.ensure_schema();
    assert!(store.info_present);
    assert!(store.versions_present);
    assert!(store.info_rows.is_empty());
    assert!(store.version_rows.is_empty());
}

#[test]
fn list_orders_by_latest_version_id_and_excludes_versionless() {
    let store = store_with(
        vec![
            info("A", "ada", None, "a short", "a long"),
            info("B", "bob", Some("http://icon/b"), "b short", "b long"),
            info("C", "cyd", None, "c short", "c long"),
        ],
        vec![
            version(2, "A", "http://a/2", "0.2", None),
            version(5, "A", "http://a/5", "0.5", None),
            version(9, "B", "http://b/9", "1.0", Some("big")),
        ],
    );
    let listed = list_mods(&store).unwrap();
    let names: Vec<&str> = listed.iter().map(|e| e.name.as_str()).collect();
    assert_eq!(names, vec!["B", "A"]);
    assert_eq!(listed[0].author, "bob");
    assert_eq!(listed[0].icon_src.as_deref(), Some("http://icon/b"));
    assert_eq!(listed[0].short_desc, "b short");
    assert_eq!(listed[1].author, "ada");
    assert_eq!(listed[1].icon_src, None);
}

#[test]
fn list_ranks_mod_by_its_largest_version_id() {
    let store = store_with(
        vec![info("X", "xa", None, "s", "l"), info("Y", "ya", None, "s", "l")],
        vec![
            version(1, "X", "http://x/1", "1.0", None),
            version(7, "X", "http://x/7", "1.1", None),
            version(3, "X", "http://x/3", "1.0.1", None),
            version(6, "Y", "http://y/6", "2.0", None),
        ],
    );
    let listed = list_mods(&store).unwrap();
    let names: Vec<&str> = listed.iter().map(|e| e.name.as_str()).collect();
    assert_eq!(names, vec!["X", "Y"]);
}

#[test]
fn list_unavailable_without_schema() {
    let store = LocalStore::new();
    assert_eq!(list_mods(&store).unwrap_err(), ListError::Unavailable);
}

#[test]
fn lookup_is_exact_not_substring() {
    let mut store = store_with(
        vec![info("foobar", "ada", None, "s", "l")],
        vec![version(1, "foobar", "http://f/1", "1.0", None)],
    );
    assert_eq!(get_mod(&store, "Foo").unwrap_err(), GetError::NotFound);
    assert_eq!(get_mod(&store, "foo").unwrap_err(), GetError::NotFound);
    assert_eq!(get_mod(&store, "foobars").unwrap_err(), GetError::NotFound);
    store.insert_info(info("Foo", "bob", None, "short", "long"));
    let details = get_mod(&store, "Foo").unwrap();
    assert_eq!(details.mod_info.name, "Foo");
    assert_eq!(details.mod_info.author, "bob");
    assert_eq!(details.mod_info.long_desc, "long");
    assert!(details.versions.is_empty());
}

#[test]
fn lookup_returns_first_record_of_a_name() {
    let store = store_with(
        vec![
            info("Dup", "first", None, "s1", "l1"),
            info("Dup", "second", None, "s2", "l2"),
        ],
        Vec::new(),
    );
    let details = get_mod(&store, "Dup").unwrap();
    assert_eq!(details.mod_info.author, "first");
}

#[test]
fn versions_sort_lexicographically_descending() {
    let store = store_with(
        vec![info("M", "ada", None, "s", "l")],
        vec![
            version(1, "M", "http://m/1", "1.0", None),
            version(2, "M", "http://m/2", "2.0", Some("two")),
            version(3, "M", "http://m/3", "10.0", None),
        ],
    );
    let details = get_mod(&store, "M").unwrap();
    let labels: Vec<&str> = details.versions.iter().map(|v| v.version.as_str()).collect();
    assert_eq!(labels, vec!["2.0", "10.0", "1.0"]);
    assert_eq!(details.versions[0].link, "http://m/2");
    assert_eq!(details.versions[0].changelog.as_deref(), Some("two"));
}

#[test]
fn versions_prefix_sorts_before_longer_label() {
    let store = store_with(
        vec![info("M", "ada", None, "s", "l")],
        vec![
            version(1, "M", "http://m/1", "ab", None),
            version(2, "M", "http://m/2", "abc", None),
        ],
    );
    let details = get_mod(&store, "M").unwrap();
    let labels: Vec<&str> = details.versions.iter().map(|v| v.version.as_str()).collect();
    assert_eq!(labels, vec!["abc", "ab"]);
}

#[test]
fn lookup_only_sees_versions_of_that_name() {
    let store = store_with(
        vec![info("M", "ada", None, "s", "l"), info("N", "bob", None, "s", "l")],
        vec![
            version(1, "M", "http://m/1", "1.0", None),
            version(2, "N", "http://n/2", "9.9", None),
        ],
    );
    let details = get_mod(&store, "M").unwrap();
    let labels: Vec<&str> = details.versions.iter().map(|v| v.version.as_str()).collect();
    assert_eq!(labels, vec!["1.0"]);
}

#[test]
fn lookup_unavailable_without_schema() {
    let store = LocalStore::new();
    assert_eq!(get_mod(&store, "Foo").unwrap_err(), GetError::Unavailable);
}

#[test]
fn token_must_match_exactly() {
    assert!(authorize_sync("hunter2", "hunter2"));
    assert!(!authorize_sync("hunter2", "hunter22"));
    assert!(!authorize_sync("hunter22", "hunter2"));
    assert!(!authorize_sync("", "hunter2"));
    assert!(!authorize_sync("Hunter2", "hunter2"));
    assert!(authorize_sync("", ""));
}

#[test]
fn sync_replaces_everything_with_the_snapshot() {
    let mut store = store_with(
        vec![info("Old", "ada", None, "s", "l")],
        vec![version(1, "Old", "http://o/1", "1.0", None)],
    );
    let snapshot = Snapshot {
        infos: vec![
            info("New", "bob", Some("http://icon/n"), "ns", "nl"),
            info("Newer", "cyd", None, "ns2", "nl2"),
        ],
        versions: vec![
            version(4, "New", "http://n/4", "0.4", Some("c4")),
            version(5, "Newer", "http://n/5", "0.5", None),
        ],
    };
    let expected_infos = vec![
        (
            "New".to_string(),
            "bob".to_string(),
            Some("http://icon/n".to_string()),
            "ns".to_string(),
            "nl".to_string(),
        ),
        (
            "Newer".to_string(),
            "cyd".to_string(),
            None,
            "ns2".to_string(),
            "nl2".to_string(),
        ),
    ];
    let expected_versions = vec![
        (
            4,
            "New".to_string(),
            "http://n/4".to_string(),
            "0.4".to_string(),
            Some("c4".to_string()),
        ),
        (
            5,
            "Newer".to_string(),
            "http://n/5".to_string(),
            "0.5".to_string(),
            None,
        ),
    ];
    let outcome = run_sync(&mut store, "tok", "tok", FetchOutcome::Fetched(snapshot));
    assert_eq!(outcome, SyncOutcome::Completed);
    assert_eq!(info_fields(&store), expected_infos);
    assert_eq!(version_fields(&store), expected_versions);
}

#[test]
fn sync_rejection_changes_nothing() {
    let mut store = store_with(
        vec![info("Keep", "ada", None, "s", "l")],
        vec![version(1, "Keep", "http://k/1", "1.0", Some("c"))],
    );
    let infos_before = info_fields(&store);
    let versions_before = version_fields(&store);
    let snapshot = Snapshot {
        infos: vec![info("Evil", "mal", None, "x", "y")],
        versions: Vec::new(),
    };
    let outcome = run_sync(&mut store, "wrong", "tok", FetchOutcome::Fetched(snapshot));
    assert_eq!(outcome, SyncOutcome::Rejected);
    assert!(store.info_present);
    assert!(store.versions_present);
    assert_eq!(info_fields(&store), infos_before);
    assert_eq!(version_fields(&store), versions_before);
}

#[test]
fn sync_fetch_failure_leaves_empty_schema() {
    for fetch in [FetchOutcome::ConnectionFailed, FetchOutcome::QueryFailed] {
        let mut store = store_with(
            vec![info("Old", "ada", None, "s", "l")],
            vec![version(1, "Old", "http://o/1", "1.0", None)],
        );
        let outcome = run_sync(&mut store, "tok", "tok", fetch);
        assert_eq!(outcome, SyncOutcome::Failed);
        assert!(store.info_present);
        assert!(store.versions_present);
        assert!(store.info_rows.is_empty());
        assert!(store.version_rows.is_empty());
    }
}

#[test]
fn reads_after_any_sync_outcome_see_a_consistent_schema() {
    for (presented, fetch) in [
        ("tok", FetchOutcome::Fetched(Snapshot { infos: Vec::new(), versions: Vec::new() })),
        ("tok", FetchOutcome::ConnectionFailed),
        ("bad", FetchOutcome::QueryFailed),
    ] {
        let mut store = store_with(Vec::new(), Vec::new());
        run_sync(&mut store, presented, "tok", fetch);
        assert_eq!(store.info_present, store.versions_present);
        assert!(store.info_present);
        assert!(list_mods(&store).is_ok());
    }
}

#[test]
fn sync_of_empty_snapshot_completes() {
    let mut store = store_with(
        vec![info("Old", "ada", None, "s", "l")],
        vec![version(1, "Old", "http://o/1", "1.0", None)],
    );
    let snapshot = Snapshot { infos: Vec::new(), versions: Vec::new() };
    let outcome = run_sync(&mut store, "tok", "tok", FetchOutcome::Fetched(snapshot));
    assert_eq!(outcome, SyncOutcome::Completed);
    assert!(info_fields(&store).is_empty());
    assert!(version_fields(&store).is_empty());
    let listed = list_mods(&store).unwrap();
    assert!(listed.is_empty());
}
