use dartup::engine_cache::adopt_engine_dir;
use dartup::engine_cache::cache_dir;
use dartup::engine_cache::cached_versions;
use dartup::engine_cache::download_engine;
use dartup::engine_cache::engine_dir;
use dartup::engine_cache::engine_download_url;
use dartup::engine_cache::engine_link;
use dartup::engine_cache::engine_version_file;
use dartup::engine_cache::read_engine_version;
use dartup::engine_cache::remove_engine_symlinks;
use dartup::engine_cache::symlink_engine;
use dartup::engine_cache::symlink_engine_to;
use dartup::engine_cache::trim_str;
use dartup::engine_cache::verify_engine_integrity;
use dartup::engine_cache::CacheEntry;
use dartup::engine_cache::DownloadPlan;
use dartup::engine_cache::EngineDirState;
use dartup::engine_cache::EngineEntry;
use dartup::engine_cache::EngineError;
use dartup::engine_cache::IntegrityError;
use dartup::engine_cache::LinkClearing;
use dartup::engine_cache::LinkState;

const HOME: &str = "/home/user/.dartup";

fn valid_engine() -> EngineDirState {
    EngineDirState {
        exists: true,
        is_dir: true,
        entries: Some(vec![EngineEntry { is_dir: true, has_entries: true }]),
    }
}

fn empty_engine() -> EngineDirState {
    EngineDirState { exists: true, is_dir: true, entries: Some(vec![]) }
}

fn no_link() -> LinkState {
    LinkState { exists: false, is_symlink: false, is_file: false }
}

#[test]
fn test_engine_dir_path() {
    let ver = "abc123def456";
    let path = engine_dir(HOME, ver);
    assert!(path.contains("engines"));
    assert!(path.contains(ver));
    assert_eq!(path, "/home/user/.dartup/cache/engines/abc123def456");
}

#[test]
fn cache_dir_and_links() {
    assert_eq!(cache_dir(HOME), "/home/user/.dartup/cache/engines");
    assert_eq!(cache_dir("/h/"), "/h/cache/engines");
    assert_eq!(engine_link("/envs/3.19.0"), "/envs/3.19.0/bin/cache/engine");
    assert_eq!(engine_version_file("/envs/3.19.0"), "/envs/3.19.0/bin/internal/engine.version");
}

#[test]
fn test_read_engine_version_from_valid_sdk() {
    let ver = read_engine_version("/envs/x", Some("abc123def456")).unwrap();
    assert_eq!(ver, "abc123def456");
    let ver = read_engine_version("/envs/x", Some("  abc123def456\n")).unwrap();
    assert_eq!(ver, "abc123def456");
}

#[test]
fn test_read_engine_version_fails_when_missing() {
    let result = read_engine_version("/envs/x", None);
    assert!(result.is_err());
    assert_eq!(result.unwrap_err().message(), "Failed to read engine.version from /envs/x");
}

#[test]
fn trim_strips_unicode_whitespace() {
    assert_eq!(trim_str("\t\u{a0} a b \u{3000}\r\n"), "a b");
    assert_eq!(trim_str(" \n "), "");
    assert_eq!(trim_str(""), "");
    assert_eq!(trim_str("x"), "x");
    assert_eq!(trim_str("\u{200b}x"), "\u{200b}x");
}

#[test]
fn test_symlink_engine_creates_symlink() {
    let cache = "/tmp/t/engines/abc123def";
    let plan = symlink_engine_to("/tmp/t/envs/testver", cache, "abc123def", &valid_engine(), &no_link())
        .unwrap();
    assert_eq!(plan.link, "/tmp/t/envs/testver/bin/cache/engine");
    assert_eq!(plan.target, cache);
    assert_eq!(plan.clear, LinkClearing::Nothing);
}

#[test]
fn test_symlink_engine_rejects_corrupted_empty_cache() {
    let cache = "/tmp/t/engines/corrupt-empty";
    let result = symlink_engine_to("/tmp/t/envs/ver", cache, "corrupt-empty", &empty_engine(), &no_link());
    assert!(result.is_err(), "should reject empty cache");
    let err = result.unwrap_err();
    assert_eq!(err.message(), "Engine corrupt-empty cache is corrupted at /tmp/t/engines/corrupt-empty");
    match err {
        EngineError::Corrupted { cause, .. } => assert_eq!(
            cause.message(),
            "Engine cache is empty or corrupted at /tmp/t/engines/corrupt-empty"
        ),
        _ => panic!("wrong error"),
    }
}

#[test]
fn test_symlink_engine_accepts_valid_cache_with_verify() {
    let cache = "/tmp/t/engines/valid-with-platform";
    let plan = symlink_engine_to("/tmp/t/envs/ver", cache, "valid-with-platform", &valid_engine(), &no_link());
    assert!(plan.is_ok(), "symlink should be created for valid cache");
}

#[test]
fn symlink_engine_clears_what_is_there() {
    let cache = "/c/engines/v";
    let file = LinkState { exists: true, is_symlink: false, is_file: true };
    let dir = LinkState { exists: true, is_symlink: false, is_file: false };
    let dangling = LinkState { exists: false, is_symlink: true, is_file: false };
    let p = symlink_engine_to("/e", cache, "v", &valid_engine(), &file).unwrap();
    assert_eq!(p.clear, LinkClearing::RemoveFile);
    let p = symlink_engine_to("/e", cache, "v", &valid_engine(), &dir).unwrap();
    assert_eq!(p.clear, LinkClearing::RemoveDirAll);
    let p = symlink_engine_to("/e", cache, "v", &valid_engine(), &dangling).unwrap();
    assert_eq!(p.clear, LinkClearing::RemoveFile);
}

#[test]
fn symlink_engine_needs_a_cached_engine() {
    let missing = EngineDirState { exists: false, is_dir: false, entries: None };
    let err = symlink_engine(HOME, "/e", "v1", &missing, &no_link()).unwrap_err();
    assert_eq!(err.message(), "Engine v1 is not cached at /home/user/.dartup/cache/engines/v1");
    let plan = symlink_engine(HOME, "/e", "v1", &valid_engine(), &no_link()).unwrap();
    assert_eq!(plan.target, "/home/user/.dartup/cache/engines/v1");
    assert_eq!(plan.link, "/e/bin/cache/engine");
}

#[test]
fn test_remove_engine_symlinks_cleans_up() {
    assert_eq!(remove_engine_symlinks("/e", true), Some("/e/bin/cache/engine".to_string()));
    assert_eq!(remove_engine_symlinks("/e", false), None);
}

#[test]
fn test_cached_versions_lists_engine_dirs() {
    let entries = vec![
        CacheEntry { name: Some("ver2".to_string()), is_dir: true },
        CacheEntry { name: Some("notes.txt".to_string()), is_dir: false },
        CacheEntry { name: None, is_dir: true },
        CacheEntry { name: Some("ver1".to_string()), is_dir: true },
    ];
    assert_eq!(cached_versions(true, &entries), vec!["ver1", "ver2"]);
    assert!(cached_versions(false, &entries).is_empty());
}

#[test]
fn cached_versions_sorts_by_code_point() {
    let names = ["b", "a", "B", "ab", "", "\u{e9}", "z"];
    let entries: Vec<CacheEntry> =
        names.iter().map(|n| CacheEntry { name: Some(n.to_string()), is_dir: true }).collect();
    let mut expected: Vec<String> = names.iter().map(|n| n.to_string()).collect();
    expected.sort();
    assert_eq!(cached_versions(true, &entries), expected);
}

#[test]
fn test_adopt_engine_dir_moves_to_cache() {
    let plan = adopt_engine_dir(HOME, "/e/ver", "abc123", true, false).unwrap();
    assert_eq!(plan.src, "/e/ver/bin/cache/engine");
    assert_eq!(plan.dest, "/home/user/.dartup/cache/engines/abc123");
    assert!(plan.move_into_cache);
    let plan = adopt_engine_dir(HOME, "/e/ver", "abc123", true, true).unwrap();
    assert!(!plan.move_into_cache);
    let err = adopt_engine_dir(HOME, "/e/ver", "abc123", false, false).unwrap_err();
    assert_eq!(err.message(), "No engine directory at /e/ver/bin/cache/engine");
}

#[test]
fn test_engine_download_url_contains_version() {
    let url = engine_download_url("abc123", "linux");
    assert!(url.contains("abc123"), "URL should contain version");
    assert!(url.ends_with("engine.zip"), "URL should end with engine.zip");
}

#[test]
fn engine_download_url_per_platform() {
    assert_eq!(
        engine_download_url("e1", "linux"),
        "https://storage.googleapis.com/flutter_infra_release/flutter/e1/linux-x64/engine.zip"
    );
    assert_eq!(
        engine_download_url("e1", "macos"),
        "https://storage.googleapis.com/flutter_infra_release/flutter/e1/darwin-x64/engine.zip"
    );
    assert_eq!(
        engine_download_url("e1", "windows"),
        "https://storage.googleapis.com/flutter_infra_release/flutter/e1/windows-x64/engine.zip"
    );
    assert_eq!(
        engine_download_url("e1", "freebsd"),
        "https://storage.googleapis.com/flutter_infra_release/flutter/e1/unknown/engine.zip"
    );
}

#[test]
fn download_engine_plans() {
    match download_engine(HOME, "e1", "linux", true) {
        DownloadPlan::Cached { dest } => assert_eq!(dest, "/home/user/.dartup/cache/engines/e1"),
        _ => panic!("expected cached"),
    }
    assert_eq!(
        download_engine(HOME, "e1", "linux", false).result_path(),
        "/home/user/.dartup/cache/engines/e1"
    );
    assert_eq!(
        download_engine(HOME, "e1", "linux", true).result_path(),
        "/home/user/.dartup/cache/engines/e1"
    );
    match download_engine(HOME, "e1", "linux", false) {
        DownloadPlan::Fetch { url, tmp_dir, archive, dest } => {
            assert!(url.ends_with("/e1/linux-x64/engine.zip"));
            assert_eq!(tmp_dir, "/home/user/.dartup/.tmp");
            assert_eq!(archive, "/home/user/.dartup/.tmp/engine-e1.zip");
            assert_eq!(dest, "/home/user/.dartup/cache/engines/e1");
        }
        _ => panic!("expected fetch"),
    }
}

#[test]
fn test_verify_integrity_accepts_valid_engine() {
    let result = verify_engine_integrity("/t/valid-eng-hash", &valid_engine());
    assert!(result.is_ok(), "valid engine should pass integrity: {result:?}");
}

#[test]
fn test_verify_integrity_rejects_empty_engine() {
    let result = verify_engine_integrity("/t/empty-eng-hash", &empty_engine());
    assert!(result.is_err(), "empty engine should fail integrity");
}

#[test]
fn test_verify_integrity_rejects_missing_engine() {
    let missing = EngineDirState { exists: false, is_dir: false, entries: None };
    let result = verify_engine_integrity("/t/missing-eng-hash", &missing);
    assert!(result.is_err(), "missing engine should fail integrity");
    assert_eq!(result.unwrap_err().message(), "Engine is not cached at /t/missing-eng-hash");
}

#[test]
fn test_verify_integrity_rejects_empty_file_instead_of_dir() {
    let file = EngineDirState { exists: true, is_dir: false, entries: None };
    let result = verify_engine_integrity("/t/file-eng-hash", &file);
    assert!(result.is_err(), "file (not dir) should fail integrity");
    assert_eq!(
        result.unwrap_err().message(),
        "Engine path exists but is not a directory: /t/file-eng-hash"
    );
}

#[test]
fn verify_integrity_other_failures() {
    let unreadable = EngineDirState { exists: true, is_dir: true, entries: None };
    let e = verify_engine_integrity("/t/x", &unreadable).unwrap_err();
    assert!(matches!(e, IntegrityError::Unreadable { .. }));
    assert_eq!(e.message(), "Failed to read engine directory /t/x");
    let only_files = EngineDirState {
        exists: true,
        is_dir: true,
        entries: Some(vec![EngineEntry { is_dir: false, has_entries: false }]),
    };
    let e = verify_engine_integrity("/t/x", &only_files).unwrap_err();
    assert!(matches!(e, IntegrityError::EmptyOrCorrupted { .. }));
    let empty_platform = EngineDirState {
        exists: true,
        is_dir: true,
        entries: Some(vec![EngineEntry { is_dir: true, has_entries: false }]),
    };
    assert!(verify_engine_integrity("/t/x", &empty_platform).is_err());
}
