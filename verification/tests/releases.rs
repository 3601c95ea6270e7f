use dartup::config::ReleaseInfo;
use dartup::releases::channel_color;
use dartup::releases::find_release;
use dartup::releases::release_list_url;
use dartup::releases::release_listing;
use dartup::releases::releases_cache_path;
use dartup::releases::releases_from_response;
use dartup::releases::settle_release_list;
use dartup::releases::ChannelColor;
use dartup::releases::FlutterRelease;
use dartup::releases::FlutterReleasesResponse;
use dartup::releases::ReleaseSource;
use dartup::releases::ReleasesError;

fn dated(version: &str, channel: &str, date: &str) -> ReleaseInfo {
    ReleaseInfo {
        version: version.to_string(),
        channel: channel.to_string(),
        archive_url: format!("https://example.org/{version}.zip"),
        sha256: format!("sha-{version}"),
        release_date: date.to_string(),
    }
}

fn rel(version: &str, channel: &str) -> ReleaseInfo {
    dated(version, channel, "2024-01-01")
}

/// Newest first, as the release API lists them.
fn listing() -> Vec<ReleaseInfo> {
    vec![
        dated("3.22.0", "stable", "2024-05-14T17:00:00Z"),
        dated("3.23.0-0.1.pre", "beta", "2024-05-20T10:00:00Z"),
        dated("3.19.0", "stable", "2024-02-15T12:00:00Z"),
        dated("3.16.0", "stable", "2023-11-15T12:00:00Z"),
        dated("3.22.0-0.3.pre", "beta", "2024-04-30T09:00:00Z"),
    ]
}

#[test]
fn find_release_prefers_exact_version() {
    let r = find_release(&listing(), "3.22.0").unwrap();
    assert_eq!(r.version, "3.22.0");
    assert_eq!(r.channel, "stable");
    assert_eq!(r.sha256, "sha-3.22.0");
}

#[test]
fn find_release_channel_takes_latest() {
    let r = find_release(&listing(), "stable").unwrap();
    assert_eq!(r.version, "3.22.0");
    let r = find_release(&listing(), "beta").unwrap();
    assert_eq!(r.version, "3.23.0-0.1.pre");
    assert_eq!(r.channel, "beta");
    // Oldest first gives the same answer.
    let mut rs = listing();
    rs.reverse();
    assert_eq!(find_release(&rs, "stable").unwrap().version, "3.22.0");
    // Among releases of the same date, the first listed.
    let rs = vec![
        dated("a", "dev", "2024-01-01"),
        dated("b", "dev", "2024-03-01"),
        dated("c", "dev", "2024-03-01"),
    ];
    assert_eq!(find_release(&rs, "dev").unwrap().version, "b");
}

#[test]
fn find_release_reports_unknown_version() {
    let e = find_release(&listing(), "9.9.9").unwrap_err();
    assert!(matches!(e, ReleasesError::NotFound { .. }));
    assert_eq!(
        e.message(),
        "Could not find Flutter version '9.9.9'. Run 'dartup releases' to see available versions."
    );
    assert!(find_release(&Vec::new(), "stable").is_err());
}

#[test]
fn release_urls_per_os() {
    assert_eq!(
        release_list_url("linux").unwrap(),
        "https://storage.googleapis.com/flutter_infra_release/releases/releases_linux.json"
    );
    assert_eq!(
        release_list_url("macos").unwrap(),
        "https://storage.googleapis.com/flutter_infra_release/releases/releases_macos.json"
    );
    assert_eq!(
        release_list_url("windows").unwrap(),
        "https://storage.googleapis.com/flutter_infra_release/releases/releases_windows.json"
    );
    let e = release_list_url("haiku").unwrap_err();
    assert_eq!(e.message(), "Unsupported OS: haiku");
    assert_eq!(releases_cache_path("/c/releases", "linux"), "/c/releases/releases_linux.json");
}

#[test]
fn response_becomes_release_records() {
    let resp = FlutterReleasesResponse {
        releases: vec![FlutterRelease {
            version: "3.22.0".to_string(),
            channel: "stable".to_string(),
            archive: "stable/linux/flutter_linux_3.22.0-stable.tar.xz".to_string(),
            sha256: "abc".to_string(),
            release_date: "2024-05-14".to_string(),
        }],
        base_url: None,
    };
    let out = releases_from_response(&resp);
    assert_eq!(out.len(), 1);
    assert_eq!(
        out[0].archive_url,
        "https://storage.googleapis.com/flutter_infra_release/releases/stable/linux/flutter_linux_3.22.0-stable.tar.xz"
    );
    assert_eq!(out[0].version, "3.22.0");
    assert_eq!(out[0].channel, "stable");
    assert_eq!(out[0].sha256, "abc");
    assert_eq!(out[0].release_date, "2024-05-14");
    let resp = FlutterReleasesResponse { base_url: Some("https://mirror".to_string()), ..resp };
    assert_eq!(
        releases_from_response(&resp)[0].archive_url,
        "https://mirror/stable/linux/flutter_linux_3.22.0-stable.tar.xz"
    );
}

#[test]
fn release_list_falls_back_to_cache() {
    let fresh = settle_release_list::<String>(Ok(vec![rel("1", "stable")]), None).unwrap();
    assert_eq!(fresh.1, ReleaseSource::Remote);
    assert_eq!(fresh.0[0].version, "1");
    let cached =
        settle_release_list(Err("offline".to_string()), Some(vec![rel("2", "beta")])).unwrap();
    assert_eq!(cached.1, ReleaseSource::Cache);
    assert_eq!(cached.0[0].version, "2");
    let failed = settle_release_list(Err("offline".to_string()), None);
    assert_eq!(failed.unwrap_err(), "offline");
}

#[test]
fn listing_shows_twenty_by_default() {
    assert_eq!(release_listing(5, false), (5, None));
    assert_eq!(release_listing(20, false), (20, None));
    assert_eq!(release_listing(25, false), (20, Some(5)));
    assert_eq!(release_listing(25, true), (25, None));
}

#[test]
fn channel_colors() {
    assert_eq!(channel_color("stable"), ChannelColor::Green);
    assert_eq!(channel_color("beta"), ChannelColor::Yellow);
    assert_eq!(channel_color("main"), ChannelColor::Cyan);
}
