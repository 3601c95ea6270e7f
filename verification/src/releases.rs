//! The Flutter release list: where it is fetched from, how the raw listing
//! becomes release records, when the disk cache stands in for the network,
//! how much of it is shown, and how a version is looked up in it.
use vstd::prelude::*;
use vstd::string::*;
use crate::config::ReleaseInfo;
use crate::paths::join;
use crate::paths::path_join;
use crate::text::str_eq;
use crate::text::str_lex_le;
use crate::text::lex_le;
use crate::text::lemma_lex_reflexive;
use crate::text::lemma_lex_total;
use crate::text::lemma_lex_transitive;
use crate::text::lemma_lex_antisymmetric;

verus! {

/// A release as the Flutter release API lists it.
#[derive(Debug)]
pub struct FlutterRelease {
    pub version: String,
    pub channel: String,
    pub archive: String,
    pub sha256: String,
    pub release_date: String,
}

/// The Flutter release API returns a JSON object with releases key.
#[derive(Debug)]
pub struct FlutterReleasesResponse {
    pub releases: Vec<FlutterRelease>,
    pub base_url: Option<String>,
}

/// Where archives are found when the listing names no base URL.
pub const DEFAULT_ARCHIVE_BASE: &'static str =
    "https://storage.googleapis.com/flutter_infra_release/releases";

/// Errors of the release list operations.
#[derive(Debug)]
pub enum ReleasesError {
    UnsupportedOs { os: String },
    NotFound { version: String },
}

impl ReleasesError {
    pub open spec fn spec_message(&self) -> Seq<char> {
        match self {
            ReleasesError::UnsupportedOs { os } => "Unsupported OS: "@ + os@,
            ReleasesError::NotFound { version } => "Could not find Flutter version '"@ + version@
                + "'. Run 'dartup releases' to see available versions."@,
        }
    }

    pub fn message(&self) -> (s: String)
        ensures
            s@ == self.spec_message(),
    {
        match self {
            ReleasesError::UnsupportedOs { os } => String::from_str("Unsupported OS: ").concat(
                os.as_str(),
            ),
            ReleasesError::NotFound { version } => String::from_str(
                "Could not find Flutter version '",
            ).concat(version.as_str()).concat(
                "'. Run 'dartup releases' to see available versions.",
            ),
        }
    }
}

pub open spec fn spec_release_list_url(os: Seq<char>) -> Option<Seq<char>> {
    if os == "linux"@ {
        Some("https://storage.googleapis.com/flutter_infra_release/releases/releases_linux.json"@)
    } else if os == "macos"@ {
        Some("https://storage.googleapis.com/flutter_infra_release/releases/releases_macos.json"@)
    } else if os == "windows"@ {
        Some(
            "https://storage.googleapis.com/flutter_infra_release/releases/releases_windows.json"@,
        )
    } else {
        None
    }
}

/// The URL of the release list for the operating system `os` (as
/// `std::env::consts::OS` names it).
pub fn release_list_url(os: &str) -> (r: Result<String, ReleasesError>)
    ensures
        match spec_release_list_url(os@) {
            Some(u) => r matches Ok(url) && url@ == u,
            None => r matches Err(ReleasesError::UnsupportedOs { os: o }) && o@ == os@,
        },
{
    if str_eq(os, "linux") {
        Ok(
            String::from_str(
                "https://storage.googleapis.com/flutter_infra_release/releases/releases_linux.json",
            ),
        )
    } else if str_eq(os, "macos") {
        Ok(
            String::from_str(
                "https://storage.googleapis.com/flutter_infra_release/releases/releases_macos.json",
            ),
        )
    } else if str_eq(os, "windows") {
        Ok(
            String::from_str(
                "https://storage.googleapis.com/flutter_infra_release/releases/releases_windows.json",
            ),
        )
    } else {
        Err(ReleasesError::UnsupportedOs { os: String::from_str(os) })
    }
}

/// Path to the cached release list for the platform `os`, in `releases_cache_dir`.
pub fn releases_cache_path(releases_cache_dir: &str, os: &str) -> (r: String)
    ensures
        r@ == path_join(releases_cache_dir@, "releases_"@ + os@ + ".json"@),
{
    let name = String::from_str("releases_").concat(os).concat(".json");
    join(releases_cache_dir, name.as_str())
}

pub open spec fn spec_archive_url(base_url: Option<String>, archive: Seq<char>) -> Seq<char> {
    let base = match base_url {
        Some(b) => b@,
        None => DEFAULT_ARCHIVE_BASE@,
    };
    base + "/"@ + archive
}

/// The release record made of a listed release.
pub open spec fn release_of(info: ReleaseInfo, r: FlutterRelease, base_url: Option<String>) -> bool {
    &&& info.version@ == r.version@
    &&& info.channel@ == r.channel@
    &&& info.archive_url@ == spec_archive_url(base_url, r.archive@)
    &&& info.sha256@ == r.sha256@
    &&& info.release_date@ == r.release_date@
}

/// The release records of a release listing, in its order; each archive URL
/// is the archive's name under the listing's base URL (or the default one).
pub fn releases_from_response(resp: &FlutterReleasesResponse) -> (r: Vec<ReleaseInfo>)
    ensures
        r@.len() == resp.releases@.len(),
        forall|i: int|
            0 <= i < r@.len() ==> release_of(#[trigger] r@[i], resp.releases@[i], resp.base_url),
{
    let base: &str = match &resp.base_url {
        Some(b) => b.as_str(),
        None => DEFAULT_ARCHIVE_BASE,
    };
    let mut out: Vec<ReleaseInfo> = Vec::new();
    let mut i: usize = 0;
    while i < resp.releases.len()
        invariant
            i <= resp.releases@.len(),
            out@.len() == i,
            base@ == match resp.base_url {
                Some(b) => b@,
                None => DEFAULT_ARCHIVE_BASE@,
            },
            forall|k: int|
                0 <= k < i ==> release_of(#[trigger] out@[k], resp.releases@[k], resp.base_url),
        decreases resp.releases.len() - i,
    {
        let rel = &resp.releases[i];
        let archive_url = String::from_str(base).concat("/").concat(rel.archive.as_str());
        out.push(
            ReleaseInfo {
                version: rel.version.clone(),
                channel: rel.channel.clone(),
                archive_url,
                sha256: rel.sha256.clone(),
                release_date: rel.release_date.clone(),
            },
        );
        i = i + 1;
    }
    out
}

/// Where a release list came from.
#[derive(Debug, Clone, Copy, PartialEq, Eq)]
pub enum ReleaseSource {
    /// Fetched from the release API; it is to be saved to the disk cache.
    Remote,
    /// Read from the disk cache because the fetch failed.
    Cache,
}

/// The release list, given what the fetch from the release API gave and,
/// when that failed, what the disk cache holds: the fetched list when the
/// fetch succeeded, else the cached list, else the fetch's error.
pub fn settle_release_list<E>(remote: Result<Vec<ReleaseInfo>, E>, cached: Option<
    Vec<ReleaseInfo>,
>) -> (r: Result<(Vec<ReleaseInfo>, ReleaseSource), E>)
    ensures
        remote matches Ok(v) ==> r == Ok::<(Vec<ReleaseInfo>, ReleaseSource), E>(
            (v, ReleaseSource::Remote),
        ),
        remote matches Err(e) ==> match cached {
            Some(c) => r == Ok::<(Vec<ReleaseInfo>, ReleaseSource), E>((c, ReleaseSource::Cache)),
            None => r == Err::<(Vec<ReleaseInfo>, ReleaseSource), E>(e),
        },
{
    match remote {
        Ok(v) => Ok((v, ReleaseSource::Remote)),
        Err(e) => match cached {
            Some(c) => Ok((c, ReleaseSource::Cache)),
            None => Err(e),
        },
    }
}

/// How many releases are shown by default.
pub const DEFAULT_SHOWN: usize = 20;

/// How many of `total` releases are shown, and how many are left unshown
/// (to be mentioned) when not all are shown.
pub fn release_listing(total: usize, show_all: bool) -> (r: (usize, Option<usize>))
    ensures
        show_all ==> r == (total, None::<usize>),
        !show_all && total <= DEFAULT_SHOWN ==> r == (total, None::<usize>),
        !show_all && total > DEFAULT_SHOWN ==> r == (DEFAULT_SHOWN, Some((total - DEFAULT_SHOWN) as usize)),
{
    let max_display = if show_all { total } else { DEFAULT_SHOWN };
    let shown = if total < max_display { total } else { max_display };
    let more = if !show_all && total > max_display { Some(total - max_display) } else { None };
    (shown, more)
}

/// The color a release channel is shown in.
#[derive(Debug, Clone, Copy, PartialEq, Eq)]
pub enum ChannelColor {
    Green,
    Yellow,
    Cyan,
}

/// Stable releases are green, beta releases yellow, the others cyan.
pub fn channel_color(channel: &str) -> (r: ChannelColor)
    ensures
        r == if channel@ == "stable"@ {
            ChannelColor::Green
        } else if channel@ == "beta"@ {
            ChannelColor::Yellow
        } else {
            ChannelColor::Cyan
        },
{
    if str_eq(channel, "stable") {
        ChannelColor::Green
    } else if str_eq(channel, "beta") {
        ChannelColor::Yellow
    } else {
        ChannelColor::Cyan
    }
}

pub open spec fn same_release(a: ReleaseInfo, b: ReleaseInfo) -> bool {
    &&& a.version@ == b.version@
    &&& a.channel@ == b.channel@
    &&& a.archive_url@ == b.archive_url@
    &&& a.sha256@ == b.sha256@
    &&& a.release_date@ == b.release_date@
}

/// `i` is the first release whose version is `v`.
pub open spec fn is_first_version_match(rs: Seq<ReleaseInfo>, v: Seq<char>, i: int) -> bool {
    &&& 0 <= i < rs.len()
    &&& rs[i].version@ == v
    &&& forall|j: int| 0 <= j < i ==> (#[trigger] rs[j]).version@ != v
}

pub open spec fn no_version_match(rs: Seq<ReleaseInfo>, v: Seq<char>) -> bool {
    forall|j: int| 0 <= j < rs.len() ==> (#[trigger] rs[j]).version@ != v
}

/// `i` is the latest release in channel `v`: no release of the channel has
/// a later release date (dates compare as ISO 8601 text), and those listed
/// before it have earlier ones, so among equally dated ones it is the first.
pub open spec fn is_latest_channel_match(rs: Seq<ReleaseInfo>, v: Seq<char>, i: int) -> bool {
    &&& 0 <= i < rs.len()
    &&& rs[i].channel@ == v
    &&& forall|j: int|
        0 <= j < rs.len() && (#[trigger] rs[j]).channel@ == v ==> lex_le(
            rs[j].release_date@,
            rs[i].release_date@,
        )
    &&& forall|j: int|
        0 <= j < i && (#[trigger] rs[j]).channel@ == v ==> rs[j].release_date@
            != rs[i].release_date@
}

/// The release that a lookup of `v` finds: the first with version `v`, or,
/// when none has it, the latest in channel `v`.
pub open spec fn found_release(rs: Seq<ReleaseInfo>, v: Seq<char>, i: int) -> bool {
    ||| is_first_version_match(rs, v, i)
    ||| no_version_match(rs, v) && is_latest_channel_match(rs, v, i)
}

/// What a lookup of `v` finds: a release whose version is `v` if any has
/// it, the first such; otherwise a release of channel `v` dated no earlier
/// than any other of that channel.
pub proof fn lemma_found_release_law(rs: Seq<ReleaseInfo>, v: Seq<char>, i: int)
    requires
        found_release(rs, v, i),
    ensures
        0 <= i < rs.len(),
        (exists|j: int| 0 <= j < rs.len() && (#[trigger] rs[j]).version@ == v) ==> {
            &&& rs[i].version@ == v
            &&& forall|j: int| 0 <= j < i ==> (#[trigger] rs[j]).version@ != v
        },
        (forall|j: int| 0 <= j < rs.len() ==> (#[trigger] rs[j]).version@ != v) ==> {
            &&& rs[i].channel@ == v
            &&& forall|j: int|
                0 <= j < rs.len() && (#[trigger] rs[j]).channel@ == v ==> lex_le(
                    rs[j].release_date@,
                    rs[i].release_date@,
                )
        },
{
}

/// A lookup finds a single release: two releases that both fit are the same one.
pub proof fn lemma_found_release_unique(rs: Seq<ReleaseInfo>, v: Seq<char>, i: int, k: int)
    requires
        found_release(rs, v, i),
        found_release(rs, v, k),
    ensures
        i == k,
{
    if is_first_version_match(rs, v, i) {
        if !is_first_version_match(rs, v, k) {
            assert(rs[i].version@ == v);
        }
    } else {
        if is_first_version_match(rs, v, k) {
            assert(rs[k].version@ == v);
        } else {
            let di = rs[i].release_date@;
            let dk = rs[k].release_date@;
            assert(rs[k].channel@ == v);
            assert(rs[i].channel@ == v);
            assert(lex_le(dk, di));
            assert(lex_le(di, dk));
            lemma_lex_antisymmetric(di, dk);
        }
    }
}

/// Find a release by version string (exact match or channel name).
pub fn find_release(releases: &Vec<ReleaseInfo>, version: &str) -> (r: Result<
    ReleaseInfo,
    ReleasesError,
>)
    ensures
        r is Ok <==> exists|i: int|
            0 <= i < releases@.len() && ((#[trigger] releases@[i]).version@ == version@
                || releases@[i].channel@ == version@),
        r matches Ok(info) ==> exists|i: int|
            found_release(releases@, version@, i) && same_release(info, #[trigger] releases@[i]),
        r matches Err(e) ==> (e matches ReleasesError::NotFound { version: v } && v@ == version@),
{
    // Try exact match first
    let mut i: usize = 0;
    while i < releases.len()
        invariant
            i <= releases@.len(),
            forall|j: int| 0 <= j < i ==> (#[trigger] releases@[j]).version@ != version@,
        decreases releases.len() - i,
    {
        if str_eq(releases[i].version.as_str(), version) {
            let info = releases[i].duplicate();
            assert(found_release(releases@, version@, i as int));
            return Ok(info);
        }
        i = i + 1;
    }
    // Try channel match (latest in that channel)
    let mut best: Option<usize> = None;
    let mut k: usize = 0;
    while k < releases.len()
        invariant
            k <= releases@.len(),
            no_version_match(releases@, version@),
            best is None ==> forall|j: int|
                0 <= j < k ==> (#[trigger] releases@[j]).channel@ != version@,
            best matches Some(b) ==> {
                &&& b < k
                &&& releases@[b as int].channel@ == version@
                &&& forall|j: int|
                    0 <= j < k && (#[trigger] releases@[j]).channel@ == version@ ==> lex_le(
                        releases@[j].release_date@,
                        releases@[b as int].release_date@,
                    )
                &&& forall|j: int|
                    0 <= j < b && (#[trigger] releases@[j]).channel@ == version@
                        ==> releases@[j].release_date@ != releases@[b as int].release_date@
            },
        decreases releases.len() - k,
    {
        if str_eq(releases[k as usize].channel.as_str(), version) {
            let ghost dk = releases@[k as int].release_date@;
            proof {
                lemma_lex_reflexive(dk);
            }
            match best {
                None => {
                    best = Some(k);
                },
                Some(b) => {
                    let ghost db = releases@[b as int].release_date@;
                    if !str_lex_le(
                        releases[k].release_date.as_str(),
                        releases[b].release_date.as_str(),
                    ) {
                        proof {
                            lemma_lex_total(dk, db);
                            assert forall|j: int|
                                0 <= j < k + 1 && (#[trigger] releases@[j]).channel@
                                    == version@ implies lex_le(
                                releases@[j].release_date@,
                                dk,
                            ) by {
                                if j < k {
                                    lemma_lex_transitive(releases@[j].release_date@, db, dk);
                                }
                            }
                            assert forall|j: int|
                                0 <= j < k && (#[trigger] releases@[j]).channel@ == version@
                                    implies releases@[j].release_date@ != dk by {
                                if releases@[j].release_date@ == dk {
                                    assert(lex_le(dk, db));
                                }
                            }
                        }
                        best = Some(k);
                    }
                },
            }
        }
        k = k + 1;
    }
    match best {
        Some(b) => {
            let info = releases[b].duplicate();
            assert(is_latest_channel_match(releases@, version@, b as int));
            assert(found_release(releases@, version@, b as int));
            Ok(info)
        },
        None => Err(ReleasesError::NotFound { version: String::from_str(version) }),
    }
}

} // verus!
