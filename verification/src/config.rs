//! The on-disk layout: XDG data and cache roots, the directories under them,
//! per-project override files, and the layout of the legacy `~/.dartup` home.
use vstd::prelude::*;
use vstd::string::*;
use crate::paths::join;
use crate::paths::path_join;
use crate::paths::lemma_join_injective;

verus! {

/// Per-project config file name
pub const PROJECT_CONFIG_FILE: &'static str = ".dartup.json";

/// Directory name for override storage
pub const OVERRIDE_DIR: &'static str = ".dartup";

/// Override file name inside .dartup/
pub const OVERRIDE_FILE: &'static str = "override";

/// The user prefix that XDG base directories are scoped to: the application
/// name joined with an empty profile, so it carries a trailing separator.
pub open spec fn user_prefix() -> Seq<char> {
    path_join("dartup"@, ""@)
}

pub open spec fn spec_data_root(data_home: Seq<char>) -> Seq<char> {
    path_join(data_home, user_prefix())
}

pub open spec fn spec_cache_root(cache_home: Seq<char>) -> Seq<char> {
    path_join(cache_home, user_prefix())
}

fn app_user_prefix() -> (r: String)
    ensures
        r@ == user_prefix(),
{
    join("dartup", "")
}

/// The directories of the layout are distinct: under the data root the SDK
/// directory, the default link and the migration marker; under the cache
/// root the engine cache, the git cache and the download directory.
pub proof fn lemma_layout_distinct(data_home: Seq<char>, cache_home: Seq<char>)
    ensures
        path_join(spec_data_root(data_home), "envs"@) != path_join(spec_data_root(data_home), "default"@),
        path_join(spec_data_root(data_home), "envs"@) != path_join(spec_data_root(data_home), ".xdg-migrated"@),
        path_join(spec_data_root(data_home), "default"@) != path_join(spec_data_root(data_home), ".xdg-migrated"@),
        path_join(spec_cache_root(cache_home), "engines"@) != path_join(spec_cache_root(cache_home), "git"@),
        path_join(spec_cache_root(cache_home), "engines"@) != path_join(spec_cache_root(cache_home), "tmp"@),
        path_join(spec_cache_root(cache_home), "git"@) != path_join(spec_cache_root(cache_home), "tmp"@),
{
    reveal_strlit("envs");
    reveal_strlit("default");
    reveal_strlit(".xdg-migrated");
    reveal_strlit("engines");
    reveal_strlit("git");
    reveal_strlit("tmp");
    let d = spec_data_root(data_home);
    let c = spec_cache_root(cache_home);
    if path_join(d, "envs"@) == path_join(d, "default"@) {
        lemma_join_injective(d, "envs"@, "default"@);
    }
    if path_join(d, "envs"@) == path_join(d, ".xdg-migrated"@) {
        lemma_join_injective(d, "envs"@, ".xdg-migrated"@);
    }
    if path_join(d, "default"@) == path_join(d, ".xdg-migrated"@) {
        lemma_join_injective(d, "default"@, ".xdg-migrated"@);
    }
    if path_join(c, "engines"@) == path_join(c, "git"@) {
        lemma_join_injective(c, "engines"@, "git"@);
    }
    if path_join(c, "engines"@) == path_join(c, "tmp"@) {
        lemma_join_injective(c, "engines"@, "tmp"@);
    }
    if path_join(c, "git"@) == path_join(c, "tmp"@) {
        lemma_join_injective(c, "git"@, "tmp"@);
        assert("git"@[0] != "tmp"@[0]);
    }
}

/// Root of user-specific data (installed SDKs, profiles, default symlink):
/// the XDG data home (`$XDG_DATA_HOME` or `~/.local/share`) scoped to dartup.
pub fn data_root(data_home: &str) -> (r: String)
    ensures
        r@ == spec_data_root(data_home@),
{
    let prefix = app_user_prefix();
    join(data_home, prefix.as_str())
}

/// Root of user-specific cache (engine artifacts, git objects, temp downloads):
/// the XDG cache home (`$XDG_CACHE_HOME` or `~/.cache`) scoped to dartup.
pub fn cache_root(cache_home: &str) -> (r: String)
    ensures
        r@ == spec_cache_root(cache_home@),
{
    let prefix = app_user_prefix();
    join(cache_home, prefix.as_str())
}

/// Directory where Flutter SDK versions are installed: `{data_root}/envs`
pub fn envs_dir(data_home: &str) -> (r: String)
    ensures
        r@ == path_join(spec_data_root(data_home@), "envs"@),
{
    let root = data_root(data_home);
    join(root.as_str(), "envs")
}

/// Directory for shared engine artifact cache: `{cache_root}/engines`
pub fn engine_cache_dir(cache_home: &str) -> (r: String)
    ensures
        r@ == path_join(spec_cache_root(cache_home@), "engines"@),
{
    let root = cache_root(cache_home);
    join(root.as_str(), "engines")
}

/// Directory for shared git data (bare repo cache): `{cache_root}/git`
pub fn git_cache_dir(cache_home: &str) -> (r: String)
    ensures
        r@ == path_join(spec_cache_root(cache_home@), "git"@),
{
    let root = cache_root(cache_home);
    join(root.as_str(), "git")
}

/// Path to the global default symlink: `{data_root}/default`
pub fn global_default_path(data_home: &str) -> (r: String)
    ensures
        r@ == path_join(spec_data_root(data_home@), "default"@),
{
    let root = data_root(data_home);
    join(root.as_str(), "default")
}

/// Temporary download directory: `{cache_root}/tmp`
pub fn tmp_dir(cache_home: &str) -> (r: String)
    ensures
        r@ == path_join(spec_cache_root(cache_home@), "tmp"@),
{
    let root = cache_root(cache_home);
    join(root.as_str(), "tmp")
}

/// Path to the override file for a given project directory
pub fn override_path(project_root: &str) -> (r: String)
    ensures
        r@ == path_join(path_join(project_root@, OVERRIDE_DIR@), OVERRIDE_FILE@),
{
    let dir = join(project_root, OVERRIDE_DIR);
    join(dir.as_str(), OVERRIDE_FILE)
}

#[derive(Debug)]
pub struct ProjectConfig {
    pub version: String,
}

#[derive(Debug)]
pub struct ReleaseInfo {
    pub version: String,
    pub channel: String,
    pub archive_url: String,
    pub sha256: String,
    pub release_date: String,
}

impl ReleaseInfo {
    /// A field-by-field copy.
    pub fn duplicate(&self) -> (r: ReleaseInfo)
        ensures
            r.version@ == self.version@,
            r.channel@ == self.channel@,
            r.archive_url@ == self.archive_url@,
            r.sha256@ == self.sha256@,
            r.release_date@ == self.release_date@,
    {
        ReleaseInfo {
            version: self.version.clone(),
            channel: self.channel.clone(),
            archive_url: self.archive_url.clone(),
            sha256: self.sha256.clone(),
            release_date: self.release_date.clone(),
        }
    }
}

/// The legacy home: `$HOME/.dartup`, or `~/.dartup` when `$HOME` is unset.
pub fn legacy_home(home: Option<&str>) -> (r: String)
    ensures
        r@ == path_join(
            match home {
                Some(h) => h@,
                None => "~"@,
            },
            ".dartup"@,
        ),
{
    match home {
        Some(h) => join(h, ".dartup"),
        None => join("~", ".dartup"),
    }
}

/// Marker file written after successful migration: `{data_root}/.xdg-migrated`.
pub fn migrated_marker(data_home: &str) -> (r: String)
    ensures
        r@ == path_join(spec_data_root(data_home@), ".xdg-migrated"@),
{
    let root = data_root(data_home);
    join(root.as_str(), ".xdg-migrated")
}

// ---------------------------------------------------------------------------
// Migration from the legacy `~/.dartup` layout

/// A directory to be moved from `src` to `dst`.
#[derive(Debug)]
pub struct DirMove {
    pub src: String,
    pub dst: String,
}

/// The paths that migrating the legacy layout reads and writes.
#[derive(Debug)]
pub struct MigrationPaths {
    /// The legacy home.
    pub legacy: String,
    /// The data root and the cache root.
    pub data: String,
    pub cache: String,
    /// Installed SDKs, then cached engines, then git data.
    pub moves: Vec<DirMove>,
    /// The legacy default symlink and its new place.
    pub legacy_default: String,
    pub data_default: String,
    /// A leftover directory of an older layout, removed.
    pub dead_engine: String,
    /// The legacy cache directory, removed when empty.
    pub legacy_cache: String,
    /// The marker written once the migration is done.
    pub marker: String,
}

pub open spec fn moves_match(moves: Seq<DirMove>, legacy: Seq<char>, data: Seq<char>, cache: Seq<char>) -> bool {
    let legacy_cache = path_join(legacy, "cache"@);
    &&& moves.len() == 3
    &&& moves[0].src@ == path_join(legacy, "envs"@)
    &&& moves[0].dst@ == path_join(data, "envs"@)
    &&& moves[1].src@ == path_join(legacy_cache, "engines"@)
    &&& moves[1].dst@ == path_join(cache, "engines"@)
    &&& moves[2].src@ == path_join(legacy_cache, "git"@)
    &&& moves[2].dst@ == path_join(cache, "git"@)
}

/// The paths of the migration from the legacy home (`$HOME/.dartup`) to the
/// XDG data and cache roots.
pub fn migration_paths(home: Option<&str>, data_home: &str, cache_home: &str) -> (r: MigrationPaths)
    ensures
        r.legacy@ == path_join(
            match home {
                Some(h) => h@,
                None => "~"@,
            },
            ".dartup"@,
        ),
        r.data@ == spec_data_root(data_home@),
        r.cache@ == spec_cache_root(cache_home@),
        moves_match(r.moves@, r.legacy@, r.data@, r.cache@),
        r.legacy_default@ == path_join(r.legacy@, "default"@),
        r.data_default@ == path_join(r.data@, "default"@),
        r.dead_engine@ == path_join(path_join(r.legacy@, "cache"@), "engine"@),
        r.legacy_cache@ == path_join(r.legacy@, "cache"@),
        r.marker@ == path_join(spec_data_root(data_home@), ".xdg-migrated"@),
{
    let legacy = legacy_home(home);
    let data = data_root(data_home);
    let cache = cache_root(cache_home);
    let legacy_cache = join(legacy.as_str(), "cache");
    let mut moves: Vec<DirMove> = Vec::new();
    moves.push(DirMove { src: join(legacy.as_str(), "envs"), dst: join(data.as_str(), "envs") });
    moves.push(
        DirMove {
            src: join(legacy_cache.as_str(), "engines"),
            dst: join(cache.as_str(), "engines"),
        },
    );
    moves.push(
        DirMove { src: join(legacy_cache.as_str(), "git"), dst: join(cache.as_str(), "git") },
    );
    let legacy_default = join(legacy.as_str(), "default");
    let data_default = join(data.as_str(), "default");
    let dead_engine = join(legacy_cache.as_str(), "engine");
    let marker = migrated_marker(data_home);
    MigrationPaths {
        legacy,
        data,
        cache,
        moves,
        legacy_default,
        data_default,
        dead_engine,
        legacy_cache,
        marker,
    }
}

/// The migration runs when the legacy home exists and has not been migrated
/// yet; so running it again after it wrote its marker does nothing.
pub fn migration_needed(legacy_exists: bool, marker_exists: bool) -> (r: bool)
    ensures
        r == (legacy_exists && !marker_exists),
{
    legacy_exists && !marker_exists
}

/// One step of the migration, on the paths of `MigrationPaths`.
#[derive(Debug, Clone, Copy, PartialEq, Eq)]
pub enum MigrationAction {
    /// Move `moves[i]` when its source exists and its destination does not.
    MoveDir(usize),
    /// Point the new default link at the SDK the legacy one named, and
    /// remove the legacy link.
    RelinkDefault,
    /// Remove the leftover engine directory of an older layout.
    RemoveDeadEngine,
    /// Remove the legacy cache directory when it is empty.
    RemoveLegacyCache,
    /// Remove the legacy home when it is empty.
    RemoveLegacyHome,
    /// Create the data root.
    CreateDataRoot,
    /// Write the marker that the migration is done.
    WriteMarker,
}

/// The steps whose failure ends the migration with that failure; the
/// others are tried and their failures ignored.
pub open spec fn aborts_on_failure(a: MigrationAction) -> bool {
    match a {
        MigrationAction::MoveDir(_) => true,
        MigrationAction::CreateDataRoot => true,
        MigrationAction::WriteMarker => true,
        _ => false,
    }
}

/// The steps of the migration, in order: none unless it is needed; else the
/// three moves, the default link, the removals, and last the data root and
/// the marker.
pub open spec fn spec_migration_plan(legacy_exists: bool, marker_exists: bool) -> Seq<MigrationAction> {
    if legacy_exists && !marker_exists {
        seq![
            MigrationAction::MoveDir(0),
            MigrationAction::MoveDir(1),
            MigrationAction::MoveDir(2),
            MigrationAction::RelinkDefault,
            MigrationAction::RemoveDeadEngine,
            MigrationAction::RemoveLegacyCache,
            MigrationAction::RemoveLegacyHome,
            MigrationAction::CreateDataRoot,
            MigrationAction::WriteMarker,
        ]
    } else {
        Seq::empty()
    }
}

/// The steps of the migration, given whether the legacy home and the marker exist.
pub fn migration_plan(legacy_exists: bool, marker_exists: bool) -> (r: Vec<MigrationAction>)
    ensures
        r@ == spec_migration_plan(legacy_exists, marker_exists),
{
    let mut r: Vec<MigrationAction> = Vec::new();
    if migration_needed(legacy_exists, marker_exists) {
        r.push(MigrationAction::MoveDir(0));
        r.push(MigrationAction::MoveDir(1));
        r.push(MigrationAction::MoveDir(2));
        r.push(MigrationAction::RelinkDefault);
        r.push(MigrationAction::RemoveDeadEngine);
        r.push(MigrationAction::RemoveLegacyCache);
        r.push(MigrationAction::RemoveLegacyHome);
        r.push(MigrationAction::CreateDataRoot);
        r.push(MigrationAction::WriteMarker);
    }
    assert(r@ =~= spec_migration_plan(legacy_exists, marker_exists));
    r
}

/// Whether the migration goes on after a step that `succeeded` or not: it
/// stops at the first failed step whose failure ends it.
pub fn continue_after(action: MigrationAction, succeeded: bool) -> (r: bool)
    ensures
        r == (succeeded || !aborts_on_failure(action)),
{
    match action {
        MigrationAction::MoveDir(_) | MigrationAction::CreateDataRoot
        | MigrationAction::WriteMarker => succeeded,
        _ => true,
    }
}

/// A run of `plan` with the step outcomes `outcomes` went to its end: every
/// step whose failure ends the migration succeeded.
pub open spec fn run_completes(plan: Seq<MigrationAction>, outcomes: Seq<bool>) -> bool {
    &&& outcomes.len() == plan.len()
    &&& forall|i: int| 0 <= i < plan.len() && aborts_on_failure(#[trigger] plan[i]) ==> outcomes[i]
}

/// Whether the marker exists after a run that went to its end.
pub open spec fn marker_after(plan: Seq<MigrationAction>, outcomes: Seq<bool>, marker_before: bool) -> bool {
    marker_before || exists|i: int|
        0 <= i < plan.len() && plan[i] == MigrationAction::WriteMarker && #[trigger] outcomes[i]
}

/// Migrating is idempotent: a run that goes to its end writes the marker
/// (as its last step, after every move succeeded), so a later run, which
/// finds the marker, has no steps.
pub proof fn lemma_migration_idempotent(legacy_exists: bool, marker_exists: bool, outcomes: Seq<bool>)
    requires
        run_completes(spec_migration_plan(legacy_exists, marker_exists), outcomes),
    ensures
        spec_migration_plan(legacy_exists, marker_exists).len() > 0 ==> {
            &&& spec_migration_plan(legacy_exists, marker_exists).last() == MigrationAction::WriteMarker
            &&& forall|i: int|
                0 <= i < spec_migration_plan(legacy_exists, marker_exists).len() && (
                #[trigger] spec_migration_plan(legacy_exists, marker_exists)[i]) is MoveDir
                ==> outcomes[i]
        },
        spec_migration_plan(
            legacy_exists,
            marker_after(spec_migration_plan(legacy_exists, marker_exists), outcomes, marker_exists),
        ).len() == 0,
{
    let plan = spec_migration_plan(legacy_exists, marker_exists);
    if plan.len() > 0 {
        assert(aborts_on_failure(plan[8]));
        assert(outcomes[8]);
        assert(marker_after(plan, outcomes, marker_exists));
    }
}

/// A needed migration moves every legacy directory (SDKs, cached engines,
/// git data), each before the marker is written, relinks the default link
/// and creates the data root; it moves nothing else, and writes the marker
/// last. A migration that is not needed has no steps.
pub proof fn lemma_migration_covers_layout(legacy_exists: bool, marker_exists: bool)
    ensures
        ({
            let plan = spec_migration_plan(true, false);
            &&& plan.drop_last().contains(MigrationAction::MoveDir(0))
            &&& plan.drop_last().contains(MigrationAction::MoveDir(1))
            &&& plan.drop_last().contains(MigrationAction::MoveDir(2))
            &&& forall|i: int| 0 <= i < plan.len() && (#[trigger] plan[i]) is MoveDir ==> plan[i]->0 < 3
            &&& plan.contains(MigrationAction::RelinkDefault)
            &&& plan.contains(MigrationAction::CreateDataRoot)
            &&& plan.len() > 0 && plan.last() == MigrationAction::WriteMarker
            &&& forall|i: int| 0 <= i < plan.len() - 1 ==> #[trigger] plan[i] != MigrationAction::WriteMarker
        }),
        (spec_migration_plan(legacy_exists, marker_exists).len() > 0) == (legacy_exists && !marker_exists),
{
    let plan = spec_migration_plan(true, false);
    assert(plan.drop_last()[0] == MigrationAction::MoveDir(0));
    assert(plan.drop_last()[1] == MigrationAction::MoveDir(1));
    assert(plan.drop_last()[2] == MigrationAction::MoveDir(2));
    assert(plan[3] == MigrationAction::RelinkDefault);
    assert(plan[7] == MigrationAction::CreateDataRoot);
}

/// A legacy directory is moved when it exists and its new place does not.
pub fn should_move_dir(src_exists: bool, dst_exists: bool) -> (r: bool)
    ensures
        r == (src_exists && !dst_exists),
{
    src_exists && !dst_exists
}

/// What `std::path::Path::file_name` gives for a path: its last component,
/// or none when the path ends in `..` or has no components but a root.
pub uninterp spec fn spec_file_name(path: Seq<char>) -> Option<Seq<char>>;

/// Calls `std::path::Path::file_name`. The contract claims that the result is
/// what that function gives for the path, converted to a string; nothing more
/// of how the last component is found is stated.
#[verifier::external_body]
fn path_file_name(path: &str) -> (r: Option<String>)
    ensures
        match spec_file_name(path@) {
            Some(n) => r matches Some(s) && s@ == n,
            None => r is None,
        },
{
    std::path::Path::new(path).file_name().map(|n| n.to_string_lossy().into_owned())
}

/// Where the default symlink points after the migration, given the last
/// component of its legacy target: the SDK of that name under `{data}/envs`.
pub fn default_target_for_name(data: &str, target_name: Option<&str>) -> (r: Option<String>)
    ensures
        match target_name {
            Some(n) => r matches Some(t) && t@ == path_join(path_join(data@, "envs"@), n@),
            None => r is None,
        },
{
    match target_name {
        Some(n) => {
            let envs = join(data, "envs");
            Some(join(envs.as_str(), n))
        },
        None => None,
    }
}

/// Where the default symlink points after the migration, given the target
/// `link_target` of the legacy default link: the SDK of the same name (its
/// last component) under `{data}/envs`; none when it has no last component.
pub fn relinked_default_target(data: &str, link_target: &str) -> (r: Option<String>)
    ensures
        match spec_file_name(link_target@) {
            Some(n) => r matches Some(t) && t@ == path_join(path_join(data@, "envs"@), n),
            None => r is None,
        },
{
    match path_file_name(link_target) {
        Some(n) => default_target_for_name(data, Some(n.as_str())),
        None => default_target_for_name(data, None),
    }
}

/// The lines reported after a migration; `sdk_display` and `cache_display`
/// are the new SDK directory and cache root as shown to the user.
pub fn migration_report(sdk_display: &str, cache_display: &str) -> (r: Vec<String>)
    ensures
        r@.len() == 3,
        r@[0]@ == "\u{2705} Migrated ~/.dartup/ to XDG Base Directory layout."@,
        r@[1]@ == "   SDKs \u{2192} "@ + sdk_display@,
        r@[2]@ == "   Cache \u{2192} "@ + cache_display@,
{
    let mut r: Vec<String> = Vec::new();
    r.push(String::from_str("\u{2705} Migrated ~/.dartup/ to XDG Base Directory layout."));
    r.push(String::from_str("   SDKs \u{2192} ").concat(sdk_display));
    r.push(String::from_str("   Cache \u{2192} ").concat(cache_display));
    r
}

} // verus!
