//! The central engine cache: where engine builds live, how a toolchain's
//! engine directory is linked to them, and when a cached engine is usable.
//!
//! Functions that touch the filesystem take what was observed of it
//! (`EngineDirState`, `LinkState`) and return what is to be done.
use vstd::prelude::*;
use vstd::string::*;
use crate::paths::join;
use crate::paths::path_join;
use crate::paths::is_absolute;
use crate::paths::lemma_join_relative;
use crate::paths::lemma_join_injective;
use crate::paths::lemma_join_ends_with;
use crate::text::str_eq;
use crate::text::str_lex_le;
use crate::text::lex_le;
use crate::text::lemma_lex_total;
use crate::text::lemma_lex_transitive;

verus! {

pub open spec fn spec_cache_dir(dartup_home: Seq<char>) -> Seq<char> {
    path_join(path_join(dartup_home, "cache"@), "engines"@)
}

pub open spec fn spec_engine_dir(dartup_home: Seq<char>, engine_version: Seq<char>) -> Seq<char> {
    path_join(spec_cache_dir(dartup_home), engine_version)
}

pub open spec fn spec_engine_link(env_dir: Seq<char>) -> Seq<char> {
    path_join(path_join(path_join(env_dir, "bin"@), "cache"@), "engine"@)
}

pub open spec fn spec_engine_version_file(env_dir: Seq<char>) -> Seq<char> {
    path_join(path_join(path_join(env_dir, "bin"@), "internal"@), "engine.version"@)
}

/// The cached engine of a version lies directly under the cache directory.
pub proof fn lemma_engine_dir_under_cache_dir(dartup_home: Seq<char>, engine_version: Seq<char>)
    requires
        !is_absolute(engine_version),
    ensures
        spec_engine_dir(dartup_home, engine_version) == spec_cache_dir(dartup_home) + seq!['/']
            + engine_version,
{
    reveal_strlit("engines");
    lemma_join_ends_with(path_join(dartup_home, "cache"@), "engines"@);
    lemma_join_relative(spec_cache_dir(dartup_home), engine_version);
}

/// Distinct engine versions are cached in distinct directories.
pub proof fn lemma_engine_dir_injective(dartup_home: Seq<char>, v1: Seq<char>, v2: Seq<char>)
    requires
        !is_absolute(v1),
        !is_absolute(v2),
        spec_engine_dir(dartup_home, v1) == spec_engine_dir(dartup_home, v2),
    ensures
        v1 == v2,
{
    lemma_join_injective(spec_cache_dir(dartup_home), v1, v2);
}

/// Root of the central engine cache: `{dartup_home}/cache/engines`
pub fn cache_dir(dartup_home: &str) -> (r: String)
    ensures
        r@ == spec_cache_dir(dartup_home@),
{
    let c = join(dartup_home, "cache");
    join(c.as_str(), "engines")
}

/// Path to a specific engine version's cached binaries
pub fn engine_dir(dartup_home: &str, engine_version: &str) -> (r: String)
    ensures
        r@ == spec_engine_dir(dartup_home@, engine_version@),
{
    let c = cache_dir(dartup_home);
    join(c.as_str(), engine_version)
}

/// A toolchain's engine directory (or link): `{env_dir}/bin/cache/engine`
pub fn engine_link(env_dir: &str) -> (r: String)
    ensures
        r@ == spec_engine_link(env_dir@),
{
    let b = join(env_dir, "bin");
    let c = join(b.as_str(), "cache");
    join(c.as_str(), "engine")
}

/// The file naming a toolchain's engine: `{env_dir}/bin/internal/engine.version`
pub fn engine_version_file(env_dir: &str) -> (r: String)
    ensures
        r@ == spec_engine_version_file(env_dir@),
{
    let b = join(env_dir, "bin");
    let c = join(b.as_str(), "internal");
    join(c.as_str(), "engine.version")
}

// ---------------------------------------------------------------------------
// Trimming the engine version file

/// Unicode White_Space, the characters that `str::trim` strips.
pub open spec fn is_whitespace(c: char) -> bool {
    let x = c as int;
    ||| 0x09 <= x <= 0x0D
    ||| x == 0x20
    ||| x == 0x85
    ||| x == 0xA0
    ||| x == 0x1680
    ||| 0x2000 <= x <= 0x200A
    ||| x == 0x2028
    ||| x == 0x2029
    ||| x == 0x202F
    ||| x == 0x205F
    ||| x == 0x3000
}

/// Index of the first non-whitespace character at or after `i`.
pub open spec fn first_non_whitespace(s: Seq<char>, i: int) -> int
    decreases s.len() - i,
{
    if i >= s.len() {
        s.len() as int
    } else if is_whitespace(s[i]) {
        first_non_whitespace(s, i + 1)
    } else {
        i
    }
}

/// End of the last non-whitespace character at or before `j`.
pub open spec fn end_non_whitespace(s: Seq<char>, j: int) -> int
    decreases j,
{
    if j <= 0 {
        0
    } else if is_whitespace(s[j - 1]) {
        end_non_whitespace(s, j - 1)
    } else {
        j
    }
}

/// `s` without leading and trailing whitespace.
pub open spec fn trim(s: Seq<char>) -> Seq<char> {
    let lo = first_non_whitespace(s, 0);
    if lo >= s.len() {
        Seq::empty()
    } else {
        s.subrange(lo, end_non_whitespace(s, s.len() as int))
    }
}

fn char_is_whitespace(c: char) -> (r: bool)
    ensures
        r == is_whitespace(c),
{
    let x = c as u32;
    (0x09 <= x && x <= 0x0D) || x == 0x20 || x == 0x85 || x == 0xA0 || x == 0x1680 || (0x2000
        <= x && x <= 0x200A) || x == 0x2028 || x == 0x2029 || x == 0x202F || x == 0x205F || x
        == 0x3000
}

proof fn lemma_end_non_whitespace_bounds(s: Seq<char>, j: int, lo: int)
    requires
        0 <= lo < j <= s.len(),
        !is_whitespace(s[lo]),
    ensures
        lo < end_non_whitespace(s, j) <= j,
    decreases j,
{
    if j - 1 > lo && is_whitespace(s[j - 1]) {
        lemma_end_non_whitespace_bounds(s, j - 1, lo);
    }
}

/// `content` without leading and trailing whitespace.
pub fn trim_str(content: &str) -> (r: String)
    ensures
        r@ == trim(content@),
{
    let n = content.unicode_len();
    let mut lo: usize = 0;
    while lo < n && char_is_whitespace(content.get_char(lo))
        invariant
            n == content@.len(),
            lo <= n,
            first_non_whitespace(content@, lo as int) == first_non_whitespace(content@, 0),
        decreases n - lo,
    {
        lo = lo + 1;
    }
    if lo == n {
        return String::new();
    }
    let mut hi: usize = n;
    while hi > lo + 1 && char_is_whitespace(content.get_char(hi - 1))
        invariant
            n == content@.len(),
            lo < hi <= n,
            lo == first_non_whitespace(content@, 0),
            !is_whitespace(content@[lo as int]),
            end_non_whitespace(content@, hi as int) == end_non_whitespace(content@, n as int),
        decreases hi,
    {
        hi = hi - 1;
    }
    proof {
        if hi == lo + 1 {
            lemma_end_non_whitespace_bounds(content@, hi as int, lo as int);
        }
    }
    String::from_str(content.substring_char(lo, hi))
}

/// Which characters are whitespace: among ASCII exactly space, tab, line
/// feed, vertical tab, form feed and carriage return, and no letter or digit;
/// beyond ASCII the other characters of Unicode's White_Space property.
pub proof fn lemma_whitespace_chars(c: char)
    ensures
        (c as int) < 128 ==> (is_whitespace(c) <==> (c == ' ' || c == '\t' || c == '\n' || c
            == '\r' || (c as int) == 0x0B || (c as int) == 0x0C)),
        ('0' <= c <= '9' || 'a' <= c <= 'z' || 'A' <= c <= 'Z') ==> !is_whitespace(c),
        (c as int) >= 128 ==> (is_whitespace(c) <==> ((c as int) == 0x85 || (c as int) == 0xA0
            || (c as int) == 0x1680 || (0x2000 <= (c as int) <= 0x200A) || (c as int) == 0x2028
            || (c as int) == 0x2029 || (c as int) == 0x202F || (c as int) == 0x205F || (c as int)
            == 0x3000)),
{
}

proof fn lemma_first_non_whitespace(s: Seq<char>, i: int)
    requires
        0 <= i <= s.len(),
    ensures
        i <= first_non_whitespace(s, i) <= s.len(),
        forall|j: int| i <= j < first_non_whitespace(s, i) ==> is_whitespace(#[trigger] s[j]),
        first_non_whitespace(s, i) < s.len() ==> !is_whitespace(s[first_non_whitespace(s, i)]),
    decreases s.len() - i,
{
    if i < s.len() && is_whitespace(s[i]) {
        lemma_first_non_whitespace(s, i + 1);
    }
}

proof fn lemma_end_non_whitespace(s: Seq<char>, j: int)
    requires
        0 <= j <= s.len(),
    ensures
        0 <= end_non_whitespace(s, j) <= j,
        forall|k: int| end_non_whitespace(s, j) <= k < j ==> is_whitespace(#[trigger] s[k]),
        end_non_whitespace(s, j) > 0 ==> !is_whitespace(s[end_non_whitespace(s, j) - 1]),
    decreases j,
{
    if j > 0 && is_whitespace(s[j - 1]) {
        lemma_end_non_whitespace(s, j - 1);
    }
}

/// Trimming keeps a contiguous part of the text and drops only whitespace
/// before and after it; what is kept neither starts nor ends with whitespace.
pub proof fn lemma_trim_law(s: Seq<char>)
    ensures
        exists|lo: int, hi: int|
            {
                &&& 0 <= lo <= hi <= s.len()
                &&& trim(s) == s.subrange(lo, hi)
                &&& forall|j: int| 0 <= j < lo ==> is_whitespace(#[trigger] s[j])
                &&& forall|j: int| hi <= j < s.len() ==> is_whitespace(#[trigger] s[j])
            },
        trim(s).len() > 0 ==> !is_whitespace(trim(s)[0]) && !is_whitespace(trim(s).last()),
        (forall|j: int| 0 <= j < s.len() ==> !is_whitespace(#[trigger] s[j])) ==> trim(s) == s,
{
    let n = s.len() as int;
    lemma_first_non_whitespace(s, 0);
    lemma_end_non_whitespace(s, n);
    let lo = first_non_whitespace(s, 0);
    let hi = end_non_whitespace(s, n);
    if lo >= n {
        assert(trim(s) =~= s.subrange(n, n));
        assert(forall|j: int| n <= j < s.len() ==> is_whitespace(#[trigger] s[j]));
    } else {
        if hi <= lo {
            assert(is_whitespace(s[lo]));
        }
        assert(trim(s) == s.subrange(lo, hi));
        assert(trim(s)[0] == s[lo]);
        assert(trim(s).last() == s[hi - 1]);
    }
    if forall|j: int| 0 <= j < s.len() ==> !is_whitespace(#[trigger] s[j]) {
        if n > 0 {
            assert(!is_whitespace(s[0]));
            assert(lo == 0);
            assert(!is_whitespace(s[n - 1]));
            assert(hi == n);
            assert(trim(s) =~= s);
        } else {
            assert(trim(s) =~= s);
        }
    }
}

// ---------------------------------------------------------------------------
// Errors

/// Why a cached engine directory is not usable.
#[derive(Debug)]
pub enum IntegrityError {
    NotCached { path: String },
    NotADirectory { path: String },
    Unreadable { path: String },
    EmptyOrCorrupted { path: String },
}

impl IntegrityError {
    pub open spec fn spec_message(&self) -> Seq<char> {
        match self {
            IntegrityError::NotCached { path } => "Engine is not cached at "@ + path@,
            IntegrityError::NotADirectory { path } => "Engine path exists but is not a directory: "@
                + path@,
            IntegrityError::Unreadable { path } => "Failed to read engine directory "@ + path@,
            IntegrityError::EmptyOrCorrupted { path } => "Engine cache is empty or corrupted at "@
                + path@,
        }
    }

    pub fn message(&self) -> (s: String)
        ensures
            s@ == self.spec_message(),
    {
        match self {
            IntegrityError::NotCached { path } => String::from_str(
                "Engine is not cached at ",
            ).concat(path.as_str()),
            IntegrityError::NotADirectory { path } => String::from_str(
                "Engine path exists but is not a directory: ",
            ).concat(path.as_str()),
            IntegrityError::Unreadable { path } => String::from_str(
                "Failed to read engine directory ",
            ).concat(path.as_str()),
            IntegrityError::EmptyOrCorrupted { path } => String::from_str(
                "Engine cache is empty or corrupted at ",
            ).concat(path.as_str()),
        }
    }
}

/// Errors of the engine cache operations.
#[derive(Debug)]
pub enum EngineError {
    /// The engine version file of a toolchain could not be read.
    VersionUnreadable { env_dir: String },
    /// No cached engine of that version.
    VersionNotCached { version: String, path: String },
    /// The cached engine of that version is not usable.
    Corrupted { version: String, path: String, cause: IntegrityError },
    /// The toolchain has no engine directory to adopt.
    NoEngineDir { path: String },
}

impl EngineError {
    pub open spec fn spec_message(&self) -> Seq<char> {
        match self {
            EngineError::VersionUnreadable { env_dir } => "Failed to read engine.version from "@
                + env_dir@,
            EngineError::VersionNotCached { version, path } => "Engine "@ + version@
                + " is not cached at "@ + path@,
            EngineError::Corrupted { version, path, cause } => "Engine "@ + version@
                + " cache is corrupted at "@ + path@,
            EngineError::NoEngineDir { path } => "No engine directory at "@ + path@,
        }
    }

    pub fn message(&self) -> (s: String)
        ensures
            s@ == self.spec_message(),
    {
        match self {
            EngineError::VersionUnreadable { env_dir } => String::from_str(
                "Failed to read engine.version from ",
            ).concat(env_dir.as_str()),
            EngineError::VersionNotCached { version, path } => String::from_str("Engine ").concat(
                version.as_str(),
            ).concat(" is not cached at ").concat(path.as_str()),
            EngineError::Corrupted { version, path, cause } => String::from_str("Engine ").concat(
                version.as_str(),
            ).concat(" cache is corrupted at ").concat(path.as_str()),
            EngineError::NoEngineDir { path } => String::from_str("No engine directory at ").concat(
                path.as_str(),
            ),
        }
    }
}

/// Read the engine version of an installed Flutter SDK from the contents of
/// its engine version file (`None` when the file could not be read).
pub fn read_engine_version(env_dir: &str, content: Option<&str>) -> (r: Result<String, EngineError>)
    ensures
        match content {
            Some(c) => r matches Ok(v) && v@ == trim(c@),
            None => r matches Err(EngineError::VersionUnreadable { env_dir: d }) && d@ == env_dir@,
        },
{
    match content {
        Some(c) => Ok(trim_str(c)),
        None => Err(EngineError::VersionUnreadable { env_dir: String::from_str(env_dir) }),
    }
}

// ---------------------------------------------------------------------------
// Integrity of a cached engine

/// An entry of a cached engine directory.
#[derive(Debug)]
pub struct EngineEntry {
    pub is_dir: bool,
    /// Whether the entry, as a directory, is not empty (holds files).
    pub has_entries: bool,
}

/// What was observed of a cached engine directory.
#[derive(Debug)]
pub struct EngineDirState {
    pub exists: bool,
    pub is_dir: bool,
    /// Its readable entries, or `None` when it could not be listed.
    pub entries: Option<Vec<EngineEntry>>,
}

/// Some entry is a platform subdirectory that is not empty (holds files).
pub open spec fn has_platform_dir(entries: Seq<EngineEntry>) -> bool {
    exists|i: int| 0 <= i < entries.len() && #[trigger] entries[i].is_dir && entries[i].has_entries
}

/// A cached engine is usable: a readable directory with a non-empty platform subdirectory.
pub open spec fn engine_intact(state: EngineDirState) -> bool {
    &&& state.exists
    &&& state.is_dir
    &&& state.entries matches Some(es) && has_platform_dir(es@)
}

/// The error, for an engine at `path` in `state`, is the first check it fails.
pub open spec fn integrity_error_for(path: Seq<char>, state: EngineDirState, e: IntegrityError) -> bool {
    if !state.exists {
        e matches IntegrityError::NotCached { path: p } && p@ == path
    } else if !state.is_dir {
        e matches IntegrityError::NotADirectory { path: p } && p@ == path
    } else if state.entries is None {
        e matches IntegrityError::Unreadable { path: p } && p@ == path
    } else {
        e matches IntegrityError::EmptyOrCorrupted { path: p } && p@ == path
    }
}

/// Verify that a cached engine directory has valid contents (not empty/corrupted):
/// it is accepted when it contains at least one platform subdirectory with
/// files, that is, one that is not empty.
pub fn verify_engine_integrity(engine_dir: &str, state: &EngineDirState) -> (r: Result<(), IntegrityError>)
    ensures
        r is Ok <==> engine_intact(*state),
        r matches Err(e) ==> integrity_error_for(engine_dir@, *state, e),
{
    let path = String::from_str(engine_dir);
    if !state.exists {
        return Err(IntegrityError::NotCached { path });
    }
    if !state.is_dir {
        return Err(IntegrityError::NotADirectory { path });
    }
    match &state.entries {
        None => Err(IntegrityError::Unreadable { path }),
        Some(entries) => {
            let mut i: usize = 0;
            while i < entries.len()
                invariant
                    state.exists,
                    state.is_dir,
                    state.entries == Some(*entries),
                    i <= entries@.len(),
                    forall|k: int| 0 <= k < i ==> !(#[trigger] entries@[k].is_dir && entries@[k].has_entries),
                decreases entries.len() - i,
            {
                if entries[i].is_dir && entries[i].has_entries {
                    assert(entries@[i as int].is_dir && entries@[i as int].has_entries);
                    assert(has_platform_dir(entries@));
                    return Ok(());
                }
                i = i + 1;
            }
            Err(IntegrityError::EmptyOrCorrupted { path })
        },
    }
}

/// An existing, readable engine directory is accepted as soon as one of its
/// entries is a platform subdirectory holding files, whatever its other
/// entries are.
pub proof fn lemma_one_platform_dir_suffices(entries: Vec<EngineEntry>, i: int)
    requires
        0 <= i < entries@.len(),
        entries@[i].is_dir,
        entries@[i].has_entries,
    ensures
        engine_intact(EngineDirState { exists: true, is_dir: true, entries: Some(entries) }),
{
    assert(entries@[i].is_dir && entries@[i].has_entries);
}

/// An engine directory is accepted only when it exists, is a directory,
/// could be listed, and some entry is a platform subdirectory holding files.
pub proof fn lemma_intact_needs_platform_dir(state: EngineDirState)
    requires
        engine_intact(state),
    ensures
        state.exists,
        state.is_dir,
        state.entries is Some,
        exists|i: int|
            0 <= i < state.entries->0@.len() && (#[trigger] state.entries->0@[i]).is_dir
                && state.entries->0@[i].has_entries,
{
}

/// Whether an engine is accepted does not depend on the order or number of
/// entries besides platform subdirectories: adding entries never turns an
/// accepted engine into a rejected one.
pub proof fn lemma_more_entries_stay_intact(entries: Vec<EngineEntry>, more: Vec<EngineEntry>)
    requires
        engine_intact(EngineDirState { exists: true, is_dir: true, entries: Some(entries) }),
        entries@.len() <= more@.len(),
        entries@ == more@.subrange(0, entries@.len() as int),
    ensures
        engine_intact(EngineDirState { exists: true, is_dir: true, entries: Some(more) }),
{
    let i = choose|i: int| 0 <= i < entries@.len() && #[trigger] entries@[i].is_dir && entries@[i].has_entries;
    assert(more@[i] == entries@[i]);
    assert(more@[i].is_dir && more@[i].has_entries);
}

// ---------------------------------------------------------------------------
// Linking a toolchain to a cached engine

/// What was observed at a toolchain's engine path.
#[derive(Debug)]
pub struct LinkState {
    pub exists: bool,
    pub is_symlink: bool,
    pub is_file: bool,
}

/// How the present entry at a toolchain's engine path is cleared.
#[derive(Debug, Clone, Copy, PartialEq, Eq)]
pub enum LinkClearing {
    Nothing,
    RemoveFile,
    RemoveDirAll,
}

pub open spec fn spec_link_clearing(link: LinkState) -> LinkClearing {
    if link.exists || link.is_symlink {
        if link.is_symlink || link.is_file {
            LinkClearing::RemoveFile
        } else {
            LinkClearing::RemoveDirAll
        }
    } else {
        LinkClearing::Nothing
    }
}

/// Clear `link`, create its parent directory, and make it a symlink to `target`.
#[derive(Debug)]
pub struct SymlinkPlan {
    pub clear: LinkClearing,
    pub link: String,
    pub target: String,
}

fn link_clearing(link: &LinkState) -> (r: LinkClearing)
    ensures
        r == spec_link_clearing(*link),
{
    if link.exists || link.is_symlink {
        if link.is_symlink || link.is_file {
            LinkClearing::RemoveFile
        } else {
            LinkClearing::RemoveDirAll
        }
    } else {
        LinkClearing::Nothing
    }
}

/// Whatever is at a toolchain's engine path is cleared before linking: a
/// symlink (dangling or not) or a file is removed as a file, a directory
/// with all its contents; only an empty path is left as it is.
pub proof fn lemma_link_clearing_law(link: LinkState)
    ensures
        link.is_symlink ==> spec_link_clearing(link) == LinkClearing::RemoveFile,
        link.exists && link.is_file ==> spec_link_clearing(link) == LinkClearing::RemoveFile,
        link.exists ==> spec_link_clearing(link) != LinkClearing::Nothing,
        link.exists && !link.is_symlink && !link.is_file ==> spec_link_clearing(link)
            == LinkClearing::RemoveDirAll,
        !link.exists && !link.is_symlink ==> spec_link_clearing(link) == LinkClearing::Nothing,
{
}

/// Symlink a toolchain's bin/cache/engine to a cached engine at a given path,
/// after checking that the cached engine is intact.
pub fn symlink_engine_to(
    env_dir: &str,
    engine_cache_path: &str,
    engine_version: &str,
    cache: &EngineDirState,
    link: &LinkState,
) -> (r: Result<SymlinkPlan, EngineError>)
    ensures
        r is Ok <==> engine_intact(*cache),
        r matches Ok(plan) ==> {
            &&& plan.link@ == spec_engine_link(env_dir@)
            &&& plan.target@ == engine_cache_path@
            &&& plan.clear == spec_link_clearing(*link)
        },
        r matches Err(e) ==> e matches EngineError::Corrupted { version, path, cause } && version@
            == engine_version@ && path@ == engine_cache_path@ && integrity_error_for(
            engine_cache_path@,
            *cache,
            cause,
        ),
{
    match verify_engine_integrity(engine_cache_path, cache) {
        Err(cause) => Err(
            EngineError::Corrupted {
                version: String::from_str(engine_version),
                path: String::from_str(engine_cache_path),
                cause,
            },
        ),
        Ok(()) => Ok(
            SymlinkPlan {
                clear: link_clearing(link),
                link: engine_link(env_dir),
                target: String::from_str(engine_cache_path),
            },
        ),
    }
}

/// Symlink a toolchain's bin/cache/engine to the central cached engine.
pub fn symlink_engine(
    dartup_home: &str,
    env_dir: &str,
    engine_version: &str,
    cache: &EngineDirState,
    link: &LinkState,
) -> (r: Result<SymlinkPlan, EngineError>)
    ensures
        !cache.exists ==> (r matches Err(EngineError::VersionNotCached { version, path })
            && version@ == engine_version@ && path@ == spec_engine_dir(
            dartup_home@,
            engine_version@,
        )),
        r is Ok <==> engine_intact(*cache),
        r matches Ok(plan) ==> {
            &&& plan.link@ == spec_engine_link(env_dir@)
            &&& plan.target@ == spec_engine_dir(dartup_home@, engine_version@)
            &&& plan.clear == spec_link_clearing(*link)
        },
        cache.exists ==> (r matches Err(e) ==> (e matches EngineError::Corrupted {
            version,
            path,
            cause,
        } && version@ == engine_version@ && path@ == spec_engine_dir(dartup_home@, engine_version@)
            && integrity_error_for(path@, *cache, cause))),
{
    let engine_cache_path = engine_dir(dartup_home, engine_version);
    if !cache.exists {
        return Err(
            EngineError::VersionNotCached {
                version: String::from_str(engine_version),
                path: engine_cache_path,
            },
        );
    }
    symlink_engine_to(env_dir, engine_cache_path.as_str(), engine_version, cache, link)
}

/// The link to remove so that a toolchain's engine path is no longer a
/// symlink, leaving the place free for a real directory:
/// its engine path, when that is a symlink.
pub fn remove_engine_symlinks(env_dir: &str, link_is_symlink: bool) -> (r: Option<String>)
    ensures
        r is Some <==> link_is_symlink,
        r matches Some(p) ==> p@ == spec_engine_link(env_dir@),
{
    if link_is_symlink {
        Some(engine_link(env_dir))
    } else {
        None
    }
}

/// Move a toolchain's engine directory `src` into the cache at `dest` (or,
/// when `dest` is already cached, delete `src`), then symlink `src` to `dest`.
#[derive(Debug)]
pub struct AdoptPlan {
    pub src: String,
    pub dest: String,
    pub move_into_cache: bool,
}

/// Adopt an existing engine directory of a toolchain into the central cache.
pub fn adopt_engine_dir(
    dartup_home: &str,
    env_dir: &str,
    engine_version: &str,
    src_exists: bool,
    dest_exists: bool,
) -> (r: Result<AdoptPlan, EngineError>)
    ensures
        r is Ok <==> src_exists,
        r matches Err(e) ==> e matches EngineError::NoEngineDir { path } && path@
            == spec_engine_link(env_dir@),
        r matches Ok(plan) ==> {
            &&& plan.src@ == spec_engine_link(env_dir@)
            &&& plan.dest@ == spec_engine_dir(dartup_home@, engine_version@)
            &&& plan.move_into_cache == !dest_exists
        },
{
    let src = engine_link(env_dir);
    if !src_exists {
        return Err(EngineError::NoEngineDir { path: src });
    }
    let dest = engine_dir(dartup_home, engine_version);
    Ok(AdoptPlan { src, dest, move_into_cache: !dest_exists })
}

// ---------------------------------------------------------------------------
// Listing the cache

/// An entry of the cache directory.
#[derive(Debug)]
pub struct CacheEntry {
    /// Its name, when that is valid Unicode.
    pub name: Option<String>,
    pub is_dir: bool,
}

/// The names of the directory entries with a Unicode name, in order.
pub open spec fn version_names(entries: Seq<CacheEntry>) -> Seq<Seq<char>>
    decreases entries.len(),
{
    if entries.len() == 0 {
        Seq::empty()
    } else {
        let prev = version_names(entries.drop_last());
        let e = entries.last();
        if e.is_dir && e.name is Some {
            prev.push(e.name->0@)
        } else {
            prev
        }
    }
}

pub open spec fn string_views(v: Seq<String>) -> Seq<Seq<char>> {
    v.map_values(|s: String| s@)
}

pub open spec fn sorted_lex(s: Seq<Seq<char>>) -> bool {
    forall|i: int, j: int| 0 <= i < j < s.len() ==> lex_le(#[trigger] s[i], #[trigger] s[j])
}

fn insert_sorted(v: &mut Vec<String>, x: String)
    requires
        sorted_lex(string_views(old(v)@)),
    ensures
        sorted_lex(string_views(final(v)@)),
        string_views(final(v)@).to_multiset() == string_views(old(v)@).to_multiset().insert(x@),
{
    broadcast use vstd::seq_lib::group_to_multiset_ensures;
    let ghost old_views = string_views(v@);
    let mut j: usize = 0;
    while j < v.len() && str_lex_le(v[j].as_str(), x.as_str())
        invariant
            j <= v@.len(),
            old_views == string_views(v@),
            forall|k: int| 0 <= k < j ==> lex_le(#[trigger] old_views[k], x@),
        decreases v@.len() - j,
    {
        j = j + 1;
    }
    proof {
        if j < v@.len() {
            lemma_lex_total(old_views[j as int], x@);
        }
    }
    let ghost xv = x@;
    v.insert(j, x);
    let ghost new_views = string_views(v@);
    assert(new_views =~= old_views.insert(j as int, xv));
    assert forall|a: int, b: int| 0 <= a < b < new_views.len() implies lex_le(
        #[trigger] new_views[a],
        #[trigger] new_views[b],
    ) by {
        if b < j {
        } else if b == j {
        } else if a == j {
            if b - 1 > j {
                lemma_lex_transitive(xv, old_views[j as int], old_views[b - 1]);
            }
        } else if a < j {
            lemma_lex_transitive(old_views[a], xv, old_views[j as int]);
            if b - 1 > j {
                lemma_lex_transitive(old_views[a], old_views[j as int], old_views[b - 1]);
            }
        } else {
            assert(new_views[a] == old_views[a - 1]);
            assert(new_views[b] == old_views[b - 1]);
        }
    }
}

/// List engine versions cached in the central store: the names of the
/// subdirectories of the cache directory, sorted; none when it does not exist.
pub fn cached_versions(cache_exists: bool, entries: &Vec<CacheEntry>) -> (r: Vec<String>)
    ensures
        !cache_exists ==> r@.len() == 0,
        cache_exists ==> sorted_lex(string_views(r@)),
        cache_exists ==> string_views(r@).to_multiset() == version_names(entries@).to_multiset(),
{
    broadcast use vstd::seq_lib::group_to_multiset_ensures;
    let mut res: Vec<String> = Vec::new();
    if !cache_exists {
        return res;
    }
    assert(string_views(res@) =~= Seq::<Seq<char>>::empty());
    let mut i: usize = 0;
    while i < entries.len()
        invariant
            i <= entries@.len(),
            sorted_lex(string_views(res@)),
            string_views(res@).to_multiset() == version_names(entries@.subrange(0, i as int)).to_multiset(),
        decreases entries.len() - i,
    {
        let ghost pre = entries@.subrange(0, i as int);
        let ghost post = entries@.subrange(0, i + 1);
        assert(post.drop_last() =~= pre);
        assert(post.last() == entries@[i as int]);
        assert(version_names(post) == if entries@[i as int].is_dir && entries@[i as int].name is Some {
            version_names(pre).push(entries@[i as int].name->0@)
        } else {
            version_names(pre)
        });
        if entries[i].is_dir {
            match &entries[i].name {
                Some(n) => {
                    assert(version_names(post) == version_names(pre).push(n@));
                    proof {
                        vstd::seq_lib::to_multiset_build(version_names(pre), n@);
                    }
                    insert_sorted(&mut res, n.clone());
                },
                None => {},
            }
        }
        i = i + 1;
    }
    assert(entries@.subrange(0, entries@.len() as int) =~= entries@);
    res
}

// ---------------------------------------------------------------------------
// Downloads

pub open spec fn spec_engine_platform(os: Seq<char>) -> Seq<char> {
    if os == "linux"@ {
        "linux-x64"@
    } else if os == "macos"@ {
        "darwin-x64"@
    } else if os == "windows"@ {
        "windows-x64"@
    } else {
        "unknown"@
    }
}

pub open spec fn spec_engine_download_url(engine_version: Seq<char>, os: Seq<char>) -> Seq<char> {
    "https://storage.googleapis.com/flutter_infra_release/flutter/"@ + engine_version + "/"@
        + spec_engine_platform(os) + "/engine.zip"@
}

fn engine_platform(os: &str) -> (r: &'static str)
    ensures
        r@ == spec_engine_platform(os@),
{
    if str_eq(os, "linux") {
        "linux-x64"
    } else if str_eq(os, "macos") {
        "darwin-x64"
    } else if str_eq(os, "windows") {
        "windows-x64"
    } else {
        "unknown"
    }
}

/// Returns the engine download URL for a given engine version on the
/// operating system `os` (as `std::env::consts::OS` names it).
pub fn engine_download_url(engine_version: &str, os: &str) -> (r: String)
    ensures
        r@ == spec_engine_download_url(engine_version@, os@),
{
    String::from_str("https://storage.googleapis.com/flutter_infra_release/flutter/").concat(
        engine_version,
    ).concat("/").concat(engine_platform(os)).concat("/engine.zip")
}

/// What downloading an engine takes.
#[derive(Debug)]
pub enum DownloadPlan {
    /// The engine is cached already at `dest`.
    Cached { dest: String },
    /// Create `tmp_dir`, download `url` to `archive`, extract it to `dest`,
    /// then delete `archive`.
    Fetch { url: String, tmp_dir: String, archive: String, dest: String },
}

impl DownloadPlan {
    /// The engine directory in the central cache that the plan fills.
    pub open spec fn spec_result_path(&self) -> Seq<char> {
        match self {
            DownloadPlan::Cached { dest } => dest@,
            DownloadPlan::Fetch { dest, .. } => dest@,
        }
    }

    /// The path handed back once the plan is carried out: where the engine
    /// archive ends up, extracted, in the central cache.
    pub fn result_path(&self) -> (r: String)
        ensures
            r@ == self.spec_result_path(),
    {
        match self {
            DownloadPlan::Cached { dest } => dest.clone(),
            DownloadPlan::Fetch { dest, .. } => dest.clone(),
        }
    }
}

/// Download an engine archive into the central cache, extracted; the path
/// handed back is that of the engine in the cache.
pub fn download_engine(dartup_home: &str, engine_version: &str, os: &str, dest_exists: bool) -> (r:
    DownloadPlan)
    ensures
        dest_exists ==> (r matches DownloadPlan::Cached { dest } && dest@ == spec_engine_dir(
            dartup_home@,
            engine_version@,
        )),
        !dest_exists ==> (r matches DownloadPlan::Fetch { url, tmp_dir, archive, dest } && {
            &&& url@ == spec_engine_download_url(engine_version@, os@)
            &&& tmp_dir@ == path_join(dartup_home@, ".tmp"@)
            &&& archive@ == path_join(tmp_dir@, "engine-"@ + engine_version@ + ".zip"@)
            &&& dest@ == spec_engine_dir(dartup_home@, engine_version@)
        }),
        r.spec_result_path() == spec_engine_dir(dartup_home@, engine_version@),
{
    let dest = engine_dir(dartup_home, engine_version);
    if dest_exists {
        return DownloadPlan::Cached { dest };
    }
    let url = engine_download_url(engine_version, os);
    let tmp_dir = join(dartup_home, ".tmp");
    let name = String::from_str("engine-").concat(engine_version).concat(".zip");
    let archive = join(tmp_dir.as_str(), name.as_str());
    DownloadPlan::Fetch { url, tmp_dir, archive, dest }
}

} // verus!
