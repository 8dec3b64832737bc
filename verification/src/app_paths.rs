use vstd::prelude::*;

verus! {

/// Where the chosen database path came from.
#[derive(Debug, Clone, Copy, PartialEq, Eq, Structural)]
pub enum DatabasePathSource {
    Explicit,
    PlatformDefault,
    LegacyCurrentDirectory,
    CurrentDirectoryFallback,
}

/// The database path to use, where it came from, and where a legacy database could be
/// moved to.
#[derive(Debug, Clone, PartialEq, Eq)]
pub struct ResolvedDatabasePath {
    path: String,
    source: DatabasePathSource,
    migration_target: Option<String>,
}

pub struct ResolvedDatabasePathView {
    pub path: Seq<char>,
    pub source: DatabasePathSource,
    pub migration_target: Option<Seq<char>>,
}

/// The view of an optional text.
pub open spec fn optional_path(value: Option<String>) -> Option<Seq<char>> {
    match value {
        Some(text) => Some(text@),
        None => None,
    }
}

/// The view of an optional borrowed text.
pub open spec fn optional_path_str(value: Option<&str>) -> Option<Seq<char>> {
    match value {
        Some(text) => Some(text@),
        None => None,
    }
}

impl View for ResolvedDatabasePath {
    type V = ResolvedDatabasePathView;

    closed spec fn view(&self) -> ResolvedDatabasePathView {
        ResolvedDatabasePathView {
            path: self.path@,
            source: self.source,
            migration_target: optional_path(self.migration_target),
        }
    }
}

impl ResolvedDatabasePath {
    pub fn path(&self) -> (r: &str)
        ensures
            r@ == self@.path,
    {
        self.path.as_str()
    }

    pub fn source(&self) -> (r: DatabasePathSource)
        ensures
            r == self@.source,
    {
        self.source
    }

    /// Whether an existing database in the current directory stays in use.
    pub fn uses_legacy_current_directory(&self) -> (r: bool)
        ensures
            r == (self@.source == DatabasePathSource::LegacyCurrentDirectory),
    {
        self.source == DatabasePathSource::LegacyCurrentDirectory
    }

    /// Where a legacy database would move to.
    pub fn migration_target(&self) -> (r: Option<&str>)
        ensures
            optional_path_str(r) == self@.migration_target,
    {
        match &self.migration_target {
            Some(target) => Some(target.as_str()),
            None => None,
        }
    }

    /// Whether the path is the platform default, whose directory and file belong to the
    /// current user alone.
    pub fn uses_platform_default(&self) -> (r: bool)
        ensures
            r == (self@.source == DatabasePathSource::PlatformDefault),
    {
        self.source == DatabasePathSource::PlatformDefault
    }
}

/// Which database to use: an explicit path always wins; without a platform default the
/// current-directory file is used; an existing current-directory database stays in use
/// until it is migrated, as long as the platform default does not exist yet.
pub open spec fn resolved_path(
    explicit: Option<Seq<char>>,
    platform_default: Option<Seq<char>>,
    legacy: Seq<char>,
    platform_default_exists: bool,
    legacy_is_file: bool,
) -> ResolvedDatabasePathView {
    match explicit {
        Some(path) => ResolvedDatabasePathView {
            path,
            source: DatabasePathSource::Explicit,
            migration_target: None,
        },
        None => match platform_default {
            None => ResolvedDatabasePathView {
                path: legacy,
                source: DatabasePathSource::CurrentDirectoryFallback,
                migration_target: None,
            },
            Some(platform) => if !platform_default_exists && legacy_is_file {
                ResolvedDatabasePathView {
                    path: legacy,
                    source: DatabasePathSource::LegacyCurrentDirectory,
                    migration_target: Some(platform),
                }
            } else {
                ResolvedDatabasePathView {
                    path: platform,
                    source: DatabasePathSource::PlatformDefault,
                    migration_target: None,
                }
            },
        },
    }
}

/// Resolves the database path from an explicit choice, the platform default, the
/// legacy current-directory path, and what is on disk: whether the platform default
/// exists and whether the legacy path is a file.
pub fn resolve_database_path_from(
    explicit: Option<String>,
    platform_default: Option<String>,
    legacy: String,
    platform_default_exists: bool,
    legacy_is_file: bool,
) -> (r: ResolvedDatabasePath)
    ensures
        r@ == resolved_path(
            optional_path(explicit),
            optional_path(platform_default),
            legacy@,
            platform_default_exists,
            legacy_is_file,
        ),
{
    if let Some(path) = explicit {
        return ResolvedDatabasePath {
            path,
            source: DatabasePathSource::Explicit,
            migration_target: None,
        };
    }
    let platform = match platform_default {
        Some(platform) => platform,
        None => {
            return ResolvedDatabasePath {
                path: legacy,
                source: DatabasePathSource::CurrentDirectoryFallback,
                migration_target: None,
            };
        },
    };
    if !platform_default_exists && legacy_is_file {
        return ResolvedDatabasePath {
            path: legacy,
            source: DatabasePathSource::LegacyCurrentDirectory,
            migration_target: Some(platform),
        };
    }
    ResolvedDatabasePath { path: platform, source: DatabasePathSource::PlatformDefault, migration_target: None }
}

/// An environment value that names a path: present and not empty.
pub fn nonempty_path(value: Option<String>) -> (r: Option<String>)
    ensures
        optional_path(r) == match optional_path(value) {
            Some(text) => if text.len() > 0 {
                Some(text)
            } else {
                None
            },
            None => None,
        },
{
    match value {
        Some(text) => if text.as_str().unicode_len() > 0 {
            Some(text)
        } else {
            None
        },
        None => None,
    }
}

/// The file name of the database, which the current directory held in earlier versions.
pub open spec fn database_file_name() -> Seq<char> {
    "ledger.db"@
}

/// The directory of this application inside the platform's data directory.
pub open spec fn application_directory_name() -> Seq<char> {
    "ledger_rs"@
}

/// A path with a part appended as `PathBuf::push` does for a relative part: an empty path
/// becomes the part, and a separator goes between them unless the path already ends
/// with one (`/` or the platform's separator).
pub open spec fn joined_path(base: Seq<char>, part: Seq<char>, separator: char) -> Seq<char> {
    if base.len() == 0 {
        part
    } else if base.last() == '/' || base.last() == separator {
        base + part
    } else {
        base + seq![separator] + part
    }
}

/// The platform default database path inside a data directory:
/// `DIRECTORY/ledger_rs/ledger.db`.
pub open spec fn platform_database_text(data_directory: Seq<char>, separator: char) -> Seq<char> {
    joined_path(
        joined_path(data_directory, application_directory_name(), separator),
        database_file_name(),
        separator,
    )
}

/// The platform default database path, where there is a data directory.
pub open spec fn platform_database_of(data_directory: Option<Seq<char>>, separator: char) -> Option<Seq<char>> {
    match data_directory {
        Some(directory) => Some(platform_database_text(directory, separator)),
        None => None,
    }
}

fn append_part(path: &mut Vec<char>, part: &str, separator: char)
    ensures
        final(path)@ == joined_path(old(path)@, part@, separator),
{
    if path.len() > 0 {
        let last = path[path.len() - 1];
        if last != '/' && last != separator {
            path.push(separator);
        }
    }
    let mut chars = crate::text::text_chars(part);
    path.append(&mut chars);
    proof {
        assert(final(path)@ =~= joined_path(old(path)@, part@, separator)) by {
            if old(path)@.len() > 0 {
                assert(old(path)@.last() == old(path)@[old(path)@.len() - 1]);
            }
        }
    }
}

/// The legacy current-directory database path, `ledger.db`.
pub fn legacy_database_path() -> (r: String)
    ensures
        r@ == database_file_name(),
{
    String::from_str("ledger.db")
}

/// The platform default database path inside a data directory (see
/// `platform_database_text`), with the platform's path separator.
pub fn platform_database_path(data_directory: &str, separator: char) -> (r: String)
    ensures
        r@ == platform_database_text(data_directory@, separator),
{
    let mut path = crate::text::text_chars(data_directory);
    append_part(&mut path, "ledger_rs", separator);
    append_part(&mut path, "ledger.db", separator);
    crate::text::string_from_chars(&path)
}

proof fn lemma_joined_longer(base: Seq<char>, part: Seq<char>, separator: char)
    ensures
        joined_path(base, part, separator).len() >= base.len() + part.len(),
{
}

/// A legacy database is offered a migration target exactly when it stays in use, and
/// that target is the platform default path inside the data directory, never the
/// legacy path in use.
pub proof fn law_migration_target_is_elsewhere(
    explicit: Option<Seq<char>>,
    data_directory: Option<Seq<char>>,
    separator: char,
    platform_default_exists: bool,
    legacy_is_file: bool,
)
    ensures
        ({
            let resolved = resolved_path(
                explicit,
                platform_database_of(data_directory, separator),
                database_file_name(),
                platform_default_exists,
                legacy_is_file,
            );
            &&& resolved.migration_target is Some <==> resolved.source == DatabasePathSource::LegacyCurrentDirectory
            &&& resolved.migration_target matches Some(target) ==> target != resolved.path
                && data_directory is Some && target == platform_database_text(data_directory->0, separator)
        }),
{
    reveal_strlit("ledger.db");
    reveal_strlit("ledger_rs");
    if let Some(directory) = data_directory {
        let inner = joined_path(directory, application_directory_name(), separator);
        lemma_joined_longer(directory, application_directory_name(), separator);
        lemma_joined_longer(inner, database_file_name(), separator);
        assert(platform_database_text(directory, separator).len() > database_file_name().len());
    }
}

} // verus!
