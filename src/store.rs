//! Where the score store lives.
use crate::options::{conflicts, ParsedOptions, STORE, STORE_NAME};
use directories::ProjectDirs;
use std::path::PathBuf;
use vstd::prelude::*;

verus! {

#[verifier::external_type_specification]
#[verifier::external_body]
pub struct ExPathBuf(PathBuf);

#[verifier::external_type_specification]
#[verifier::external_body]
pub struct ExProjectDirs(ProjectDirs);

/// Relies on `directories::ProjectDirs::from`: the platform's directories for
/// an application, or `None` where the platform has none (no home directory).
/// What comes back depends on the environment, so nothing is stated of it.
#[verifier::external_body]
fn project_dirs(qualifier: &str, organization: &str, application: &str) -> (r: Option<
    ProjectDirs,
>) {
    ProjectDirs::from(qualifier, organization, application)
}

/// Relies on `directories::ProjectDirs::data_dir`: the application's data
/// directory, copied out.
#[verifier::external_body]
fn data_dir(dirs: &ProjectDirs) -> (r: PathBuf) {
    dirs.data_dir().to_path_buf()
}

/// Relies on `std::path::PathBuf::from` on a `String`: the path with that text.
#[verifier::external_body]
fn path_of_text(s: &String) -> (r: PathBuf) {
    PathBuf::from(s.clone())
}

/// Relies on `std::path::Path::join`: `name` adjoined to `dir`.
#[verifier::external_body]
fn join_path(dir: &PathBuf, name: &String) -> (r: PathBuf) {
    dir.join(name)
}

/// The name of the store file in the default directory when none is given.
pub open spec fn default_file_name() -> Seq<char> {
    "topd.json"@
}

/// Where the store was asked to be.
#[derive(Debug, Clone, PartialEq, Eq)]
pub enum StoreLocation {
    /// A full path to the store file.
    Explicit(String),
    /// A file name inside the default data directory.
    Named(String),
    /// The default file in the default data directory.
    Default,
}

/// Where the store is.
pub enum StorePath {
    /// A path given by the user, kept as given.
    Explicit(String),
    /// `file_name` adjoined to the platform's data directory, as
    /// `Path::join` adjoins it: a name that holds a separator reaches below
    /// the directory, and an absolute name replaces it, so the file then
    /// lies outside it.
    InDataDir { dir: PathBuf, file_name: String },
}

/// Why no store path could be found.
#[derive(Debug, Clone, PartialEq, Eq)]
pub enum StoreError {
    /// The platform has no default data directory for the program.
    NoDataDirectory,
}

/// Reads the store location from parsed options; `--store` and
/// `--store_name` are never given together there.
pub fn store_location(opts: &ParsedOptions) -> (r: StoreLocation)
    ensures
        opts@[STORE as int] matches Some(p) ==> (r matches StoreLocation::Explicit(q) && q@ == p),
        opts@[STORE_NAME as int] matches Some(n) ==> (r matches StoreLocation::Named(q) && q@
            == n),
        opts@[STORE as int] is None && opts@[STORE_NAME as int] is None ==> r
            == StoreLocation::Default,
{
    opts.check_table();
    assert(conflicts(STORE, STORE_NAME));
    assert(!(opts@[STORE as int] is Some && opts@[STORE_NAME as int] is Some));
    match opts.value_of(STORE) {
        Some(p) => StoreLocation::Explicit(p),
        None => match opts.value_of(STORE_NAME) {
            Some(n) => StoreLocation::Named(n),
            None => StoreLocation::Default,
        },
    }
}

/// Resolves a store location against the platform's data directory, if the
/// platform has one. A full path is kept as it is, whatever the platform
/// offers; otherwise the store is a file in that directory, named as asked
/// or after the program.
pub fn resolve(location: StoreLocation, data_dir: Option<PathBuf>) -> (r: Result<
    StorePath,
    StoreError,
>)
    ensures
        match location {
            StoreLocation::Explicit(p) => r matches Ok(StorePath::Explicit(q)) && q == p,
            StoreLocation::Named(n) => match data_dir {
                Some(d) => r matches Ok(StorePath::InDataDir { dir, file_name }) && dir == d
                    && file_name@ == n@,
                None => r == Err::<StorePath, StoreError>(StoreError::NoDataDirectory),
            },
            StoreLocation::Default => match data_dir {
                Some(d) => r matches Ok(StorePath::InDataDir { dir, file_name }) && dir == d
                    && file_name@ == default_file_name(),
                None => r == Err::<StorePath, StoreError>(StoreError::NoDataDirectory),
            },
        },
{
    match location {
        StoreLocation::Explicit(p) => Ok(StorePath::Explicit(p)),
        StoreLocation::Named(n) => match data_dir {
            Some(d) => Ok(StorePath::InDataDir { dir: d, file_name: n }),
            None => Err(StoreError::NoDataDirectory),
        },
        StoreLocation::Default => match data_dir {
            Some(d) => Ok(StorePath::InDataDir { dir: d, file_name: "topd.json".to_owned() }),
            None => Err(StoreError::NoDataDirectory),
        },
    }
}

/// The platform's per-user data directory for this program: empty qualifier,
/// empty organization, the program's name as application.
fn default_data_dir() -> (r: Option<PathBuf>) {
    match project_dirs("", "", "topd") {
        Some(dirs) => Some(data_dir(&dirs)),
        None => None,
    }
}

/// The store file in the platform's data directory: `filename` if given,
/// otherwise one named after the program.
pub fn default_store(filename: Option<String>) -> (r: Result<StorePath, StoreError>)
    ensures
        match r {
            Ok(StorePath::InDataDir { dir, file_name }) => match filename {
                Some(n) => file_name@ == n@,
                None => file_name@ == default_file_name(),
            },
            Ok(StorePath::Explicit(_)) => false,
            Err(e) => e == StoreError::NoDataDirectory,
        },
{
    let location = match filename {
        Some(n) => StoreLocation::Named(n),
        None => StoreLocation::Default,
    };
    resolve(location, default_data_dir())
}

/// The store path that parsed options ask for.
pub fn get_store_path(opts: &ParsedOptions) -> (r: Result<StorePath, StoreError>)
    ensures
        opts@[STORE as int] matches Some(p) ==> (r matches Ok(StorePath::Explicit(q)) && q@ == p),
        opts@[STORE as int] is None ==> match r {
            Ok(StorePath::InDataDir { dir, file_name }) => match opts@[STORE_NAME as int] {
                Some(n) => file_name@ == n,
                None => file_name@ == default_file_name(),
            },
            Ok(StorePath::Explicit(_)) => false,
            Err(e) => e == StoreError::NoDataDirectory,
        },
{
    match store_location(opts) {
        StoreLocation::Explicit(p) => Ok(StorePath::Explicit(p)),
        StoreLocation::Named(n) => default_store(Some(n)),
        StoreLocation::Default => default_store(None),
    }
}

impl StorePath {
    /// The path as the file system takes it.
    pub fn to_path_buf(&self) -> PathBuf {
        match self {
            StorePath::Explicit(p) => path_of_text(p),
            StorePath::InDataDir { dir, file_name } => join_path(dir, file_name),
        }
    }
}

} // verus!
