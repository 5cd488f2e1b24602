//! Where the configuration and the build files live.
use crate::text::{join_path, path_join};
use vstd::prelude::*;

verus! {

/// The name of the application's directory inside the user's data directory.
pub const APP_DIR_NAME: &'static str = "proxy-manager";

/// The name of the configuration file.
pub const CONFIG_FILE_NAME: &'static str = "proxy-config.json";

/// The name of the directory that holds the proxy's build files.
pub const BUILD_DIR_NAME: &'static str = "build";

/// Why a path could not be found.
#[derive(Debug, Clone, Copy, PartialEq, Eq, Structural)]
pub enum PathError {
    /// The platform gave no user directories.
    NoUserDirectories,
}

/// The application's directory inside the data directory `data`.
pub open spec fn config_dir_under(data: Seq<char>) -> Seq<char> {
    path_join(data, APP_DIR_NAME@)
}

/// The configuration file inside the data directory `data`.
pub open spec fn config_file_under(data: Seq<char>) -> Seq<char> {
    path_join(config_dir_under(data), CONFIG_FILE_NAME@)
}

/// The build directory inside the data directory `data`.
pub open spec fn build_dir_under(data: Seq<char>) -> Seq<char> {
    path_join(config_dir_under(data), BUILD_DIR_NAME@)
}

#[verifier::external_type_specification]
#[verifier::external_body]
pub struct ExBaseDirs(directories::BaseDirs);

/// Calls `directories::BaseDirs::new`. Nothing is stated of the result: it
/// depends on the environment and the platform.
#[verifier::external_body]
fn base_dirs_new() -> Option<directories::BaseDirs> {
    directories::BaseDirs::new()
}

/// Calls `directories::BaseDirs::data_dir` and gives the path as text (a
/// path that is not Unicode is converted lossily). Nothing is stated of it.
#[verifier::external_body]
fn base_dirs_data_dir(dirs: &directories::BaseDirs) -> String {
    dirs.data_dir().to_string_lossy().into_owned()
}

/// The application's directory inside the data directory `data_dir`.
pub fn config_dir_in(data_dir: &str) -> (r: String)
    ensures
        r@ == config_dir_under(data_dir@),
{
    join_path(data_dir, APP_DIR_NAME)
}

/// The configuration file inside the data directory `data_dir`.
pub fn config_file_in(data_dir: &str) -> (r: String)
    ensures
        r@ == config_file_under(data_dir@),
{
    let dir = config_dir_in(data_dir);
    join_path(dir.as_str(), CONFIG_FILE_NAME)
}

/// The build directory inside the data directory `data_dir`.
pub fn build_dir_in(data_dir: &str) -> (r: String)
    ensures
        r@ == build_dir_under(data_dir@),
{
    let dir = config_dir_in(data_dir);
    join_path(dir.as_str(), BUILD_DIR_NAME)
}

/// The user's data directory, as the platform gives it.
fn user_data_dir() -> (r: Result<String, PathError>)
    ensures
        r matches Err(e) ==> e == PathError::NoUserDirectories,
{
    match base_dirs_new() {
        Some(dirs) => Ok(base_dirs_data_dir(&dirs)),
        None => Err(PathError::NoUserDirectories),
    }
}

/// The application's directory inside the user's data directory.
pub fn default_config_dir() -> (r: Result<String, PathError>)
    ensures
        match r {
            Ok(p) => exists|d: Seq<char>| p@ == #[trigger] config_dir_under(d),
            Err(e) => e == PathError::NoUserDirectories,
        },
{
    let data = user_data_dir()?;
    Ok(config_dir_in(data.as_str()))
}

/// The configuration file inside the user's data directory.
pub fn default_config_file() -> (r: Result<String, PathError>)
    ensures
        match r {
            Ok(p) => exists|d: Seq<char>| p@ == #[trigger] config_file_under(d),
            Err(e) => e == PathError::NoUserDirectories,
        },
{
    let data = user_data_dir()?;
    Ok(config_file_in(data.as_str()))
}

/// The build directory inside the user's data directory.
pub fn default_build_dir() -> (r: Result<String, PathError>)
    ensures
        match r {
            Ok(p) => exists|d: Seq<char>| p@ == #[trigger] build_dir_under(d),
            Err(e) => e == PathError::NoUserDirectories,
        },
{
    let data = user_data_dir()?;
    Ok(build_dir_in(data.as_str()))
}

/// The configuration file and the build directory lie directly inside the
/// application's directory, which ends with the application's name.
pub proof fn lemma_paths_consistent(data: Seq<char>)
    ensures
        config_file_under(data) == config_dir_under(data).push('/') + CONFIG_FILE_NAME@,
        build_dir_under(data) == config_dir_under(data).push('/') + BUILD_DIR_NAME@,
        config_dir_under(data).len() >= APP_DIR_NAME@.len(),
        config_dir_under(data).subrange(
            config_dir_under(data).len() - APP_DIR_NAME@.len(),
            config_dir_under(data).len() as int,
        ) == APP_DIR_NAME@,
{
    reveal_strlit("proxy-manager");
    let dir = config_dir_under(data);
    assert(dir.len() > 0);
    assert(dir.last() == 'r');
    assert(dir.subrange(dir.len() - APP_DIR_NAME@.len(), dir.len() as int) =~= APP_DIR_NAME@);
}

} // verus!
