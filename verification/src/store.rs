//! The locations of the configuration file and the build directory.
use crate::paths::{
    PathError, config_dir_under, config_file_under, build_dir_under, default_config_dir,
    default_config_file, default_build_dir, BUILD_DIR_NAME, CONFIG_FILE_NAME,
};
use crate::text::{join_path, path_join};
use vstd::prelude::*;

verus! {

/// Where the configuration is stored.
#[derive(Debug, Clone, PartialEq, Eq)]
pub struct Store {
    pub config_dir: String,
    pub config_file: String,
    pub build_dir: String,
}

impl Store {
    /// The locations inside the user's data directory.
    pub fn new_default() -> (r: Result<Store, PathError>)
        ensures
            match r {
                Ok(s) => (exists|d: Seq<char>| s.config_dir@ == #[trigger] config_dir_under(d))
                    && (exists|d: Seq<char>| s.config_file@ == #[trigger] config_file_under(d))
                    && (exists|d: Seq<char>| s.build_dir@ == #[trigger] build_dir_under(d)),
                Err(e) => e == PathError::NoUserDirectories,
            },
    {
        let config_dir = default_config_dir()?;
        let config_file = default_config_file()?;
        let build_dir = default_build_dir()?;
        Ok(Store { config_dir, config_file, build_dir })
    }

    /// The locations inside the directory `dir`.
    pub fn new_with_config_dir(dir: &str) -> (r: Store)
        ensures
            r.config_dir@ == dir@,
            r.config_file@ == path_join(dir@, CONFIG_FILE_NAME@),
            r.build_dir@ == path_join(dir@, BUILD_DIR_NAME@),
    {
        Store {
            config_dir: dir.to_owned(),
            config_file: join_path(dir, CONFIG_FILE_NAME),
            build_dir: join_path(dir, BUILD_DIR_NAME),
        }
    }
}

} // verus!
