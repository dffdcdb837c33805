//! Persistent settings: the base download directory.
//!
//! Storage itself is an external collaborator; this module holds the
//! schema's definition and the mapping from a stored row, or its absence, to
//! a `Setting` value. The caller performs the actual queries.

use vstd::prelude::*;

verus! {

/// The application's persisted settings: where downloaded products land.
#[derive(Clone, Debug)]
pub struct Setting {
    pub download_root_dir: Option<String>,
}

impl Setting {
    /// The schema of the settings table.
    pub fn get_ddl() -> (r: &'static str)
        ensures
            r@ == "\nCREATE TABLE IF NOT EXISTS settings (\n    download_root_dir TEXT\n);"@,
    {
        "\nCREATE TABLE IF NOT EXISTS settings (\n    download_root_dir TEXT\n);"
    }

    /// The settings a stored row denotes: the row's own value when one row
    /// exists, and the default (no download directory chosen) when the table
    /// is empty.
    pub fn get(row: Option<Option<String>>) -> (r: Setting)
        ensures
            row matches Some(v) ==> r.download_root_dir == v,
            row is None ==> r.download_root_dir is None,
    {
        match row {
            Some(v) => Setting { download_root_dir: v },
            None => Setting::default(),
        }
    }
}

impl Default for Setting {
    /// The default settings: no download directory chosen yet.
    fn default() -> (r: Setting)
        ensures
            r.download_root_dir is None,
    {
        Setting { download_root_dir: None }
    }
}

} // verus!
