//! Settings of the application.

use vstd::prelude::*;

verus! {

/// The settings that the front end reads.
#[derive(Debug)]
pub struct MuxSettings {
    pub project_root: String,
    /// Maximum width, in pixels, of the zone containers of the overlay.
    pub zone_max_width: u32,
    /// Maximum number of rows in the search dropdown.
    pub search_max_rows: u32,
}

/// The width of a zone container where none is set.
pub fn default_zone_max_width() -> (width: u32)
    ensures
        width == 160,
{
    160
}

/// The number of search rows where none is set.
pub fn default_search_max_rows() -> (rows: u32)
    ensures
        rows == 10,
{
    10
}

impl Default for MuxSettings {
    fn default() -> (settings: Self)
        ensures
            settings.project_root@ == Seq::<char>::empty(),
            settings.zone_max_width == 160,
            settings.search_max_rows == 10,
    {
        MuxSettings {
            project_root: String::new(),
            zone_max_width: default_zone_max_width(),
            search_max_rows: default_search_max_rows(),
        }
    }
}

impl Clone for MuxSettings {
    fn clone(&self) -> (copy: Self)
        ensures
            copy.project_root@ == self.project_root@,
            copy.zone_max_width == self.zone_max_width,
            copy.search_max_rows == self.search_max_rows,
    {
        MuxSettings {
            project_root: self.project_root.clone(),
            zone_max_width: self.zone_max_width,
            search_max_rows: self.search_max_rows,
        }
    }
}

} // verus!
