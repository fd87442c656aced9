use vstd::prelude::*;

verus! {

/// Where static files are served from.
pub struct StaticFileConfiguration {
    pub static_files_directory: String,
}

impl Default for StaticFileConfiguration {
    /// The `wwwroot` directory.
    fn default() -> (r: Self)
        ensures
            r.static_files_directory@ == "wwwroot"@,
    {
        StaticFileConfiguration { static_files_directory: String::from_str("wwwroot") }
    }
}

impl Clone for StaticFileConfiguration {
    fn clone(&self) -> (r: Self)
        ensures
            r.static_files_directory@ == self.static_files_directory@,
    {
        StaticFileConfiguration { static_files_directory: self.static_files_directory.clone() }
    }
}

} // verus!
