//! Build configuration: the directory conventions and the preview port, as an
//! explicit value rather than scattered literals.

use vstd::prelude::*;
use vstd::string::StringExecFns;

verus! {

/// Where the build reads, where it writes, and where the preview listens.
pub struct BuildConfig {
    pub content_dir: String,
    pub output_dir: String,
    pub port: u16,
}

impl Default for BuildConfig {
    /// The conventional configuration: read `content/`, write `public/`,
    /// preview on port 8464.
    fn default() -> (c: Self)
        ensures
            c.content_dir@ == "content"@,
            c.output_dir@ == "public"@,
            c.port == 8464,
    {
        BuildConfig {
            content_dir: String::from_str("content"),
            output_dir: String::from_str("public"),
            port: 8464,
        }
    }
}

} // verus!
