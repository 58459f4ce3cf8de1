//! Configuration resolved before a scan starts.

use vstd::prelude::*;

verus! {

/// The user configuration that names the installation root.  How the value
/// is obtained (a config file, an override flag) is the caller's business;
/// the scan only needs the resolved path.
pub struct ScoopConfig {
    pub root_path: String,
}

impl ScoopConfig {
    /// The scan root: the directory holding the bucket subdirectories,
    /// derived from the installation root.
    pub fn buckets_path(&self) -> (r: String)
        ensures
            r@ == self.root_path@ + "/buckets"@,
    {
        let mut r = self.root_path.clone();
        r.append("/buckets");
        r
    }
}

} // verus!
