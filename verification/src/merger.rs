use vstd::prelude::*;

verus! {

/// Points at a directory of decrypted message databases to merge and export.
/// The merge itself drives a database engine and runs outside this crate.
#[derive(Debug)]
pub struct WxMerger {
    /// The directory holding the databases.
    pub dir: String,
}

impl WxMerger {
    /// A merger over the databases in `path`.
    pub fn new(path: String) -> (r: WxMerger)
        ensures
            r.dir@ == path@,
    {
        WxMerger { dir: path }
    }
}

} // verus!
