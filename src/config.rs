use vstd::prelude::*;

verus! {

/// Settings of the application as a whole, not of one folder.
#[derive(Clone, Debug, PartialEq, Eq)]
pub struct GlobalConfig {
    /// The folder that was open when the application last ran.
    pub last_opened_folder: Option<String>,
}

impl Default for GlobalConfig {
    /// No folder remembered.
    fn default() -> (r: GlobalConfig)
        ensures
            r.last_opened_folder is None,
    {
        GlobalConfig { last_opened_folder: None }
    }
}

} // verus!
