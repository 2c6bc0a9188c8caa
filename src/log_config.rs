use vstd::prelude::*;

verus! {

/// Settings of the logging bootstrap.
///
/// `level` is accepted but does not take part in filtering: only `targets`
/// restricts what is emitted.
pub struct Config {
    pub console: bool,
    pub file: bool,
    pub file_dir: String,
    pub targets: Vec<String>,
    pub level: String,
}

impl Config {
    /// Holds of the default settings: console on, file off, files under
    /// `logs`, no target restriction, level `info`.
    pub open spec fn is_default(&self) -> bool {
        &&& self.console
        &&& !self.file
        &&& self.file_dir@ == "logs"@
        &&& self.targets@.len() == 0
        &&& self.level@ == "info"@
    }

    /// Whether at least one output sink (console or file) is switched on.
    pub open spec fn has_sink(&self) -> bool {
        self.console || self.file
    }
}

impl Default for Config {
    fn default() -> (r: Self)
        ensures
            r.is_default(),
    {
        Config {
            console: true,
            file: false,
            file_dir: "logs".to_string(),
            targets: Vec::new(),
            level: "info".to_string(),
        }
    }
}

} // verus!
