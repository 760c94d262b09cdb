//! The host's configuration record.

use vstd::prelude::*;
use vstd::string::*;
use crate::path::{join_path, joined_path};

verus! {

/// Which add-on the host runs and where it looks for plugins.
#[derive(Debug, Clone)]
pub struct MasterConfig {
    pub addon_name: String,
    pub plugin_directory: String,
}

/// The add-on that a configuration names unless told otherwise.
pub open spec fn default_addon_name() -> Seq<char> {
    "main_logic.dll"@
}

/// The directory, below the host's install directory, that holds plugins
/// unless told otherwise.
pub open spec fn default_plugin_subdirectory() -> Seq<char> {
    "multiline_paster_plugins"@
}

impl MasterConfig {
    /// The configuration with the default add-on and the given plugin
    /// directory.
    pub fn with_plugin_directory(plugin_directory: String) -> (c: Self)
        ensures
            c.addon_name@ == default_addon_name(),
            c.plugin_directory == plugin_directory,
    {
        MasterConfig { addon_name: String::from_str("main_logic.dll"), plugin_directory }
    }

    /// The default configuration of a host installed in `install_dir`: the
    /// default add-on, and the default plugin subdirectory joined onto
    /// `install_dir`.
    pub fn with_install_dir(install_dir: &str) -> (c: Self)
        ensures
            c.addon_name@ == default_addon_name(),
            c.plugin_directory@ == joined_path(install_dir@, default_plugin_subdirectory()),
    {
        Self::with_plugin_directory(join_path(install_dir, "multiline_paster_plugins"))
    }
}

} // verus!
