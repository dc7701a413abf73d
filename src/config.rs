//! The editor's settings: what the command line names and what the settings
//! file holds, merged into one resolved `Config`.

use vstd::prelude::*;

verus! {

/// Tab width when the settings file gives none.
pub const DEFAULT_TAB_SIZE: usize = 4;

/// What the command line names.
#[derive(Debug, Clone)]
pub struct CmdConfig {
    /// The edited file.
    pub file: Option<String>,
    /// The settings file.
    pub config: String,
    /// Whether to write a settings file with default values and stop.
    pub generate_config: bool,
}

/// What the settings file holds.
#[derive(Debug, Clone, Copy, PartialEq, Eq)]
pub struct FileConfig {
    pub tab_size: usize,
}

impl Default for FileConfig {
    fn default() -> (r: FileConfig)
        ensures
            r.tab_size == DEFAULT_TAB_SIZE,
    {
        FileConfig { tab_size: DEFAULT_TAB_SIZE }
    }
}

/// The resolved settings.
#[derive(Debug, Clone)]
pub struct Config {
    pub file: Option<String>,
    pub config_path: String,
    pub tab_size: usize,
}

impl Config {
    /// Takes the file names from the command line and the tab width from the
    /// settings file.
    pub fn merge(cmd: CmdConfig, f: FileConfig) -> (r: Config)
        ensures
            r.file == cmd.file,
            r.config_path == cmd.config,
            r.tab_size == f.tab_size,
    {
        Config { file: cmd.file, config_path: cmd.config, tab_size: f.tab_size }
    }
}

} // verus!
