use std::path::PathBuf;

use vstd::prelude::*;

verus! {

/// Declares `std::path::PathBuf` to Verus as an opaque type, so that a path
/// can be carried in `Config`; nothing about its contents is used.
#[verifier::external_type_specification]
#[verifier::external_body]
pub struct ExPathBuf(PathBuf);

/// The settings file as read: every section and key may be missing.
pub struct ConfigFile {
    pub theme: Option<ThemeSection>,
    pub monitor: Option<MonitorSection>,
}

/// `[theme]`: a built-in theme's name and per-slot colour overrides.
pub struct ThemeSection {
    pub name: Option<String>,
    pub colors: Option<ThemeColors>,
}

/// `[theme.colors]`: `#rrggbb` texts that replace single colour slots.
#[derive(Clone)]
pub struct ThemeColors {
    pub bg: Option<String>,
    pub panel: Option<String>,
    pub accent: Option<String>,
    pub title: Option<String>,
    pub text: Option<String>,
    pub dim: Option<String>,
    pub ok: Option<String>,
    pub warn: Option<String>,
    pub danger: Option<String>,
}

/// `[monitor]`: refresh period, initial sort and table length.
pub struct MonitorSection {
    pub refresh_ms: Option<u64>,
    pub sort: Option<String>,
    pub max_processes: Option<usize>,
}

/// The loaded settings and the file they came from, if any.
pub struct Config {
    pub file: Option<ConfigFile>,
    pub path: Option<PathBuf>,
}

impl Default for ConfigFile {
    fn default() -> (r: Self)
        ensures
            r.theme is None,
            r.monitor is None,
    {
        ConfigFile { theme: None, monitor: None }
    }
}

impl Default for ThemeSection {
    fn default() -> (r: Self)
        ensures
            r.name is None,
            r.colors is None,
    {
        ThemeSection { name: None, colors: None }
    }
}

impl Default for ThemeColors {
    fn default() -> (r: Self)
        ensures
            r.bg is None,
            r.panel is None,
            r.accent is None,
            r.title is None,
            r.text is None,
            r.dim is None,
            r.ok is None,
            r.warn is None,
            r.danger is None,
    {
        ThemeColors {
            bg: None,
            panel: None,
            accent: None,
            title: None,
            text: None,
            dim: None,
            ok: None,
            warn: None,
            danger: None,
        }
    }
}

impl Default for MonitorSection {
    fn default() -> (r: Self)
        ensures
            r.refresh_ms is None,
            r.sort is None,
            r.max_processes is None,
    {
        MonitorSection { refresh_ms: None, sort: None, max_processes: None }
    }
}

impl Default for Config {
    fn default() -> (r: Self)
        ensures
            r.file is None,
            r.path is None,
    {
        Config { file: None, path: None }
    }
}

} // verus!
