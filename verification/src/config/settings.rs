//! User settings, with the defaults an empty or partial settings document falls back to.
use vstd::prelude::*;

use crate::config::paths::{joined, AppPaths};
use crate::error::opt_text;

verus! {

pub const SETTINGS_SCHEMA_VERSION: u32 = 1;

pub const DEFAULT_LLAMA_REPOSITORY: &'static str = "https://github.com/ggml-org/llama.cpp";

#[derive(Debug, Clone, PartialEq, Eq)]
pub struct UpdateSettings {
    pub auto_check: bool,
    pub auto_download: bool,
    pub auto_install: bool,
}

impl Default for UpdateSettings {
    fn default() -> (s: Self)
        ensures
            s.auto_check && !s.auto_download && !s.auto_install,
    {
        UpdateSettings { auto_check: true, auto_download: false, auto_install: false }
    }
}

#[derive(Debug, Clone, Copy, PartialEq, Eq, Structural)]
pub enum ThemePreference {
    System,
    Light,
    Dark,
}

impl Default for ThemePreference {
    fn default() -> (t: Self)
        ensures
            t == ThemePreference::System,
    {
        ThemePreference::System
    }
}

#[derive(Debug, Clone, PartialEq, Eq)]
pub struct AppearanceSettings {
    pub theme: ThemePreference,
    pub compact_density: bool,
}

impl Default for AppearanceSettings {
    fn default() -> (s: Self)
        ensures
            s.theme == ThemePreference::System && !s.compact_density,
    {
        AppearanceSettings { theme: ThemePreference::System, compact_density: false }
    }
}

#[derive(Debug, Clone, PartialEq, Eq)]
pub struct WorkspaceSettings {
    /// Where new llama.cpp clones are placed; `None` means the built-in default.
    pub sources_directory: Option<String>,
    /// Where CMake build trees are placed; `None` means the built-in default.
    pub builds_directory: Option<String>,
    pub model_directories: Vec<String>,
}

impl Default for WorkspaceSettings {
    fn default() -> (s: Self)
        ensures
            s.sources_directory is None,
            s.builds_directory is None,
            s.model_directories@.len() == 0,
    {
        WorkspaceSettings { sources_directory: None, builds_directory: None, model_directories: Vec::new() }
    }
}

#[derive(Debug, Clone, PartialEq, Eq)]
pub struct GitSettings {
    pub default_repository: String,
    /// Explicit path to `git`; `None` resolves it from PATH.
    pub executable: Option<String>,
}

impl Default for GitSettings {
    fn default() -> (s: Self)
        ensures
            s.default_repository@ == DEFAULT_LLAMA_REPOSITORY@,
            s.executable is None,
    {
        GitSettings { default_repository: DEFAULT_LLAMA_REPOSITORY.to_string(), executable: None }
    }
}

#[derive(Debug, Clone, PartialEq, Eq)]
pub struct BuildSettings {
    /// Explicit path to `cmake`; `None` resolves it from PATH.
    pub cmake_executable: Option<String>,
    /// `None` lets CMake decide the job count.
    pub parallel_jobs: Option<u32>,
}

impl Default for BuildSettings {
    fn default() -> (s: Self)
        ensures
            s.cmake_executable is None,
            s.parallel_jobs is None,
    {
        BuildSettings { cmake_executable: None, parallel_jobs: None }
    }
}

#[derive(Debug, Clone, PartialEq, Eq)]
pub struct ServerSettings {
    pub default_host: String,
    pub default_port: u16,
    pub auto_select_port: bool,
}

impl Default for ServerSettings {
    fn default() -> (s: Self)
        ensures
            s.default_host@ == "127.0.0.1"@,
            s.default_port == 8080,
            s.auto_select_port,
    {
        ServerSettings { default_host: "127.0.0.1".to_string(), default_port: 8080, auto_select_port: true }
    }
}

#[derive(Debug, Clone, PartialEq, Eq)]
pub struct Settings {
    pub updates: UpdateSettings,
    pub schema_version: u32,
    pub appearance: AppearanceSettings,
    pub workspace: WorkspaceSettings,
    pub git: GitSettings,
    pub build: BuildSettings,
    pub server: ServerSettings,
}

/// Every section at its default.
pub open spec fn is_default_settings(s: Settings) -> bool {
    &&& s.schema_version == SETTINGS_SCHEMA_VERSION
    &&& s.updates.auto_check && !s.updates.auto_download && !s.updates.auto_install
    &&& s.appearance.theme == ThemePreference::System && !s.appearance.compact_density
    &&& s.workspace.sources_directory is None && s.workspace.builds_directory is None
    &&& s.workspace.model_directories@.len() == 0
    &&& s.git.default_repository@ == DEFAULT_LLAMA_REPOSITORY@ && s.git.executable is None
    &&& s.build.cmake_executable is None && s.build.parallel_jobs is None
    &&& s.server.default_host@ == "127.0.0.1"@ && s.server.default_port == 8080
    &&& s.server.auto_select_port
}

impl Default for Settings {
    fn default() -> (s: Self)
        ensures
            is_default_settings(s),
    {
        Settings {
            schema_version: SETTINGS_SCHEMA_VERSION,
            updates: UpdateSettings::default(),
            appearance: AppearanceSettings::default(),
            workspace: WorkspaceSettings::default(),
            git: GitSettings::default(),
            build: BuildSettings::default(),
            server: ServerSettings::default(),
        }
    }
}

impl Settings {
    /// Where new clones go: the configured folder, else the default workspace's `sources`.
    pub fn sources_directory(&self, paths: &AppPaths) -> (r: String)
        ensures
            match opt_text(self.workspace.sources_directory) {
                Some(d) => r@ == d,
                None => joined(paths.default_workspace_dir@, "sources"@, r@),
            },
    {
        match &self.workspace.sources_directory {
            Some(d) => d.clone(),
            None => paths.default_sources_workspace(),
        }
    }

    /// Where build trees go: the configured folder, else the default workspace's `builds`.
    pub fn builds_directory(&self, paths: &AppPaths) -> (r: String)
        ensures
            match opt_text(self.workspace.builds_directory) {
                Some(d) => r@ == d,
                None => joined(paths.default_workspace_dir@, "builds"@, r@),
            },
    {
        match &self.workspace.builds_directory {
            Some(d) => d.clone(),
            None => paths.default_builds_workspace(),
        }
    }
}

} // verus!
