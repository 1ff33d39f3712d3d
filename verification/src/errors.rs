//! The errors of the version manager and of the plugin tools.

use vstd::prelude::*;
use crate::text::{chars_of, string_of};

verus! {

/// What can go wrong in the version manager and the plugin tools.
#[derive(Debug, Clone, PartialEq)]
pub enum CleenError {
    VersionNotFound { version: String },
    VersionAlreadyInstalled { version: String },
    NoActiveVersion,
    InvalidVersion { version: String },
    ConfigError { message: String },
    GitHubError { message: String },
    ShellError { message: String },
    EnvironmentError { message: String },
    HomeDirectoryNotFound,
    FrameIncompatible { frame_version: String, required_compiler: String, current_compiler: String },
    NoCompilerForFrame,
    PluginNotFound { name: String },
    PluginAlreadyInstalled { name: String },
    PluginManifestError { message: String },
    PluginIncompatible { name: String, required: String, current: String },
    PluginRegistryError { message: String },
    NoCompilerForPlugin,
}

impl CleenError {
    /// An error in the configuration, with its message.
    pub fn config_error(message: &str) -> (e: Self)
        ensures
            e matches CleenError::ConfigError { message: m } && m@ == message@,
    {
        CleenError::ConfigError { message: string_of(&chars_of(message)) }
    }

    /// An error of the release service, with its message.
    pub fn github_error(message: &str) -> (e: Self)
        ensures
            e matches CleenError::GitHubError { message: m } && m@ == message@,
    {
        CleenError::GitHubError { message: string_of(&chars_of(message)) }
    }

    /// An error in the configuration of the shell, with its message.
    pub fn shell_error(message: &str) -> (e: Self)
        ensures
            e matches CleenError::ShellError { message: m } && m@ == message@,
    {
        CleenError::ShellError { message: string_of(&chars_of(message)) }
    }

    /// An error in the setup of the environment, with its message.
    pub fn environment_error(message: &str) -> (e: Self)
        ensures
            e matches CleenError::EnvironmentError { message: m } && m@ == message@,
    {
        CleenError::EnvironmentError { message: string_of(&chars_of(message)) }
    }
}

} // verus!
