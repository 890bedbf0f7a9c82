//! The first-generation configuration (`config.yaml`): the game's name, its
//! runner type with a Wine section for Windows games, and its executable, as
//! values; serialising them is left to the caller.
use vstd::prelude::*;

use crate::domain::BinaryType;
use crate::paths::{join, join_path};
use crate::text::owned;

verus! {

#[derive(Debug, Clone, PartialEq, Eq)]
pub struct WineConfig {
    pub prefix: String,
    pub arch: String,
}

#[derive(Debug, Clone, PartialEq, Eq)]
pub struct RunnerConfig {
    /// Serialised under the key `type`.
    pub runner_type: String,
    pub wine: Option<WineConfig>,
}

#[derive(Debug, Clone, PartialEq, Eq)]
pub struct ExecutableConfig {
    pub path: String,
}

#[derive(Debug, Clone, PartialEq, Eq)]
pub struct AppConfig {
    pub name: String,
    pub runner: RunnerConfig,
    pub executable: ExecutableConfig,
}

/// `c` is the configuration of the game `game_name` whose executable is
/// `executable_path`: the runner type is the binary type's name, and a
/// Windows game gets the 64-bit Wine prefix `.workdir/wine` of `current_dir`.
pub open spec fn config_for(
    c: AppConfig,
    game_name: Seq<char>,
    executable_path: Seq<char>,
    binary_type: BinaryType,
    current_dir: Seq<char>,
) -> bool {
    &&& c.name@ == game_name
    &&& c.runner.runner_type@ == binary_type.spec_name()
    &&& c.executable.path@ == executable_path
    &&& if binary_type == BinaryType::WindowsPe {
        c.runner.wine matches Some(w) && w.prefix@ == join(current_dir, ".workdir/wine"@) && w.arch@
            == "win64"@
    } else {
        c.runner.wine is None
    }
}

/// The configuration to write for the game `game_name`.
pub fn write_config(
    game_name: &str,
    executable_path: &str,
    binary_type: BinaryType,
    current_dir: &str,
) -> (c: AppConfig)
    ensures
        config_for(c, game_name@, executable_path@, binary_type, current_dir@),
{
    let wine = if binary_type.is_windows() {
        Some(WineConfig { prefix: join_path(current_dir, ".workdir/wine"), arch: owned("win64") })
    } else {
        None
    };
    AppConfig {
        name: owned(game_name),
        runner: RunnerConfig { runner_type: owned(binary_type.as_str()), wine },
        executable: ExecutableConfig { path: owned(executable_path) },
    }
}

} // verus!
