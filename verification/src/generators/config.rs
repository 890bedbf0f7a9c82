//! The versioned YAML configuration (`config.yaml`) of a prepared game, as
//! values; serialising it is left to the caller.
use std::collections::BTreeMap;

use vstd::prelude::*;

use crate::domain::game::opt_text;
use crate::domain::{GameMetadata, GameTarget, LaunchOptions, Runner};
use crate::error::KalesaError;
use crate::text::{owned, texts};

verus! {

pub const CONFIG_SCHEMA_VERSION: u32 = 3;

#[derive(Debug, Clone, PartialEq, Eq)]
pub struct WineConfig {
    pub prefix: String,
    pub arch: String,
}

#[derive(Debug, Clone, PartialEq, Eq)]
pub struct ProtonConfig {
    pub path: String,
}

#[derive(Debug, Clone, PartialEq, Eq)]
pub struct RunnerConfig {
    /// Serialised under the key `type`.
    pub runner_type: String,
    pub wine: Option<WineConfig>,
    pub proton: Option<ProtonConfig>,
}

#[derive(Debug, Clone, PartialEq, Eq)]
pub struct ExecutableConfig {
    pub path: String,
}

#[derive(Debug, Clone, PartialEq, Eq)]
pub struct LaunchConfig {
    pub args: Vec<String>,
    pub env: BTreeMap<String, String>,
    pub wrappers: Vec<String>,
}

#[derive(Debug, Clone, PartialEq, Eq)]
pub struct AppConfig {
    pub schema_version: u32,
    pub name: String,
    pub version: Option<String>,
    pub developer: Option<String>,
    pub description: Option<String>,
    pub categories: Vec<String>,
    pub runner: RunnerConfig,
    pub executable: ExecutableConfig,
    pub launch: LaunchConfig,
}

/// A copy of a list of strings.
pub fn clone_strings(v: &Vec<String>) -> (r: Vec<String>)
    ensures
        r@ == v@,
{
    let mut r: Vec<String> = Vec::new();
    let mut i: usize = 0;
    while i < v.len()
        invariant
            i <= v.len(),
            r@ == v@.take(i as int),
        decreases v.len() - i,
    {
        r.push(v[i].clone());
        i += 1;
        assert(r@ =~= v@.take(i as int));
    }
    assert(v@.take(v.len() as int) =~= v@);
    r
}

pub fn clone_opt(o: &Option<String>) -> (r: Option<String>)
    ensures
        r == *o,
{
    match o {
        Some(s) => Some(s.clone()),
        None => None,
    }
}

/// `c` records the game, its runner and its launch options: schema version 3,
/// a `wine` section (architecture `win64`) exactly when the runner has a
/// prefix, a `proton` section exactly when it has a Proton executable.
pub open spec fn config_of(
    c: AppConfig,
    target: GameTarget,
    metadata: GameMetadata,
    runner: Runner,
    launch: LaunchOptions,
) -> bool {
    &&& c.schema_version == CONFIG_SCHEMA_VERSION
    &&& c.name@ == metadata.name@
    &&& opt_text(c.version) == opt_text(metadata.version)
    &&& opt_text(c.developer) == opt_text(metadata.developer)
    &&& opt_text(c.description) == opt_text(metadata.description)
    &&& texts(c.categories@) == texts(metadata.categories@)
    &&& c.runner.runner_type@ == runner.kind.spec_name()
    &&& match runner.wine_prefix {
        Some(p) => c.runner.wine matches Some(w) && w.prefix@ == p@ && w.arch@ == "win64"@,
        None => c.runner.wine is None,
    }
    &&& match runner.proton_path {
        Some(p) => c.runner.proton matches Some(x) && x.path@ == p@,
        None => c.runner.proton is None,
    }
    &&& c.executable.path@ == target.path@
    &&& texts(c.launch.args@) == texts(launch.args@)
    &&& c.launch.env@ == launch.env@
    &&& texts(c.launch.wrappers@) == texts(launch.wrappers@)
}

/// The configuration of a prepared game; launch options with an invalid
/// environment variable name are rejected.
pub fn build(
    target: &GameTarget,
    metadata: &GameMetadata,
    runner: &Runner,
    launch: &LaunchOptions,
) -> (r: Result<AppConfig, KalesaError>)
    ensures
        r is Ok <==> launch.env_valid(),
        r matches Err(e) ==> e matches KalesaError::InvalidEnvironmentName(_),
        r matches Ok(c) ==> config_of(c, *target, *metadata, *runner, *launch),
{
    match launch.validate() {
        Err(e) => return Err(e),
        Ok(()) => {},
    }
    let wine = match &runner.wine_prefix {
        Some(prefix) => Some(WineConfig { prefix: prefix.clone(), arch: owned("win64") }),
        None => None,
    };
    let proton = match &runner.proton_path {
        Some(path) => Some(ProtonConfig { path: path.clone() }),
        None => None,
    };
    Ok(
        AppConfig {
            schema_version: CONFIG_SCHEMA_VERSION,
            name: metadata.name.clone(),
            version: clone_opt(&metadata.version),
            developer: clone_opt(&metadata.developer),
            description: clone_opt(&metadata.description),
            categories: clone_strings(&metadata.categories),
            runner: RunnerConfig { runner_type: owned(runner.kind.as_str()), wine, proton },
            executable: ExecutableConfig { path: target.path.clone() },
            launch: LaunchConfig {
                args: clone_strings(&launch.args),
                env: launch.env.clone(),
                wrappers: clone_strings(&launch.wrappers),
            },
        },
    )
}

/// An annotated example of the configuration, written beside it.
pub const CONFIG_EXAMPLE: &'static str = r#"# Kalesa configuration schema v3.
# This file is an editable example only. Copy its structure to config.yaml.
#
# Paths may be absolute or relative to the game directory. Relative paths make
# a generated setup easier to move between directories or machines.

# Schema version understood by Kalesa launcher v3.
schema_version: 3

# Desktop metadata displayed by launchers and menus.
name: MyGame
version: null
developer: null
description: null
categories: []

# Runtime backend.
# Allowed values: native, wine, proton.
runner:
  type: wine

  # Used by Wine and Proton. Prefer a relative path such as
  # .workdir/wine when the prefix should live beside the game.
  wine:
    prefix: /home/user/Games/pfx/MyGame
    arch: win64

  # Required only when runner.type is proton.
  proton: null
  # Example:
  # proton:
  #   path: /home/user/.steam/steam/compatibilitytools.d/Proton/Proton

# Executable to run.
# Prefer a path relative to the game directory for portability.
executable:
  path: MyGame.exe

launch:
  # Arguments are passed as separate argv entries, in this exact order.
  args: []
  # Example:
  # args:
  #   - -fullscreen
  #   - --language=fr

  # Environment variables exported before the runner starts.
  env: {}
  # Example:
  # env:
  #   WINEDEBUG: -all
  #   DXVK_LOG_LEVEL: none

  # Optional wrappers executed from left to right before the runner.
  wrappers: []
  # Example:
  # wrappers:
  #   - gamemoderun
  #   - mangohud
"#;

} // verus!
