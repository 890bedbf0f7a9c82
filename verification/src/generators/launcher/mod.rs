//! The launch script `launch.sh`: the thin launcher that hands the
//! configuration to the Kalesa runtime, and the self-contained launcher that
//! `render` produces.
pub mod escape;
pub mod layout;
pub mod render;
pub mod template;

pub use render::RenderedLauncher;

use vstd::prelude::*;

use crate::domain::{GameMetadata, GameTarget, LaunchOptions, Runner, RunnerKind};
use crate::error::{is_desktop_error, KalesaError};
use crate::text::{all_ws, chars_of, decimal, is_blank, owned, push_str, u32_decimal};
use escape::{shell_single_quote, single_quoted};

verus! {

pub const LAUNCHER_FORMAT_VERSION: u32 = 4;

pub const CONFIG_SCHEMA_VERSION: u32 = 3;

/// The thin launcher up to its format version.
pub const THIN_HEAD: &'static str = "#!/bin/bash\n# Generated launch script - do not edit by hand, re-run kalesa instead.\n# Kalesa launcher format: ";

/// The thin launcher from its format version to the runtime's path.
pub const THIN_MID: &'static str = "\n# Kalesa config schema: 3\n# The YAML manifest is parsed by the Kalesa Rust runtime; this script is only a stable launcher facade.\nset -euo pipefail\n\nSCRIPT_DIR=\"$(cd \"$(dirname \"${BASH_SOURCE[0]}\")\" && pwd)\"\nBASE_DIR=\"$(dirname \"$SCRIPT_DIR\")\"\nGAME_DIR=\"$(dirname \"$BASE_DIR\")\"\nCONFIG_FILE=\"$GAME_DIR/.workdir/config/config.yaml\"\nKALESA_BIN=";

/// The thin launcher after the runtime's path.
pub const THIN_TAIL: &'static str = "\n\nfail() {\n    echo \"[!] $*\" >&2\n    exit 1\n}\n\n[[ -f \"$CONFIG_FILE\" ]] || fail \"configuration not found: $CONFIG_FILE\"\n\nif [[ -x \"$KALESA_BIN\" ]]; then\n    exec \"$KALESA_BIN\" --launch-config \"$CONFIG_FILE\" \"$@\"\nfi\n\nif command -v kalesa >/dev/null 2>&1; then\n    exec \"$(command -v kalesa)\" --launch-config \"$CONFIG_FILE\" \"$@\"\nfi\n\nfail \"Kalesa runtime executable not found. Expected '$KALESA_BIN' or a 'kalesa' command in PATH.\"\n";

/// The text of the thin launcher for the runtime at `kalesa_path`.
pub open spec fn thin_text(kalesa_path: Seq<char>) -> Seq<char> {
    THIN_HEAD@ + decimal(LAUNCHER_FORMAT_VERSION as nat) + THIN_MID@ + single_quoted(kalesa_path)
        + THIN_TAIL@
}

/// The thin launcher: it finds `.workdir/config/config.yaml` beside the game
/// and runs `<kalesa> --launch-config <config> "$@"`.
pub fn thin_script(kalesa_path: &str) -> (r: String)
    ensures
        r@ == thin_text(kalesa_path@),
{
    let mut out = String::new();
    push_str(&mut out, THIN_HEAD);
    let v = u32_decimal(LAUNCHER_FORMAT_VERSION);
    push_str(&mut out, v.as_str());
    push_str(&mut out, THIN_MID);
    let q = shell_single_quote(kalesa_path);
    push_str(&mut out, q.as_str());
    push_str(&mut out, THIN_TAIL);
    out
}

/// What the launcher needs: a name, an executable, a Wine prefix for Wine and
/// Proton, and a Proton executable for Proton.
pub open spec fn inputs_result(
    target: GameTarget,
    metadata: GameMetadata,
    runner: Runner,
    r: Result<(), KalesaError>,
) -> bool {
    if all_ws(metadata.name@) {
        is_desktop_error(r, "game name cannot be empty"@)
    } else if target.path@.len() == 0 {
        is_desktop_error(r, "target executable path cannot be empty"@)
    } else if runner.kind.uses_prefix() && runner.wine_prefix is None {
        r matches Err(KalesaError::MissingWinePrefix)
    } else if runner.kind == RunnerKind::Proton && runner.proton_path is None {
        r matches Err(KalesaError::MissingProtonPath)
    } else {
        r is Ok
    }
}

pub fn validate_inputs(target: &GameTarget, metadata: &GameMetadata, runner: &Runner) -> (r: Result<
    (),
    KalesaError,
>)
    ensures
        inputs_result(*target, *metadata, *runner, r),
{
    let name = chars_of(metadata.name.as_str());
    if is_blank(&name) {
        return Err(KalesaError::InvalidDesktopValue(owned("game name cannot be empty")));
    }
    if target.path.as_str().unicode_len() == 0 {
        return Err(
            KalesaError::InvalidDesktopValue(owned("target executable path cannot be empty")),
        );
    }
    if runner.is_wine() || runner.is_proton() {
        if runner.wine_prefix.is_none() {
            return Err(KalesaError::MissingWinePrefix);
        }
    }
    if runner.is_proton() && runner.proton_path.is_none() {
        return Err(KalesaError::MissingProtonPath);
    }
    Ok(())
}

/// The launch script to write: the launch options and the inputs are checked
/// first, then the thin launcher for the runtime at `kalesa_path` is built.
pub fn launch_script(
    kalesa_path: &str,
    target: &GameTarget,
    metadata: &GameMetadata,
    runner: &Runner,
    launch: &LaunchOptions,
) -> (r: Result<String, KalesaError>)
    ensures
        !launch.env_valid() ==> r matches Err(KalesaError::InvalidEnvironmentName(_)),
        launch.env_valid() ==> match r {
            Ok(s) => inputs_result(*target, *metadata, *runner, Ok(())) && s@ == thin_text(
                kalesa_path@,
            ),
            Err(e) => inputs_result(*target, *metadata, *runner, Err(e)),
        },
{
    match launch.validate() {
        Err(e) => return Err(e),
        Ok(()) => {},
    }
    match validate_inputs(target, metadata, runner) {
        Err(e) => return Err(e),
        Ok(()) => {},
    }
    Ok(thin_script(kalesa_path))
}

} // verus!
