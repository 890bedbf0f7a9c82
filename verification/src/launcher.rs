//! The first-generation launch script, which runs the game directly (through
//! Wine for Windows games), and its Desktop Entry files.
use vstd::prelude::*;

use crate::domain::BinaryType;
use crate::error::KalesaError;
use crate::generators::desktop::{bare_fields, entries_result, opt_str_text, DesktopEntries};
use crate::generators::launcher::escape::{shell_single_quote, single_quoted};
use crate::text::push_str;

verus! {

/// Quotes a path as one POSIX shell word. Every path of this crate is text,
/// so quoting always succeeds.
pub fn shell_quote(value: &str) -> (r: Result<String, KalesaError>)
    ensures
        r matches Ok(s) && s@ == single_quoted(value@),
{
    Ok(shell_single_quote(value))
}

/// The part of the script that every game shares: it moves to the game
/// directory and checks that the configuration exists.
pub const SCRIPT_HEAD: &'static str = "#!/bin/bash\n# Generated launch script - do not edit by hand, re-run kalesa instead.\nset -euo pipefail\n\nSCRIPT_DIR=\"$(cd \"$(dirname \"${BASH_SOURCE[0]}\")\" && pwd)\"\nBASE_DIR=\"$(dirname \"$SCRIPT_DIR\")\"\nGAME_DIR=\"$(dirname \"$BASE_DIR\")\"\n\ncd \"$GAME_DIR\"\n\nif [ ! -f \".workdir/config/config.yaml\" ]; then\n    echo \"[!] .workdir/config/config.yaml not found - setup may be incomplete.\" >&2\n    exit 1\nfi\n\n";

/// Up to the Wine prefix: Wine must be installed.
pub const WINE_START: &'static str = "if ! command -v wine >/dev/null 2>&1; then\n    echo \"[!] 'wine' not found in PATH. Install wine to launch this Windows game.\" >&2\n    exit 1\nfi\n\nexport WINEPREFIX=";

/// Between the Wine prefix and the executable.
pub const WINE_MIDDLE: &'static str = "\nexport WINEARCH=win64\n\necho \"[+] Launching Windows game via Wine...\"\nexec wine ";

/// After the executable: the script's arguments are passed on.
pub const PASS_ARGS: &'static str = " \"$@\"\n";

/// Up to the executable of a Linux game.
pub const NATIVE_START: &'static str = "TARGET=";

/// After the executable of a Linux game: it is made executable if needed,
/// then run.
pub const NATIVE_END: &'static str = "\nif [ ! -x \"$TARGET\" ]; then\n    chmod +x \"$TARGET\" 2>/dev/null || true\nfi\n\necho \"[+] Launching Linux game...\"\nexec \"$TARGET\" \"$@\"\n";

/// The text of the script that runs `executable` through Wine with `prefix`.
pub open spec fn wine_script(executable: Seq<char>, prefix: Seq<char>) -> Seq<char> {
    SCRIPT_HEAD@ + WINE_START@ + single_quoted(prefix) + WINE_MIDDLE@ + single_quoted(executable)
        + PASS_ARGS@
}

/// The text of the script that runs `executable` directly.
pub open spec fn native_script(executable: Seq<char>) -> Seq<char> {
    SCRIPT_HEAD@ + NATIVE_START@ + single_quoted(executable) + NATIVE_END@
}

/// The launch script of a game whose executable is `executable_path`, to be
/// written to `.workdir/bin/launch.sh`: a Windows game runs through Wine and
/// needs a Wine prefix; Linux executables and AppImages run directly.
pub fn write_launch_script(
    executable_path: &str,
    binary_type: BinaryType,
    wine_prefix: Option<&str>,
) -> (r: Result<String, KalesaError>)
    ensures
        binary_type == BinaryType::WindowsPe ==> match wine_prefix {
            None => r matches Err(KalesaError::MissingWinePrefix),
            Some(p) => r matches Ok(s) && s@ == wine_script(executable_path@, p@),
        },
        binary_type != BinaryType::WindowsPe ==> (r matches Ok(s) && s@ == native_script(
            executable_path@,
        )),
{
    let executable = shell_single_quote(executable_path);
    let mut out = String::new();
    if binary_type.is_windows() {
        let prefix = match wine_prefix {
            Some(p) => shell_single_quote(p),
            None => return Err(KalesaError::MissingWinePrefix),
        };
        push_str(&mut out, SCRIPT_HEAD);
        push_str(&mut out, WINE_START);
        push_str(&mut out, prefix.as_str());
        push_str(&mut out, WINE_MIDDLE);
        push_str(&mut out, executable.as_str());
        push_str(&mut out, PASS_ARGS);
    } else {
        push_str(&mut out, SCRIPT_HEAD);
        push_str(&mut out, NATIVE_START);
        push_str(&mut out, executable.as_str());
        push_str(&mut out, NATIVE_END);
    }
    Ok(out)
}

/// `game.desktop` and `.directory` for the game `game_name`, to be written
/// in `output_dir`; the application entry runs
/// `<current_dir>/.workdir/bin/launch.sh`.
pub fn write_desktop_entries(
    game_name: &str,
    current_dir: &str,
    icon_path: Option<&str>,
    output_dir: &str,
    force: bool,
) -> (r: Result<DesktopEntries, KalesaError>)
    ensures
        entries_result(
            bare_fields(game_name@, opt_str_text(icon_path)),
            current_dir@,
            output_dir@,
            force,
            r,
        ),
{
    crate::generators::desktop::write(game_name, current_dir, icon_path, output_dir, force)
}

} // verus!
