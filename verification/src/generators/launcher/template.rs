//! The Bash launcher that `render` fills in.
use vstd::prelude::*;

verus! {

/// Stands for the variable assignments that `render` writes.
pub const VALUES_PLACEHOLDER: &'static str = "__KALESA_RUNTIME_VALUES__";

/// Stands for the runner that the launcher dispatches on.
pub const RUNNER_PLACEHOLDER: &'static str = "__RUNNER_COMMAND__";

/// A self-contained launcher, in two parts around the place of the values:
/// the values come first, then the checks and the command that runs the game.
/// No configuration file is parsed at launch.
pub const TEMPLATE_HEAD: &'static str = "#!/usr/bin/env bash\n# Generated launch script - re-run kalesa to change it.\n";

/// What follows the values in the launcher.
pub const TEMPLATE_BODY: &'static str = r##"set -euo pipefail

SCRIPT_DIR="$(cd "$(dirname "${BASH_SOURCE[0]}")" && pwd)"
BASE_DIR="$(dirname "$SCRIPT_DIR")"
GAME_DIR="$(dirname "$BASE_DIR")"

fail() {
    echo "[!] $*" >&2
    exit 1
}

require_command() {
    command -v "$1" >/dev/null 2>&1 || fail "required command not found: $1"
}

resolve_path() {
    local value="$1"
    if [[ "$value" = /* ]]; then
        printf '%s\n' "$value"
    else
        printf '%s\n' "$GAME_DIR/$value"
    fi
}

require_wrapper() {
    local wrapper="$1"
    if [[ "$wrapper" == */* ]]; then
        local resolved
        resolved="$(resolve_path "$wrapper")"
        [[ -x "$resolved" ]] || fail "wrapper is not executable: $resolved"
    else
        require_command "$wrapper"
    fi
}

wrapper_command() {
    local wrapper="$1"
    if [[ "$wrapper" == */* ]]; then
        resolve_path "$wrapper"
    else
        printf '%s\n' "$wrapper"
    fi
}

print_command() {
    local label="$1"
    shift
    printf '[+] %s' "$label"
    printf ' %q' "$@"
    printf '\n'
}

check_values() {
    [[ -n "$GAME_NAME" ]] || fail "game name is missing"
    [[ -n "$TARGET_VALUE" ]] || fail "game executable is missing"
    case "$RUNNER" in
        native)
            ;;
        wine|proton)
            [[ -n "$WINE_PREFIX_VALUE" ]] || fail "Wine prefix is missing"
            [[ -n "$WINE_ARCH_VALUE" ]] || fail "Wine architecture is missing"
            ;;
        *)
            fail "unsupported runner '$RUNNER'"
            ;;
    esac
    if [[ "$RUNNER" == "proton" && -z "$PROTON_PATH_VALUE" ]]; then
        fail "Proton executable is missing"
    fi
}

check_values
cd "$GAME_DIR"

TARGET="$(resolve_path "$TARGET_VALUE")"
[[ -f "$TARGET" ]] || fail "game executable not found: $TARGET"

COMMAND=()
for wrapper in "${CONFIG_WRAPPERS[@]}"; do
    require_wrapper "$wrapper"
    COMMAND+=("$(wrapper_command "$wrapper")")
done

case "__RUNNER_COMMAND__" in
    native)
        [[ -x "$TARGET" ]] || fail "game executable is not executable: $TARGET"
        COMMAND+=("$TARGET")
        ;;
    wine)
        require_command wine
        export WINEPREFIX="$(resolve_path "$WINE_PREFIX_VALUE")"
        export WINEARCH="$WINE_ARCH_VALUE"
        COMMAND+=("wine" "$TARGET")
        ;;
    proton)
        PROTON="$(resolve_path "$PROTON_PATH_VALUE")"
        [[ -x "$PROTON" ]] || fail "Proton executable not found or not executable: $PROTON"
        export WINEPREFIX="$(resolve_path "$WINE_PREFIX_VALUE")"
        export WINEARCH="$WINE_ARCH_VALUE"
        COMMAND+=("$PROTON" "run" "$TARGET")
        ;;
esac

COMMAND+=("${CONFIG_ARGS[@]}")
COMMAND+=("$@")

print_command "Launching $GAME_NAME:" "${COMMAND[@]}"
exec "${COMMAND[@]}"
"##;

} // verus!
