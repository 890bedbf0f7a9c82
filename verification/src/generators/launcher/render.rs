//! Rendering of the self-contained Bash launcher.
use vstd::prelude::*;

use super::escape::{
    array_text, bash_quote, entry_values, export_lines, first_nul, nul_message, push_array,
    push_env, shell_single_quote, single_quoted,
};
use super::template::{RUNNER_PLACEHOLDER, TEMPLATE_BODY, TEMPLATE_HEAD, VALUES_PLACEHOLDER};
use crate::domain::game::{env_order, opt_text};
use crate::domain::{GameMetadata, GameTarget, LaunchOptions, Runner, RunnerKind};
use crate::error::{is_desktop_error, KalesaError};
use crate::text::{chars_of, decimal, push_str, replace_all, replace_str, texts, u32_decimal};

verus! {

#[derive(Debug, Clone, PartialEq, Eq)]
pub struct RenderedLauncher {
    pub content: String,
}

/// `LABEL'value'` and a line feed.
pub open spec fn quoted_line(label: Seq<char>, v: Seq<char>) -> Seq<char> {
    label + single_quoted(v) + "\n"@
}

/// A quoted line for a value that may be absent; an absent one is `''`.
pub open spec fn optional_line(label: Seq<char>, o: Option<Seq<char>>) -> Seq<char> {
    match o {
        Some(v) => quoted_line(label, v),
        None => label + "''\n"@,
    }
}

/// The variable assignments that open the launcher.
pub open spec fn runtime_values(
    target: GameTarget,
    metadata: GameMetadata,
    runner: Runner,
    launch: LaunchOptions,
    launcher_version: u32,
    config_schema_version: u32,
) -> Seq<char> {
    "# Kalesa launcher format: "@ + decimal(launcher_version as nat) + "\n"@
        + "# Kalesa config schema: "@ + decimal(config_schema_version as nat) + "\n"@
        + quoted_line("GAME_NAME="@, metadata.name@) + quoted_line("TARGET_VALUE="@, target.path@)
        + quoted_line("RUNNER="@, runner.kind.spec_name()) + optional_line(
        "WINE_PREFIX_VALUE="@,
        opt_text(runner.wine_prefix),
    ) + (if runner.kind.uses_prefix() {
        "WINE_ARCH_VALUE='win64'\n"@
    } else {
        "WINE_ARCH_VALUE=''\n"@
    }) + optional_line("PROTON_PATH_VALUE="@, opt_text(runner.proton_path)) + array_text(
        "CONFIG_ARGS"@,
        texts(launch.args@),
    ) + array_text("CONFIG_WRAPPERS"@, texts(launch.wrappers@)) + export_lines(
        env_order(launch.env.deep_view()),
    )
}

pub open spec fn opt_has_nul(o: Option<String>) -> bool {
    match o {
        Some(v) => v@.contains('\0'),
        None => false,
    }
}

/// Some value that the launcher would carry holds a NUL character.
pub open spec fn render_rejects(
    target: GameTarget,
    metadata: GameMetadata,
    runner: Runner,
    launch: LaunchOptions,
) -> bool {
    ||| metadata.name@.contains('\0')
    ||| target.path@.contains('\0')
    ||| opt_has_nul(runner.wine_prefix)
    ||| opt_has_nul(runner.proton_path)
    ||| first_nul(texts(launch.args@)) is Some
    ||| first_nul(texts(launch.wrappers@)) is Some
    ||| first_nul(entry_values(env_order(launch.env.deep_view()))) is Some
}

/// The launcher text for the given values: the template with the values and
/// the runner put in place of their placeholders.
pub open spec fn launcher_text(
    target: GameTarget,
    metadata: GameMetadata,
    runner: Runner,
    launch: LaunchOptions,
    launcher_version: u32,
    config_schema_version: u32,
) -> Seq<char> {
    replace_all(
        replace_all(
            TEMPLATE_HEAD@ + VALUES_PLACEHOLDER@ + TEMPLATE_BODY@,
            VALUES_PLACEHOLDER@,
            runtime_values(target, metadata, runner, launch, launcher_version, config_schema_version),
        ),
        RUNNER_PLACEHOLDER@,
        runner.kind.spec_name(),
    )
}

fn push_quoted_line(out: &mut String, label: &str, value: &str) -> (r: Result<(), KalesaError>)
    ensures
        r is Err <==> value@.contains('\0'),
        r is Err ==> is_desktop_error(r, nul_message()),
        r is Ok ==> final(out)@ == old(out)@ + quoted_line(label@, value@),
{
    match bash_quote(value) {
        Err(e) => Err(e),
        Ok(q) => {
            push_str(out, label);
            push_str(out, q.as_str());
            push_str(out, "\n");
            Ok(())
        },
    }
}

fn push_optional_line(out: &mut String, label: &str, value: &Option<String>) -> (r: Result<
    (),
    KalesaError,
>)
    ensures
        r is Err <==> opt_has_nul(*value),
        r is Err ==> is_desktop_error(r, nul_message()),
        r is Ok ==> final(out)@ == old(out)@ + optional_line(label@, opt_text(*value)),
{
    match value {
        Some(v) => push_quoted_line(out, label, v.as_str()),
        None => {
            push_str(out, label);
            push_str(out, "''\n");
            Ok(())
        },
    }
}

/// The name under which the template dispatches on the runner.
fn runner_command(kind: RunnerKind) -> (s: &'static str)
    ensures
        s@ == kind.spec_name(),
{
    kind.as_str()
}

/// Renders the launcher: every value is single-quoted for Bash, and a value
/// holding a NUL character, which no shell word can carry, is rejected.
pub fn render(
    target: &GameTarget,
    metadata: &GameMetadata,
    runner: &Runner,
    launch: &LaunchOptions,
    launcher_version: u32,
    config_schema_version: u32,
) -> (r: Result<RenderedLauncher, KalesaError>)
    ensures
        r is Err <==> render_rejects(*target, *metadata, *runner, *launch),
        r is Err ==> is_desktop_error(r, nul_message()),
        r matches Ok(l) ==> l.content@ == launcher_text(
            *target,
            *metadata,
            *runner,
            *launch,
            launcher_version,
            config_schema_version,
        ),
{
    let mut prefix = String::new();
    push_str(&mut prefix, "# Kalesa launcher format: ");
    let v = u32_decimal(launcher_version);
    push_str(&mut prefix, v.as_str());
    push_str(&mut prefix, "\n");
    push_str(&mut prefix, "# Kalesa config schema: ");
    let v = u32_decimal(config_schema_version);
    push_str(&mut prefix, v.as_str());
    push_str(&mut prefix, "\n");
    match push_quoted_line(&mut prefix, "GAME_NAME=", metadata.name.as_str()) {
        Err(e) => return Err(e),
        Ok(()) => {},
    }
    match push_quoted_line(&mut prefix, "TARGET_VALUE=", target.path.as_str()) {
        Err(e) => return Err(e),
        Ok(()) => {},
    }
    push_str(&mut prefix, "RUNNER=");
    let q = shell_single_quote(runner.kind.as_str());
    push_str(&mut prefix, q.as_str());
    push_str(&mut prefix, "\n");
    match push_optional_line(&mut prefix, "WINE_PREFIX_VALUE=", &runner.wine_prefix) {
        Err(e) => return Err(e),
        Ok(()) => {},
    }
    if matches!(runner.kind, RunnerKind::Wine | RunnerKind::Proton) {
        push_str(&mut prefix, "WINE_ARCH_VALUE='win64'\n");
    } else {
        push_str(&mut prefix, "WINE_ARCH_VALUE=''\n");
    }
    match push_optional_line(&mut prefix, "PROTON_PATH_VALUE=", &runner.proton_path) {
        Err(e) => return Err(e),
        Ok(()) => {},
    }
    match push_array(&mut prefix, "CONFIG_ARGS", &launch.args) {
        Err(e) => return Err(e),
        Ok(()) => {},
    }
    match push_array(&mut prefix, "CONFIG_WRAPPERS", &launch.wrappers) {
        Err(e) => return Err(e),
        Ok(()) => {},
    }
    match push_env(&mut prefix, &launch.env) {
        Err(e) => return Err(e),
        Ok(()) => {},
    }
    assert(prefix@ =~= runtime_values(
        *target,
        *metadata,
        *runner,
        *launch,
        launcher_version,
        config_schema_version,
    ));
    let mut template_text = String::new();
    push_str(&mut template_text, TEMPLATE_HEAD);
    push_str(&mut template_text, VALUES_PLACEHOLDER);
    push_str(&mut template_text, TEMPLATE_BODY);
    let template = chars_of(template_text.as_str());
    let values_pat = chars_of(VALUES_PLACEHOLDER);
    let runner_pat = chars_of(RUNNER_PLACEHOLDER);
    proof {
        reveal_strlit("__KALESA_RUNTIME_VALUES__");
        reveal_strlit("__RUNNER_COMMAND__");
    }
    let values = chars_of(prefix.as_str());
    let filled = replace_str(&template, &values_pat, &values);
    let filled_chars = chars_of(filled.as_str());
    let runner_name = chars_of(runner_command(runner.kind));
    let content = replace_str(&filled_chars, &runner_pat, &runner_name);
    Ok(RenderedLauncher { content })
}

} // verus!
