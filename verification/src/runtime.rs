//! The launch runtime: checks a loaded configuration, resolves the game and
//! its tools, and builds the command line and environment of the launch.
use vstd::prelude::*;

use crate::domain::game::{env_names_valid, opt_text, validate_env};
use crate::domain::game::is_env_name;
use crate::domain::{BinaryType, GameMetadata, GameTarget, LaunchOptions, Runner};
use crate::generators::config::config_of;
use crate::generators::launcher::inputs_result;
use crate::error::{is_runtime_error, KalesaError};
use crate::generators::config::{AppConfig, CONFIG_SCHEMA_VERSION};
use crate::generators::launcher::escape::single_quoted;
use crate::pipeline::detect::{detect, detected, detection, Detection};
use crate::paths::{is_absolute, join, join_path, parent, parent_of};
use crate::probe::{found, probed};
use crate::text::{
    all_ws, chars_of, is_ws, decimal, has_char, is_ascii_alnum, is_ascii_alphanumeric, is_blank, owned,
    push_str, str_eq, texts, u32_decimal,
};

verus! {

/// What is wrong with a configuration, when something is.
pub enum ConfigProblem {
    Message(Seq<char>),
    EnvName,
    MissingWinePrefix,
    MissingProtonPath,
}

pub open spec fn proton_problem(c: AppConfig) -> Option<ConfigProblem> {
    if c.runner.runner_type@ == "proton"@ && (match c.runner.proton {
        Some(p) => p.path@.len() == 0,
        None => true,
    }) {
        Some(ConfigProblem::MissingProtonPath)
    } else {
        None
    }
}

/// The first problem of a configuration, in the order in which they are
/// checked: schema, name, executable, environment names, wrappers, runner.
pub open spec fn config_problem(c: AppConfig) -> Option<ConfigProblem> {
    if c.schema_version != CONFIG_SCHEMA_VERSION {
        Some(
            ConfigProblem::Message(
                "unsupported schema_version "@ + decimal(c.schema_version as nat) + "; expected "@
                    + decimal(CONFIG_SCHEMA_VERSION as nat),
            ),
        )
    } else if all_ws(c.name@) {
        Some(ConfigProblem::Message("name cannot be empty"@))
    } else if c.executable.path@.len() == 0 {
        Some(ConfigProblem::Message("executable.path cannot be empty"@))
    } else if !env_names_valid(c.launch.env) {
        Some(ConfigProblem::EnvName)
    } else if exists|i: int|
        0 <= i < c.launch.wrappers.len() && all_ws(#[trigger] c.launch.wrappers@[i]@) {
        Some(ConfigProblem::Message("launch wrapper cannot be empty"@))
    } else if c.runner.runner_type@ == "native"@ {
        None
    } else if c.runner.runner_type@ == "wine"@ || c.runner.runner_type@ == "proton"@ {
        match c.runner.wine {
            None => Some(ConfigProblem::Message("runner.wine is required for wine/proton"@)),
            Some(w) => if w.prefix@.len() == 0 {
                Some(ConfigProblem::MissingWinePrefix)
            } else if all_ws(w.arch@) {
                Some(ConfigProblem::Message("runner.wine.arch cannot be empty"@))
            } else {
                proton_problem(c)
            },
        }
    } else {
        Some(
            ConfigProblem::Message(
                "unsupported runner.type '"@ + c.runner.runner_type@ + "'"@,
            ),
        )
    }
}

/// `r` reports `problem`, or accepts when there is none.
pub open spec fn reports(problem: Option<ConfigProblem>, r: Result<(), KalesaError>) -> bool {
    match problem {
        None => r is Ok,
        Some(ConfigProblem::Message(m)) => is_runtime_error(r, m),
        Some(ConfigProblem::EnvName) => r matches Err(KalesaError::InvalidEnvironmentName(_)),
        Some(ConfigProblem::MissingWinePrefix) => r matches Err(KalesaError::MissingWinePrefix),
        Some(ConfigProblem::MissingProtonPath) => r matches Err(KalesaError::MissingProtonPath),
    }
}

/// The runtime accepts the configuration that the setup builds for a game,
/// runner and launch options that the launch script accepts, provided that no
/// launch wrapper is blank and that a Wine prefix or Proton executable, when
/// given, is not empty.
pub proof fn runtime_accepts_built_config(
    c: AppConfig,
    target: GameTarget,
    metadata: GameMetadata,
    runner: Runner,
    launch: LaunchOptions,
)
    requires
        config_of(c, target, metadata, runner, launch),
        inputs_result(target, metadata, runner, Ok(())),
        launch.env_valid(),
        forall|i: int| 0 <= i < launch.wrappers@.len() ==> !all_ws(#[trigger] launch.wrappers@[i]@),
        runner.wine_prefix matches Some(p) ==> p@.len() > 0,
        runner.proton_path matches Some(p) ==> p@.len() > 0,
    ensures
        config_problem(c) is None,
{
    vstd::std_specs::btree::lemma_btree_map_deepview_dom(c.launch.env);
    vstd::std_specs::btree::lemma_btree_map_deepview_dom(launch.env);
    assert(c.launch.env.deep_view().dom() == launch.env.deep_view().dom());
    assert forall|k: Seq<char>| #[trigger] c.launch.env.deep_view().contains_key(k) implies is_env_name(k) by {
        assert(launch.env.deep_view().dom().contains(k));
    }
    assert(env_names_valid(c.launch.env));
    assert forall|i: int| 0 <= i < c.launch.wrappers.len() implies !all_ws(#[trigger] c.launch.wrappers@[i]@) by {
        assert(texts(c.launch.wrappers@).len() == texts(launch.wrappers@).len());
        assert(texts(c.launch.wrappers@)[i] == texts(launch.wrappers@)[i]);
        assert(!all_ws(launch.wrappers@[i]@));
    }
    reveal_strlit("native");
    reveal_strlit("wine");
    reveal_strlit("proton");
    reveal_strlit("win64");
    assert(!all_ws("win64"@)) by {
        assert(!is_ws("win64"@[0]));
    }
    assert("native"@ != "wine"@ && "native"@ != "proton"@ && "wine"@ != "proton"@) by {
        assert("native"@.len() != "wine"@.len());
        assert("native"@[0] != "proton"@[0]);
        assert("wine"@.len() != "proton"@.len());
    }
}

fn runtime_error(m: String) -> (r: Result<(), KalesaError>)
    ensures
        is_runtime_error(r, m@),
{
    Err(KalesaError::InvalidRuntimeConfig(m))
}

/// Checks a configuration before a launch.
pub fn validate_config(config: &AppConfig) -> (r: Result<(), KalesaError>)
    ensures
        reports(config_problem(*config), r),
{
    if config.schema_version != CONFIG_SCHEMA_VERSION {
        let mut m = owned("unsupported schema_version ");
        let v = u32_decimal(config.schema_version);
        push_str(&mut m, v.as_str());
        push_str(&mut m, "; expected ");
        let v = u32_decimal(CONFIG_SCHEMA_VERSION);
        push_str(&mut m, v.as_str());
        return runtime_error(m);
    }
    if is_blank(&chars_of(config.name.as_str())) {
        return runtime_error(owned("name cannot be empty"));
    }
    if config.executable.path.as_str().unicode_len() == 0 {
        return runtime_error(owned("executable.path cannot be empty"));
    }
    match validate_env(&config.launch.env) {
        Err(e) => return Err(e),
        Ok(()) => {},
    }
    let wrappers = &config.launch.wrappers;
    let mut i: usize = 0;
    while i < wrappers.len()
        invariant
            i <= wrappers.len(),
            wrappers == &config.launch.wrappers,
            config.schema_version == CONFIG_SCHEMA_VERSION,
            !all_ws(config.name@),
            config.executable.path@.len() != 0,
            env_names_valid(config.launch.env),
            forall|j: int| 0 <= j < i ==> !all_ws(#[trigger] wrappers@[j]@),
        decreases wrappers.len() - i,
    {
        if is_blank(&chars_of(wrappers[i].as_str())) {
            assert(all_ws(wrappers@[i as int]@));
            return runtime_error(owned("launch wrapper cannot be empty"));
        }
        i += 1;
    }
    let kind = config.runner.runner_type.as_str();
    if str_eq(kind, "native") {
        return Ok(());
    }
    if str_eq(kind, "wine") || str_eq(kind, "proton") {
        match &config.runner.wine {
            None => return runtime_error(owned("runner.wine is required for wine/proton")),
            Some(w) => {
                if w.prefix.as_str().unicode_len() == 0 {
                    return Err(KalesaError::MissingWinePrefix);
                }
                if is_blank(&chars_of(w.arch.as_str())) {
                    return runtime_error(owned("runner.wine.arch cannot be empty"));
                }
            },
        }
    } else {
        let mut m = owned("unsupported runner.type '");
        push_str(&mut m, kind);
        push_str(&mut m, "'");
        return runtime_error(m);
    }
    if str_eq(kind, "proton") {
        match &config.runner.proton {
            None => return Err(KalesaError::MissingProtonPath),
            Some(p) => {
                if p.path.as_str().unicode_len() == 0 {
                    return Err(KalesaError::MissingProtonPath);
                }
            },
        }
    }
    Ok(())
}

/// Wine and Proton run only Windows executables.
pub fn validate_runner_target(runner: &str, binary_type: BinaryType) -> (r: Result<
    (),
    KalesaError,
>)
    ensures
        ((runner@ == "wine"@ || runner@ == "proton"@) && binary_type != BinaryType::WindowsPe)
            ==> is_runtime_error(
            r,
            "runner '"@ + runner@ + "' requires a Windows PE executable; detected "@
                + binary_type.spec_name(),
        ),
        !((runner@ == "wine"@ || runner@ == "proton"@) && binary_type != BinaryType::WindowsPe)
            ==> r is Ok,
{
    if (str_eq(runner, "wine") || str_eq(runner, "proton")) && !binary_type.is_windows() {
        let mut m = owned("runner '");
        push_str(&mut m, runner);
        push_str(&mut m, "' requires a Windows PE executable; detected ");
        push_str(&mut m, binary_type.as_str());
        return runtime_error(m);
    }
    Ok(())
}

/// A path of the configuration: absolute as it stands, relative to the game
/// directory otherwise.
pub open spec fn resolved(game_dir: Seq<char>, value: Seq<char>) -> Seq<char> {
    if is_absolute(value) {
        value
    } else {
        join(game_dir, value)
    }
}

pub fn resolve_path(game_dir: &str, value: &str) -> (r: String)
    ensures
        r@ == resolved(game_dir@, value@),
{
    let v = chars_of(value);
    if v.len() > 0 && v[0] == '/' {
        owned(value)
    } else {
        join_path(game_dir, value)
    }
}

/// A loaded and checked configuration, with the game directory and the
/// executable that it designates.
#[derive(Debug, Clone)]
pub struct RuntimeContext {
    pub config_path: String,
    pub game_dir: String,
    pub config: AppConfig,
    pub target: String,
}

/// The game directory of a configuration at `<game>/.workdir/config/<file>`.
pub open spec fn game_dir_of(config_path: Seq<char>) -> Option<Seq<char>> {
    match parent(config_path) {
        None => None,
        Some(config_dir) => match parent(config_dir) {
            None => None,
            Some(workdir) => parent(workdir),
        },
    }
}

/// `r` is what checking `config`, read from `config_path`, and locating its
/// game directory (three levels above the configuration) and executable
/// comes to.
pub open spec fn located(config_path: Seq<char>, config: AppConfig, r: Result<
    RuntimeContext,
    KalesaError,
>) -> bool {
    &&& config_problem(config) is Some ==> reports(
        config_problem(config),
        match r {
            Ok(_) => Ok(()),
            Err(e) => Err(e),
        },
    )
    &&& config_problem(config) is None ==> match parent(config_path) {
        None => is_runtime_error(r, "configuration has no parent directory"@),
        Some(d) => match parent(d) {
            None => is_runtime_error(r, "configuration is not inside .workdir/config"@),
            Some(w) => match parent(w) {
                None => is_runtime_error(r, "configuration is not inside a game directory"@),
                Some(g) => r matches Ok(c) && c.game_dir@ == g && c.config_path@ == config_path
                    && c.config == config && c.target@ == resolved(g, config.executable.path@),
            },
        },
    }
}

/// Checks `config`, read from `config_path`, and locates the game directory
/// (three levels above the configuration) and the executable.
pub fn context_of(config_path: String, config: AppConfig) -> (r: Result<RuntimeContext, KalesaError>)
    ensures
        located(config_path@, config, r),
{
    match validate_config(&config) {
        Err(e) => return Err(e),
        Ok(()) => {},
    }
    let config_dir = match parent_of(config_path.as_str()) {
        Some(d) => d,
        None => {
            return Err(
                KalesaError::InvalidRuntimeConfig(owned("configuration has no parent directory")),
            )
        },
    };
    let workdir = match parent_of(config_dir.as_str()) {
        Some(d) => d,
        None => {
            return Err(
                KalesaError::InvalidRuntimeConfig(
                    owned("configuration is not inside .workdir/config"),
                ),
            )
        },
    };
    let game_dir = match parent_of(workdir.as_str()) {
        Some(d) => d,
        None => {
            return Err(
                KalesaError::InvalidRuntimeConfig(
                    owned("configuration is not inside a game directory"),
                ),
            )
        },
    };
    let target = resolve_path(game_dir.as_str(), config.executable.path.as_str());
    Ok(RuntimeContext { config_path, game_dir, config, target })
}

/// `r` is what checking the executable of `c` comes to when its bytes are
/// `b`: its type, which the runner must be able to run.
pub open spec fn runnable(c: RuntimeContext, b: Seq<u8>, r: Result<BinaryType, KalesaError>) -> bool {
    match detection(c.target@, b) {
        Detection::Found(bt) => {
            let runner = c.config.runner.runner_type@;
            if (runner == "wine"@ || runner == "proton"@) && bt != BinaryType::WindowsPe {
                is_runtime_error(
                    r,
                    "runner '"@ + runner + "' requires a Windows PE executable; detected "@
                        + bt.spec_name(),
                )
            } else {
                r == Ok::<BinaryType, KalesaError>(bt)
            }
        },
        _ => detected(c.target@, b, r),
    }
}

/// `r` is what checking the executable of `c` comes to: it must be a file
/// (asked of `is_file`), then its bytes (from `read`) must be an executable
/// that the runner can run.
pub open spec fn target_checked<
    G: Fn(&String) -> bool,
    B: Fn(&String) -> Result<Vec<u8>, KalesaError>,
>(is_file: G, read: B, c: RuntimeContext, r: Result<BinaryType, KalesaError>) -> bool {
    ||| (is_file.ensures((&c.target,), false) && (r matches Err(KalesaError::TargetNotFound(p))
        && p@ == c.target@))
    ||| (is_file.ensures((&c.target,), true) && exists|rb: Result<Vec<u8>, KalesaError>|
        #[trigger] read.ensures((&c.target,), rb) && match rb {
            Err(e) => r == Err::<BinaryType, KalesaError>(e),
            Ok(b) => runnable(c, b@, r),
        })
}

/// Checks the executable of a loaded configuration: it must be a file, of a
/// type that the configured runner can run.
pub fn check_target<G: Fn(&String) -> bool, B: Fn(&String) -> Result<Vec<u8>, KalesaError>>(
    context: &RuntimeContext,
    is_file: &G,
    read: &B,
) -> (r: Result<BinaryType, KalesaError>)
    requires
        forall|s: &String| #[trigger] is_file.requires((s,)),
        forall|s: &String| #[trigger] read.requires((s,)),
    ensures
        target_checked(*is_file, *read, *context, r),
{
    if !is_file(&context.target) {
        return Err(KalesaError::TargetNotFound(context.target.clone()));
    }
    let rb = read(&context.target);
    let ghost g = rb;
    let r = match rb {
        Err(e) => Err(e),
        Ok(b) => {
            let bt = match detect(context.target.as_str(), b.as_slice()) {
                Ok(t) => t,
                Err(e) => return Err(e),
            };
            match validate_runner_target(context.config.runner.runner_type.as_str(), bt) {
                Err(e) => Err(e),
                Ok(()) => Ok(bt),
            }
        },
    };
    assert(read.ensures((&context.target,), g));
    r
}

/// `r` is what loading the configuration `config`, read from `config_path`,
/// comes to: the configuration is checked and located, then its executable
/// is checked.
pub open spec fn loaded<G: Fn(&String) -> bool, B: Fn(&String) -> Result<Vec<u8>, KalesaError>>(
    is_file: G,
    read: B,
    config_path: Seq<char>,
    config: AppConfig,
    r: Result<RuntimeContext, KalesaError>,
) -> bool {
    exists|c: Result<RuntimeContext, KalesaError>|
        #[trigger] located(config_path, config, c) && match c {
            Err(e) => r == Err::<RuntimeContext, KalesaError>(e),
            Ok(ctx) => exists|t: Result<BinaryType, KalesaError>|
                #[trigger] target_checked(is_file, read, ctx, t) && match t {
                    Err(e) => r == Err::<RuntimeContext, KalesaError>(e),
                    Ok(_) => r == Ok::<RuntimeContext, KalesaError>(ctx),
                },
        }
}

/// Loads a parsed configuration: it is checked, its game directory and
/// executable located, and the executable checked against the runner.
pub fn load<G: Fn(&String) -> bool, B: Fn(&String) -> Result<Vec<u8>, KalesaError>>(
    config_path: String,
    config: AppConfig,
    is_file: &G,
    read: &B,
) -> (r: Result<RuntimeContext, KalesaError>)
    requires
        forall|s: &String| #[trigger] is_file.requires((s,)),
        forall|s: &String| #[trigger] read.requires((s,)),
    ensures
        loaded(*is_file, *read, config_path@, config, r),
{
    let ghost path = config_path@;
    let ghost cfg = config;
    let c = context_of(config_path, config);
    let ghost cg = c;
    match c {
        Err(e) => {
            assert(located(path, cfg, cg));
            Err(e)
        },
        Ok(ctx) => {
            let t = check_target(&ctx, is_file, read);
            let ghost tg = t;
            assert(located(path, cfg, cg));
            assert(target_checked(*is_file, *read, ctx, tg));
            match t {
                Err(e) => Err(e),
                Ok(_) => Ok(ctx),
            }
        },
    }
}

/// How a wrapper or a tool named `value` is found: a value holding a `/` is a
/// path (resolved against the game directory) that must be a file; any other
/// is looked up on `PATH`.
pub open spec fn resolves<F: Fn(&String) -> Option<String>, G: Fn(&String) -> bool>(
    find: F,
    is_file: G,
    game_dir: Seq<char>,
    value: Seq<char>,
    out: Option<Seq<char>>,
) -> bool {
    if value.contains('/') {
        let p = resolved(game_dir, value);
        ||| out == Some(p) && probed(is_file, p, true)
        ||| out is None && probed(is_file, p, false)
    } else {
        found(find, value, out)
    }
}

pub open spec fn tools_callable<F: Fn(&String) -> Option<String>, G: Fn(&String) -> bool>(
    find: F,
    is_file: G,
) -> bool {
    &&& forall|s: &String| #[trigger] find.requires((s,))
    &&& forall|s: &String| #[trigger] is_file.requires((s,))
}

pub fn resolve_program<F: Fn(&String) -> Option<String>, G: Fn(&String) -> bool>(
    game_dir: &str,
    value: &str,
    find: &F,
    is_file: &G,
) -> (r: Option<String>)
    requires
        tools_callable(*find, *is_file),
    ensures
        resolves(*find, *is_file, game_dir@, value@, opt_text(r)),
{
    let v = chars_of(value);
    if has_char(&v, '/') {
        let path = resolve_path(game_dir, value);
        let answer = is_file(&path);
        assert(probed(*is_file, path@, answer));
        if answer {
            Some(path)
        } else {
            None
        }
    } else {
        let name = owned(value);
        let out = find(&name);
        assert(found(*find, value@, opt_text(out)));
        out
    }
}

/// The part of the command that starts the game itself.
pub open spec fn runner_part<F: Fn(&String) -> Option<String>, G: Fn(&String) -> bool>(
    c: RuntimeContext,
    find: F,
    is_file: G,
    part: Seq<Seq<char>>,
) -> bool {
    let kind = c.config.runner.runner_type@;
    if kind == "native"@ {
        part == seq![c.target@]
    } else if kind == "wine"@ {
        exists|w: Seq<char>| found(find, "wine"@, Some(w)) && part == seq![w, c.target@]
    } else if kind == "proton"@ {
        match c.config.runner.proton {
            Some(p) => {
                let path = resolved(c.game_dir@, p.path@);
                probed(is_file, path, true) && part == seq![path, "run"@, c.target@]
            },
            None => false,
        }
    } else {
        false
    }
}

/// The wrapper `value` was found.
pub open spec fn wrapper_found<F: Fn(&String) -> Option<String>, G: Fn(&String) -> bool>(
    find: F,
    is_file: G,
    game_dir: Seq<char>,
    value: Seq<char>,
) -> bool {
    exists|w: Seq<char>| #[trigger] resolves(find, is_file, game_dir, value, Some(w))
}

/// The first `n` wrappers of `c` were found.
pub open spec fn wrappers_found<F: Fn(&String) -> Option<String>, G: Fn(&String) -> bool>(
    c: RuntimeContext,
    find: F,
    is_file: G,
    n: int,
) -> bool {
    forall|j: int|
        0 <= j < n ==> #[trigger] wrapper_found(
            find,
            is_file,
            c.game_dir@,
            c.config.launch.wrappers@[j]@,
        )
}

/// Why a command could not be built: the first wrapper that was not found,
/// or, every wrapper found, the runner's tool, or an unknown runner.
pub open spec fn build_failure<F: Fn(&String) -> Option<String>, G: Fn(&String) -> bool>(
    c: RuntimeContext,
    find: F,
    is_file: G,
    r: Result<Vec<String>, KalesaError>,
) -> bool {
    let kind = c.config.runner.runner_type@;
    let ws = texts(c.config.launch.wrappers@);
    ||| exists|i: int|
        0 <= i < ws.len() && resolves(find, is_file, c.game_dir@, #[trigger] ws[i], None)
            && wrappers_found(c, find, is_file, i) && is_runtime_error(
            r,
            "launcher wrapper not found: "@ + ws[i],
        )
    ||| wrappers_found(c, find, is_file, ws.len() as int) && kind == "wine"@ && found(
        find,
        "wine"@,
        None,
    ) && is_runtime_error(r, "wine was not found in PATH"@)
    ||| wrappers_found(c, find, is_file, ws.len() as int) && kind == "proton"@ && (
    match c.config.runner.proton {
        Some(p) => {
            let path = resolved(c.game_dir@, p.path@);
            probed(is_file, path, false) && is_runtime_error(
                r,
                "Proton executable not found: "@ + path,
            )
        },
        None => false,
    })
    ||| wrappers_found(c, find, is_file, ws.len() as int) && kind != "native"@ && kind != "wine"@
        && kind != "proton"@ && is_runtime_error(r, "unsupported runner.type '"@ + kind + "'"@)
}

/// Every reason why a command cannot be built is reported as an invalid
/// runtime configuration.
pub proof fn build_failures_are_config_errors<
    F: Fn(&String) -> Option<String>,
    G: Fn(&String) -> bool,
>(c: RuntimeContext, find: F, is_file: G, r: Result<Vec<String>, KalesaError>)
    requires
        build_failure(c, find, is_file, r),
    ensures
        r matches Err(KalesaError::InvalidRuntimeConfig(_)),
{
}

/// A Proton launch runs the game through Proton's `run` verb: right after
/// the resolved wrappers come the Proton executable (resolved against the
/// game directory), the word `run` and the game, then the configured
/// arguments and the extra ones.
pub proof fn proton_command_runs_game<F: Fn(&String) -> Option<String>, G: Fn(&String) -> bool>(
    context: RuntimeContext,
    find: F,
    is_file: G,
    extra_args: Vec<String>,
    cmd: Vec<String>,
)
    requires
        context.config.runner.runner_type@ == "proton"@,
        context.config.runner.proton is Some,
        exists|ws: Seq<Seq<char>>, part: Seq<Seq<char>>|
            {
                &&& ws.len() == context.config.launch.wrappers.len()
                &&& forall|i: int|
                    0 <= i < ws.len() ==> resolves(
                        find,
                        is_file,
                        context.game_dir@,
                        #[trigger] context.config.launch.wrappers@[i]@,
                        Some(ws[i]),
                    )
                &&& runner_part(context, find, is_file, part)
                &&& texts(cmd@) == ws + part + texts(context.config.launch.args@) + texts(
                    extra_args@,
                )
            },
    ensures
        ({
            let n = context.config.launch.wrappers.len() as int;
            &&& cmd@.len() == n + 3 + context.config.launch.args.len() + extra_args.len()
            &&& cmd@[n]@ == resolved(context.game_dir@, context.config.runner.proton->0.path@)
            &&& cmd@[n + 1]@ == "run"@
            &&& cmd@[n + 2]@ == context.target@
            &&& forall|i: int|
                0 <= i < context.config.launch.args.len() ==> cmd@[n + 3 + i]@
                    == #[trigger] context.config.launch.args@[i]@
        }),
{
    let (ws, part) = choose|ws: Seq<Seq<char>>, part: Seq<Seq<char>>|
        {
            &&& ws.len() == context.config.launch.wrappers.len()
            &&& forall|i: int|
                0 <= i < ws.len() ==> resolves(
                    find,
                    is_file,
                    context.game_dir@,
                    #[trigger] context.config.launch.wrappers@[i]@,
                    Some(ws[i]),
                )
            &&& runner_part(context, find, is_file, part)
            &&& texts(cmd@) == ws + part + texts(context.config.launch.args@) + texts(
                extra_args@,
            )
        };
    reveal_strlit("proton");
    reveal_strlit("native");
    reveal_strlit("wine");
    assert("proton"@ != "native"@) by {
        assert("proton"@[0] != "native"@[0]);
    }
    assert("proton"@ != "wine"@) by {
        assert("proton"@.len() != "wine"@.len());
    }
    let n = ws.len() as int;
    let t = texts(cmd@);
    let p = context.config.runner.proton->0;
    assert(part == seq![resolved(context.game_dir@, p.path@), "run"@, context.target@]);
    let at = texts(context.config.launch.args@);
    assert(t.len() == n + 3 + at.len() + extra_args.len());
    assert forall|i: int| 0 <= i < cmd@.len() implies t[i] == #[trigger] cmd@[i]@ by {}
    assert(t[n] == part[0]);
    assert(t[n + 1] == part[1]);
    assert(t[n + 2] == part[2]);
    assert forall|i: int| 0 <= i < context.config.launch.args.len() implies cmd@[n + 3 + i]@
        == #[trigger] context.config.launch.args@[i]@ by {
        assert(t[n + 3 + i] == at[i]);
        assert(at[i] == context.config.launch.args@[i]@);
        assert(t[n + 3 + i] == cmd@[n + 3 + i]@);
    }
}

/// The shape of every launch command: first the wrappers, each as it was
/// resolved; then the runner's part: the game itself for `native`, the `wine`
/// found on the path and the game for `wine`, the Proton executable, `run`
/// and the game for `proton` (no other runner type gives a command); then the
/// configured arguments in order, and last the extra arguments in order.
pub proof fn launch_command_shape<F: Fn(&String) -> Option<String>, G: Fn(&String) -> bool>(
    context: RuntimeContext,
    find: F,
    is_file: G,
    extra_args: Vec<String>,
    cmd: Vec<String>,
)
    requires
        exists|ws: Seq<Seq<char>>, part: Seq<Seq<char>>|
            {
                &&& ws.len() == context.config.launch.wrappers.len()
                &&& forall|i: int|
                    0 <= i < ws.len() ==> resolves(
                        find,
                        is_file,
                        context.game_dir@,
                        #[trigger] context.config.launch.wrappers@[i]@,
                        Some(ws[i]),
                    )
                &&& runner_part(context, find, is_file, part)
                &&& texts(cmd@) == ws + part + texts(context.config.launch.args@) + texts(
                    extra_args@,
                )
            },
    ensures
        ({
            let kind = context.config.runner.runner_type@;
            let n = context.config.launch.wrappers.len() as int;
            let a = context.config.launch.args.len() as int;
            let x = extra_args.len() as int;
            let k = cmd@.len() - a - x - n;
            &&& kind == "native"@ || kind == "wine"@ || kind == "proton"@
            &&& forall|i: int|
                0 <= i < n ==> resolves(
                    find,
                    is_file,
                    context.game_dir@,
                    #[trigger] context.config.launch.wrappers@[i]@,
                    Some(cmd@[i]@),
                )
            &&& kind == "native"@ ==> k == 1 && cmd@[n]@ == context.target@
            &&& kind == "wine"@ ==> k == 2 && found(find, "wine"@, Some(cmd@[n]@)) && cmd@[n + 1]@
                == context.target@
            &&& kind == "proton"@ ==> k == 3 && cmd@[n + 1]@ == "run"@ && cmd@[n + 2]@
                == context.target@
            &&& forall|i: int|
                0 <= i < a ==> cmd@[n + k + i]@ == #[trigger] context.config.launch.args@[i]@
            &&& forall|i: int| 0 <= i < x ==> cmd@[n + k + a + i]@ == #[trigger] extra_args@[i]@
        }),
{
    let (ws, part) = choose|ws: Seq<Seq<char>>, part: Seq<Seq<char>>|
        {
            &&& ws.len() == context.config.launch.wrappers.len()
            &&& forall|i: int|
                0 <= i < ws.len() ==> resolves(
                    find,
                    is_file,
                    context.game_dir@,
                    #[trigger] context.config.launch.wrappers@[i]@,
                    Some(ws[i]),
                )
            &&& runner_part(context, find, is_file, part)
            &&& texts(cmd@) == ws + part + texts(context.config.launch.args@) + texts(
                extra_args@,
            )
        };
    let n = ws.len() as int;
    let t = texts(cmd@);
    let at = texts(context.config.launch.args@);
    let xt = texts(extra_args@);
    assert forall|i: int| 0 <= i < cmd@.len() implies t[i] == #[trigger] cmd@[i]@ by {}
    assert(t.len() == n + part.len() + at.len() + xt.len());
    let k = part.len() as int;
    assert forall|i: int| 0 <= i < n implies resolves(
        find,
        is_file,
        context.game_dir@,
        #[trigger] context.config.launch.wrappers@[i]@,
        Some(cmd@[i]@),
    ) by {
        assert(t[i] == ws[i]);
        assert(t[i] == cmd@[i]@);
    }
    assert forall|i: int| 0 <= i < k implies #[trigger] cmd@[n + i]@ == part[i] by {
        assert(t[n + i] == part[i]);
        assert(t[n + i] == cmd@[n + i]@);
    }
    assert forall|i: int| 0 <= i < at.len() implies cmd@[n + k + i]@
        == #[trigger] context.config.launch.args@[i]@ by {
        assert(t[n + k + i] == at[i]);
        assert(at[i] == context.config.launch.args@[i]@);
        assert(t[n + k + i] == cmd@[n + k + i]@);
    }
    assert forall|i: int| 0 <= i < xt.len() implies cmd@[n + k + at.len() + i]@
        == #[trigger] extra_args@[i]@ by {
        assert(t[n + k + at.len() + i] == xt[i]);
        assert(xt[i] == extra_args@[i]@);
        assert(t[n + k + at.len() + i] == cmd@[n + k + at.len() + i]@);
    }
    reveal_strlit("proton");
    reveal_strlit("native");
    reveal_strlit("wine");
    assert("native"@ != "wine"@ && "native"@ != "proton"@ && "wine"@ != "proton"@) by {
        assert("native"@.len() != "wine"@.len());
        assert("native"@[0] != "proton"@[0]);
        assert("wine"@.len() != "proton"@.len());
    }
    if context.config.runner.runner_type@ == "native"@ {
        assert(cmd@[n]@ == part[0]);
    }
    if context.config.runner.runner_type@ == "wine"@ {
        assert(cmd@[n]@ == part[0]);
        assert(cmd@[n + 1]@ == part[1]);
    }
    if context.config.runner.runner_type@ == "proton"@ {
        assert(cmd@[n + 1]@ == part[1]);
        assert(cmd@[n + 2]@ == part[2]);
    }
}

/// The command line of a launch: the wrappers, resolved, then the runner and
/// the game, then the configured arguments, then `extra_args`.
pub fn build_command<F: Fn(&String) -> Option<String>, G: Fn(&String) -> bool>(
    context: &RuntimeContext,
    extra_args: &Vec<String>,
    find: &F,
    is_file: &G,
) -> (r: Result<Vec<String>, KalesaError>)
    requires
        tools_callable(*find, *is_file),
        context.config.runner.runner_type@ == "proton"@ ==> context.config.runner.proton is Some,
    ensures
        r matches Ok(cmd) ==> exists|ws: Seq<Seq<char>>, part: Seq<Seq<char>>|
            {
                &&& ws.len() == context.config.launch.wrappers.len()
                &&& forall|i: int|
                    0 <= i < ws.len() ==> resolves(
                        *find,
                        *is_file,
                        context.game_dir@,
                        #[trigger] context.config.launch.wrappers@[i]@,
                        Some(ws[i]),
                    )
                &&& runner_part(*context, *find, *is_file, part)
                &&& texts(cmd@) == ws + part + texts(context.config.launch.args@) + texts(
                    extra_args@,
                )
            },
        r is Err ==> build_failure(*context, *find, *is_file, r),
{
    let wrappers = &context.config.launch.wrappers;
    let ghost wrapper_texts = texts(wrappers@);
    let mut command: Vec<String> = Vec::new();
    let mut i: usize = 0;
    while i < wrappers.len()
        invariant
            i <= wrappers.len(),
            tools_callable(*find, *is_file),
            wrapper_texts == texts(wrappers@),
            wrappers == &context.config.launch.wrappers,
            command@.len() == i,
            wrappers_found(*context, *find, *is_file, i as int),
            forall|j: int|
                0 <= j < i ==> resolves(
                    *find,
                    *is_file,
                    context.game_dir@,
                    #[trigger] wrappers@[j]@,
                    Some(command@[j]@),
                ),
        decreases wrappers.len() - i,
    {
        match resolve_program(context.game_dir.as_str(), wrappers[i].as_str(), find, is_file) {
            Some(p) => {
                proof {
                    assert(resolves(
                        *find,
                        *is_file,
                        context.game_dir@,
                        wrappers@[i as int]@,
                        Some(p@),
                    ));
                    assert(wrapper_found(*find, *is_file, context.game_dir@, wrappers@[i as int]@));
                }
                command.push(p);
            },
            None => {
                let mut m = owned("launcher wrapper not found: ");
                push_str(&mut m, wrappers[i].as_str());
                assert(wrapper_texts[i as int] == wrappers@[i as int]@);
                return Err(KalesaError::InvalidRuntimeConfig(m));
            },
        }
        i += 1;
    }
    let ghost ws = texts(command@);
    let ghost mut part: Seq<Seq<char>> = Seq::empty();
    let kind = context.config.runner.runner_type.as_str();
    if str_eq(kind, "native") {
        command.push(context.target.clone());
        proof {
            part = seq![context.target@];
        }
    } else if str_eq(kind, "wine") {
        let name = owned("wine");
        let wine = find(&name);
        assert(found(*find, "wine"@, opt_text(wine)));
        match wine {
            Some(w) => {
                let ghost wv = w@;
                command.push(w);
                command.push(context.target.clone());
                proof {
                    part = seq![wv, context.target@];
                }
            },
            None => {
                return Err(KalesaError::InvalidRuntimeConfig(owned("wine was not found in PATH")));
            },
        }
    } else if str_eq(kind, "proton") {
        let proton = context.config.runner.proton.as_ref().unwrap();
        let path = resolve_path(context.game_dir.as_str(), proton.path.as_str());
        let answer = is_file(&path);
        assert(probed(*is_file, path@, answer));
        if !answer {
            let mut m = owned("Proton executable not found: ");
            push_str(&mut m, path.as_str());
            return Err(KalesaError::InvalidRuntimeConfig(m));
        }
        let ghost pv = path@;
        command.push(path);
        command.push(owned("run"));
        command.push(context.target.clone());
        proof {
            part = seq![pv, "run"@, context.target@];
        }
    } else {
        let mut m = owned("unsupported runner.type '");
        push_str(&mut m, kind);
        push_str(&mut m, "'");
        return Err(KalesaError::InvalidRuntimeConfig(m));
    }
    proof {
        assert(texts(command@) =~= ws + part);
        assert(runner_part(*context, *find, *is_file, part));
    }
    let ghost before_args = texts(command@);
    let args = &context.config.launch.args;
    let mut k: usize = 0;
    while k < args.len()
        invariant
            k <= args.len(),
            texts(command@) == before_args + texts(args@).take(k as int),
        decreases args.len() - k,
    {
        let ghost prev = texts(command@);
        let a = args[k].clone();
        command.push(a);
        assert(texts(command@) =~= prev.push(args@[k as int]@));
        k += 1;
        assert(texts(args@).take(k as int) =~= texts(args@).take(k - 1).push(args@[k - 1]@));
        assert(texts(command@) =~= before_args + texts(args@).take(k as int));
    }
    assert(texts(args@).take(args.len() as int) =~= texts(args@));
    let ghost before_extra = texts(command@);
    let mut k: usize = 0;
    while k < extra_args.len()
        invariant
            k <= extra_args.len(),
            texts(command@) == before_extra + texts(extra_args@).take(k as int),
        decreases extra_args.len() - k,
    {
        let ghost prev = texts(command@);
        let a = extra_args[k].clone();
        command.push(a);
        assert(texts(command@) =~= prev.push(extra_args@[k as int]@));
        k += 1;
        assert(texts(extra_args@).take(k as int) =~= texts(extra_args@).take(k - 1).push(
            extra_args@[k - 1]@,
        ));
        assert(texts(command@) =~= before_extra + texts(extra_args@).take(k as int));
    }
    assert(texts(extra_args@).take(extra_args.len() as int) =~= texts(extra_args@));
    proof {
        assert(texts(command@) == ws + part + texts(args@) + texts(extra_args@));
    }
    Ok(command)
}

/// The variables that Wine and Proton launches add to the environment: the
/// prefix (resolved against the game directory) and the architecture.
pub fn runner_environment(context: &RuntimeContext) -> (r: Vec<(String, String)>)
    requires
        (context.config.runner.runner_type@ == "wine"@ || context.config.runner.runner_type@
            == "proton"@) ==> context.config.runner.wine is Some,
    ensures
        (context.config.runner.runner_type@ == "wine"@ || context.config.runner.runner_type@
            == "proton"@) ==> ({
            let w = context.config.runner.wine->0;
            r@.len() == 2 && r@[0].0@ == "WINEPREFIX"@ && r@[0].1@ == resolved(
                context.game_dir@,
                w.prefix@,
            ) && r@[1].0@ == "WINEARCH"@ && r@[1].1@ == w.arch@
        }),
        !(context.config.runner.runner_type@ == "wine"@ || context.config.runner.runner_type@
            == "proton"@) ==> r@.len() == 0,
{
    let mut r: Vec<(String, String)> = Vec::new();
    let kind = context.config.runner.runner_type.as_str();
    if str_eq(kind, "wine") || str_eq(kind, "proton") {
        match &context.config.runner.wine {
            Some(w) => {
                r.push(
                    (owned("WINEPREFIX"), resolve_path(context.game_dir.as_str(), w.prefix.as_str())),
                );
                r.push((owned("WINEARCH"), w.arch.clone()));
            },
            None => {},
        }
    }
    r
}

/// Characters that a displayed command word may hold without quotes.
pub open spec fn plain_char(c: char) -> bool {
    is_ascii_alnum(c) || c == '_' || c == '.' || c == '/' || c == ':' || c == '-'
}

/// A word of a displayed command: as it is when it holds only plain
/// characters, single-quoted otherwise.
pub open spec fn display_word(v: Seq<char>) -> Seq<char> {
    if forall|i: int| 0 <= i < v.len() ==> plain_char(#[trigger] v[i]) {
        v
    } else {
        single_quoted(v)
    }
}

pub fn shell_quote(value: &str) -> (r: String)
    ensures
        r@ == display_word(value@),
{
    let v = chars_of(value);
    let mut i: usize = 0;
    while i < v.len()
        invariant
            i <= v.len(),
            v@ == value@,
            forall|j: int| 0 <= j < i ==> plain_char(#[trigger] v@[j]),
        decreases v.len() - i,
    {
        let c = v[i];
        if !(is_ascii_alphanumeric(c) || c == '_' || c == '.' || c == '/' || c == ':' || c == '-') {
            assert(!plain_char(value@[i as int]));
            return crate::generators::launcher::escape::shell_single_quote(value);
        }
        i += 1;
    }
    owned(value)
}

/// The displayed command: its words, each as `display_word` writes it,
/// separated by single spaces.
pub open spec fn command_text(cs: Seq<Seq<char>>) -> Seq<char>
    decreases cs.len(),
{
    if cs.len() == 0 {
        Seq::empty()
    } else if cs.len() == 1 {
        display_word(cs[0])
    } else {
        command_text(cs.drop_last()) + " "@ + display_word(cs.last())
    }
}

pub fn render_command(command: &Vec<String>) -> (r: String)
    ensures
        r@ == command_text(texts(command@)),
{
    let ghost cs = texts(command@);
    let mut out = String::new();
    let mut i: usize = 0;
    while i < command.len()
        invariant
            i <= command.len(),
            cs == texts(command@),
            out@ == command_text(cs.take(i as int)),
        decreases command.len() - i,
    {
        assert(cs.take(i + 1).drop_last() =~= cs.take(i as int));
        assert(cs.take(i + 1).last() == command@[i as int]@);
        if i > 0 {
            push_str(&mut out, " ");
        }
        let w = shell_quote(command[i].as_str());
        push_str(&mut out, w.as_str());
        i += 1;
        assert(i == 1 ==> cs.take(i as int)[0] == command@[0]@);
        assert(out@ =~= command_text(cs.take(i as int)));
    }
    assert(cs.take(command.len() as int) =~= cs);
    out
}

/// The result of a finished launch: success, or the failure with its command
/// line and exit code.
pub fn exit_result(success: bool, code: Option<i32>, command: String) -> (r: Result<
    (),
    KalesaError,
>)
    ensures
        success ==> r is Ok,
        !success ==> r == Err::<(), KalesaError>(KalesaError::CommandFailed { command, code }),
{
    if success {
        Ok(())
    } else {
        Err(KalesaError::CommandFailed { command, code })
    }
}

} // verus!
