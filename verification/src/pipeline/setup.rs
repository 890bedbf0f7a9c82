//! Setting a game up, step by step: the checks on the request, the game that
//! is prepared (type, metadata, runner, work directory) and the icon that
//! goes with it. The caller does the file system work between the steps.
use vstd::prelude::*;

use crate::domain::game::opt_text;
use crate::domain::runner::{backend_runner, runner_model, RunnerModel};
use crate::domain::{
    BinaryType, GameMetadata, GameTarget, LaunchOptions, Runner, RunnerBackend, RunnerKind,
};
use crate::error::{is_desktop_error, KalesaError};
use crate::generators::config::{clone_opt, clone_strings};
use crate::generators::icon::{extract_pe_icon, pe_icon_png};
use crate::paths::{
    extension, extension_of, is_absolute, join, join_path, lemma_parent_is_dir, lemma_parent_join,
    parent, parent_of,
};
use crate::pipeline::detect::{detect, detected, detection, Detection};
use crate::pipeline::metadata::{collect, collected, dotted, dotted_of, fs_callable, XdgEnv};
use crate::runtime::{game_dir_of, resolved};
use crate::text::{chars_of, find_char, first_index, lemma_first_index, owned, push_char};

verus! {

/// What the user asked of a setup.
#[derive(Debug, Clone)]
pub struct SetupOptions {
    pub name: Option<String>,
    pub developer: Option<String>,
    pub version: Option<String>,
    pub description: Option<String>,
    pub categories: Vec<String>,
    pub icon: Option<String>,
    pub runner: RunnerBackend,
    pub wine_prefix: Option<String>,
    pub proton_path: Option<String>,
    pub launch: LaunchOptions,
    pub force: bool,
}

/// Nothing asked beyond the defaults: no overrides, the automatic runner,
/// no launch options, no overwriting.
pub open spec fn plain_options(o: SetupOptions) -> bool {
    &&& o.developer is None
    &&& o.version is None
    &&& o.description is None
    &&& o.categories@.len() == 0
    &&& o.icon is None
    &&& o.runner == RunnerBackend::Auto
    &&& o.wine_prefix is None
    &&& o.proton_path is None
    &&& o.launch.args@.len() == 0
    &&& o.launch.env@ == Map::<String, String>::empty()
    &&& o.launch.env.deep_view() == Map::<Seq<char>, Seq<char>>::empty()
    &&& o.launch.wrappers@.len() == 0
}

impl Default for SetupOptions {
    fn default() -> (o: Self)
        ensures
            plain_options(o),
            o.name is None,
            !o.force,
    {
        SetupOptions {
            name: None,
            developer: None,
            version: None,
            description: None,
            categories: Vec::new(),
            icon: None,
            runner: RunnerBackend::default(),
            wine_prefix: None,
            proton_path: None,
            launch: LaunchOptions::default(),
            force: false,
        }
    }
}

/// The setup of `kalesa <target> [--name <name>] [--force]`: the given name
/// and `force`, the defaults otherwise.
pub fn run(custom_name: Option<String>, force: bool) -> (o: SetupOptions)
    ensures
        plain_options(o),
        o.name == custom_name,
        o.force == force,
{
    SetupOptions { name: custom_name, force, ..SetupOptions::default() }
}

/// `KEY=VALUE` split at its first `=`.
pub open spec fn assignment(s: Seq<char>) -> Option<(Seq<char>, Seq<char>)> {
    match first_index(s, '=') {
        Some(i) => Some((s.take(i), s.skip(i + 1))),
        None => None,
    }
}

fn chars_between(v: &Vec<char>, from: usize, to: usize) -> (r: String)
    requires
        from <= to <= v.len(),
    ensures
        r@ == v@.subrange(from as int, to as int),
{
    let mut r = String::new();
    let mut i: usize = from;
    while i < to
        invariant
            from <= i <= to <= v.len(),
            r@ == v@.subrange(from as int, i as int),
        decreases to - i,
    {
        push_char(&mut r, v[i]);
        i += 1;
        assert(r@ =~= v@.subrange(from as int, i as int));
    }
    r
}

/// Reads an environment variable given as `KEY=VALUE`; without `=` the
/// whole text is reported as an invalid name.
pub fn parse_env_assignment(s: &str) -> (r: Result<(String, String), KalesaError>)
    ensures
        match assignment(s@) {
            Some((k, v)) => r matches Ok((a, b)) && a@ == k && b@ == v,
            None => r matches Err(KalesaError::InvalidEnvironmentName(n)) && n@ == s@,
        },
{
    let v = chars_of(s);
    match find_char(&v, '=') {
        None => Err(KalesaError::InvalidEnvironmentName(owned(s))),
        Some(i) => {
            proof {
                lemma_first_index(v@, '=');
            }
            let key = chars_between(&v, 0, i);
            let value = chars_between(&v, i + 1, v.len());
            assert(v@.subrange(0, i as int) =~= v@.take(i as int));
            assert(v@.subrange(i + 1, v.len() as int) =~= v@.skip(i + 1));
            Ok((key, value))
        },
    }
}

/// The target must exist and be a file; the error names it.
pub fn validate_target(target_path: &str, exists: bool, is_file: bool) -> (r: Result<
    (),
    KalesaError,
>)
    ensures
        !exists ==> (r matches Err(KalesaError::TargetNotFound(p)) && p@ == target_path@),
        exists && !is_file ==> (r matches Err(KalesaError::TargetNotFile(p)) && p@
            == target_path@),
        exists && is_file ==> r is Ok,
{
    if !exists {
        return Err(KalesaError::TargetNotFound(owned(target_path)));
    }
    if !is_file {
        return Err(KalesaError::TargetNotFile(owned(target_path)));
    }
    Ok(())
}

/// The checks made before anything is read: the target, then the launch
/// options.
pub fn check_request(target_path: &str, exists: bool, is_file: bool, options: &SetupOptions) -> (r:
    Result<(), KalesaError>)
    ensures
        !exists ==> (r matches Err(KalesaError::TargetNotFound(p)) && p@ == target_path@),
        exists && !is_file ==> (r matches Err(KalesaError::TargetNotFile(p)) && p@
            == target_path@),
        exists && is_file ==> crate::domain::game::env_checked(options.launch.env, r),
{
    match validate_target(target_path, exists, is_file) {
        Err(e) => return Err(e),
        Ok(()) => {},
    }
    options.launch.validate()
}

/// `new` is `old` with every field that `o` sets replaced by it; the
/// categories are replaced only by a non-empty list.
pub open spec fn overridden(old: GameMetadata, o: SetupOptions, new: GameMetadata) -> bool {
    &&& new.name == old.name
    &&& new.developer == (if o.developer is Some {
        o.developer
    } else {
        old.developer
    })
    &&& new.version == (if o.version is Some {
        o.version
    } else {
        old.version
    })
    &&& new.description == (if o.description is Some {
        o.description
    } else {
        old.description
    })
    &&& new.categories@ == (if o.categories@.len() > 0 {
        o.categories@
    } else {
        old.categories@
    })
    &&& new.icon_path == (if o.icon is Some {
        o.icon
    } else {
        old.icon_path
    })
}

/// Applies the metadata that the user gave.
pub fn apply_overrides(metadata: &mut GameMetadata, options: &SetupOptions)
    ensures
        overridden(*old(metadata), *options, *final(metadata)),
{
    if options.developer.is_some() {
        metadata.developer = clone_opt(&options.developer);
    }
    if options.version.is_some() {
        metadata.version = clone_opt(&options.version);
    }
    if options.description.is_some() {
        metadata.description = clone_opt(&options.description);
    }
    if options.categories.len() > 0 {
        metadata.categories = clone_strings(&options.categories);
    }
    if options.icon.is_some() {
        metadata.icon_path = clone_opt(&options.icon);
    }
}

pub open spec fn foreign_runner_message() -> Seq<char> {
    "Wine/Proton runners can only be selected for Windows PE targets"@
}

/// What checking `runner` for a game of `binary_type` gives: Wine and Proton
/// only for Windows executables, Proton with its executable, Wine with a
/// prefix.
pub open spec fn runner_checked(binary_type: BinaryType, m: RunnerModel, r: Result<
    (),
    KalesaError,
>) -> bool {
    if m.kind.uses_prefix() && binary_type != BinaryType::WindowsPe {
        is_desktop_error(r, foreign_runner_message())
    } else if m.kind == RunnerKind::Proton && m.proton_path is None {
        r matches Err(KalesaError::MissingProtonPath)
    } else if m.kind == RunnerKind::Wine && m.wine_prefix is None {
        r matches Err(KalesaError::MissingWinePrefix)
    } else {
        r is Ok
    }
}

/// Checks that `runner` can run `target`.
pub fn validate_runner(target: &GameTarget, runner: &Runner) -> (r: Result<(), KalesaError>)
    ensures
        runner_checked(target.binary_type, runner_model(*runner), r),
{
    if (runner.is_wine() || runner.is_proton()) && !target.binary_type.is_windows() {
        return Err(
            KalesaError::InvalidDesktopValue(
                owned("Wine/Proton runners can only be selected for Windows PE targets"),
            ),
        );
    }
    if runner.is_proton() && runner.proton_path.is_none() {
        return Err(KalesaError::MissingProtonPath);
    }
    if runner.is_wine() && runner.wine_prefix.is_none() {
        return Err(KalesaError::MissingWinePrefix);
    }
    Ok(())
}

/// `.workdir` beside the game and its three subdirectories.
#[derive(Debug, Clone, PartialEq, Eq)]
pub struct WorkDir {
    pub root: String,
    pub config: String,
    pub bin: String,
    pub icons: String,
}

/// `w` is the work directory of a game in `base_dir`.
pub open spec fn workdir_of(w: WorkDir, base_dir: Seq<char>) -> bool {
    &&& w.root@ == join(base_dir, ".workdir"@)
    &&& w.config@ == join(w.root@, "config"@)
    &&& w.bin@ == join(w.root@, "bin"@)
    &&& w.icons@ == join(w.root@, "icons"@)
}

impl WorkDir {
    pub fn new(base_dir: &str) -> (w: Self)
        ensures
            workdir_of(w, base_dir@),
    {
        let root = join_path(base_dir, ".workdir");
        WorkDir {
            config: join_path(root.as_str(), "config"),
            bin: join_path(root.as_str(), "bin"),
            icons: join_path(root.as_str(), "icons"),
            root,
        }
    }

    /// The directories to create, parents first.
    pub fn dirs(&self) -> (r: Vec<String>)
        ensures
            r@ == seq![self.root, self.config, self.bin, self.icons],
    {
        let mut r: Vec<String> = Vec::new();
        r.push(self.root.clone());
        r.push(self.config.clone());
        r.push(self.bin.clone());
        r.push(self.icons.clone());
        r
    }

    /// `config/config.yaml`.
    pub fn config_file(&self) -> (r: String)
        ensures
            r@ == join(self.config@, "config.yaml"@),
    {
        join_path(self.config.as_str(), "config.yaml")
    }

    /// `config/config.yaml.example`.
    pub fn example_file(&self) -> (r: String)
        ensures
            r@ == join(self.config@, "config.yaml.example"@),
    {
        join_path(self.config.as_str(), "config.yaml.example")
    }

    /// `bin/launch.sh`.
    pub fn launch_file(&self) -> (r: String)
        ensures
            r@ == join(self.bin@, "launch.sh"@),
    {
        join_path(self.bin.as_str(), "launch.sh")
    }
}

/// A game ready to have its files written.
#[derive(Debug, Clone)]
pub struct Prepared {
    pub target: GameTarget,
    pub target_dir: String,
    pub metadata: GameMetadata,
    pub runner: Runner,
    pub workdir: WorkDir,
}

pub open spec fn no_parent_message() -> Seq<char> {
    "target has no parent directory"@
}

/// What preparing the game whose executable is at `canonical`, with bytes
/// `contents`, comes to: its directory, then its type, then the runner
/// chosen by the options, checked; the metadata found on the file system with
/// the user's overrides.
pub open spec fn prepare_result<
    G: Fn(&String) -> bool,
    H: Fn(&String) -> Vec<String>,
    R: Fn(&String) -> Option<String>,
>(
    is_file: G,
    list_dir: H,
    read: R,
    env: XdgEnv,
    canonical: Seq<char>,
    contents: Seq<u8>,
    o: SetupOptions,
    r: Result<Prepared, KalesaError>,
) -> bool {
    match parent(canonical) {
        None => is_desktop_error(r, no_parent_message()),
        Some(dir) => match detection(canonical, contents) {
            Detection::Found(bt) => {
                let rm = backend_runner(
                    bt,
                    dir,
                    o.runner,
                    opt_text(o.wine_prefix),
                    opt_text(o.proton_path),
                );
                match r {
                    Ok(p) => {
                        &&& runner_checked(bt, rm, Ok(()))
                        &&& p.target.path@ == canonical
                        &&& p.target.binary_type == bt
                        &&& p.target_dir@ == dir
                        &&& runner_model(p.runner) == rm
                        &&& workdir_of(p.workdir, dir)
                        &&& exists|m: GameMetadata|
                            #[trigger] collected(
                                is_file,
                                list_dir,
                                read,
                                env,
                                p.target,
                                opt_text(o.name),
                                m,
                            ) && overridden(m, o, p.metadata)
                    },
                    Err(e) => runner_checked(bt, rm, Err(e)),
                }
            },
            _ => match r {
                Err(e) => detected(canonical, contents, Err(e)),
                Ok(_) => false,
            },
        },
    }
}

proof fn lemma_prepared<
    G: Fn(&String) -> bool,
    H: Fn(&String) -> Vec<String>,
    R: Fn(&String) -> Option<String>,
>(
    is_file: G,
    list_dir: H,
    read: R,
    env: XdgEnv,
    target: GameTarget,
    o: SetupOptions,
    m: GameMetadata,
    p: Prepared,
)
    requires
        collected(is_file, list_dir, read, env, target, opt_text(o.name), m),
        overridden(m, o, p.metadata),
        p.target == target,
    ensures
        exists|m2: GameMetadata|
            #[trigger] collected(is_file, list_dir, read, env, p.target, opt_text(o.name), m2)
                && overridden(m2, o, p.metadata),
{
}

/// Prepares the game whose executable, canonicalized, is `canonical` and
/// whose bytes are `contents`: its directory, its type, its metadata (asking
/// the file system through `is_file`, `list_dir` and `read`), the user's
/// overrides, its runner, checked, and its work directory.
pub fn prepare<G: Fn(&String) -> bool, H: Fn(&String) -> Vec<String>, R: Fn(&String) -> Option<String>>(
    canonical: String,
    contents: &[u8],
    options: &SetupOptions,
    env: &XdgEnv,
    is_file: &G,
    list_dir: &H,
    read: &R,
) -> (r: Result<Prepared, KalesaError>)
    requires
        fs_callable(*is_file, *list_dir, *read),
    ensures
        prepare_result(*is_file, *list_dir, *read, *env, canonical@, contents@, *options, r),
{
    let target_dir = match parent_of(canonical.as_str()) {
        Some(d) => d,
        None => {
            return Err(KalesaError::InvalidDesktopValue(owned("target has no parent directory")));
        },
    };
    let binary_type = match detect(canonical.as_str(), contents) {
        Ok(t) => t,
        Err(e) => return Err(e),
    };
    let target = GameTarget::new(canonical, binary_type);
    let custom_name = match &options.name {
        Some(n) => Some(n.as_str()),
        None => None,
    };
    assert(crate::generators::desktop::opt_str_text(custom_name) == opt_text(options.name));
    let mut metadata = collect(&target, custom_name, env, is_file, list_dir, read);
    let ghost found = metadata;
    apply_overrides(&mut metadata, options);
    let runner = Runner::for_target_with_backend(
        &target,
        target_dir.as_str(),
        options.runner,
        clone_opt(&options.wine_prefix),
        clone_opt(&options.proton_path),
    );
    match validate_runner(&target, &runner) {
        Err(e) => return Err(e),
        Ok(()) => {},
    }
    let workdir = WorkDir::new(target_dir.as_str());
    let p = Prepared { target, target_dir, metadata, runner, workdir };
    proof {
        lemma_prepared(*is_file, *list_dir, *read, *env, p.target, *options, found, p);
    }
    Ok(p)
}

/// The runner of a prepared game can run it: Wine and Proton only for a
/// Windows executable and always with a Wine prefix, Proton always with its
/// executable.
pub proof fn prepared_runner_fits<
    G: Fn(&String) -> bool,
    H: Fn(&String) -> Vec<String>,
    R: Fn(&String) -> Option<String>,
>(
    is_file: G,
    list_dir: H,
    read: R,
    env: XdgEnv,
    canonical: Seq<char>,
    contents: Seq<u8>,
    o: SetupOptions,
    p: Prepared,
)
    requires
        prepare_result(is_file, list_dir, read, env, canonical, contents, o, Ok(p)),
    ensures
        p.runner.kind.uses_prefix() ==> p.target.binary_type == BinaryType::WindowsPe
            && p.runner.wine_prefix is Some,
        p.runner.kind == RunnerKind::Proton ==> p.runner.proton_path is Some,
{
}

/// Asking for Wine or Proton for an executable that is not a Windows one is
/// refused, with the message that says so.
pub proof fn foreign_runner_refused<
    G: Fn(&String) -> bool,
    H: Fn(&String) -> Vec<String>,
    R: Fn(&String) -> Option<String>,
>(
    is_file: G,
    list_dir: H,
    read: R,
    env: XdgEnv,
    canonical: Seq<char>,
    contents: Seq<u8>,
    o: SetupOptions,
    r: Result<Prepared, KalesaError>,
)
    requires
        parent(canonical) is Some,
        detection(canonical, contents) is Found,
        detection(canonical, contents) != Detection::Found(BinaryType::WindowsPe),
        o.runner == RunnerBackend::Wine || o.runner == RunnerBackend::Proton,
        prepare_result(is_file, list_dir, read, env, canonical, contents, o, r),
    ensures
        is_desktop_error(r, foreign_runner_message()),
{
}

/// The runtime finds the game that the setup prepared: the configuration
/// written to `config/config.yaml` in the work directory leads back to the
/// game's directory, and an absolute executable path is used as it stands.
pub proof fn setup_config_leads_back<
    G: Fn(&String) -> bool,
    H: Fn(&String) -> Vec<String>,
    R: Fn(&String) -> Option<String>,
>(
    is_file: G,
    list_dir: H,
    read: R,
    env: XdgEnv,
    canonical: Seq<char>,
    contents: Seq<u8>,
    o: SetupOptions,
    p: Prepared,
)
    requires
        prepare_result(is_file, list_dir, read, env, canonical, contents, o, Ok(p)),
    ensures
        game_dir_of(join(p.workdir.config@, "config.yaml"@)) == Some(p.target_dir@),
        is_absolute(p.target.path@) ==> resolved(p.target_dir@, p.target.path@) == p.target.path@,
{
    lemma_parent_is_dir(canonical);
    reveal_strlit(".workdir");
    reveal_strlit("config");
    reveal_strlit("config.yaml");
    let b = p.target_dir@;
    lemma_parent_join(b, ".workdir"@);
    lemma_parent_join(p.workdir.root@, "config"@);
    lemma_parent_join(p.workdir.config@, "config.yaml"@);
}

/// The application entry runs the launch script that the setup writes: the
/// `Exec` key of the `game.desktop` built for the game's directory quotes the
/// `bin/launch.sh` of that directory's work directory.
pub proof fn desktop_runs_setup_launcher(
    m: crate::generators::desktop::EntryFields,
    dir: Seq<char>,
    output_dir: Seq<char>,
    force: bool,
    e: crate::generators::desktop::DesktopEntries,
    w: WorkDir,
)
    requires
        crate::generators::desktop::entries_result(m, dir, output_dir, force, Ok(e)),
        workdir_of(w, dir),
    ensures
        exists|pre: Seq<char>, post: Seq<char>|
            e.desktop_content@ == pre + ("\nExec="@ + crate::generators::desktop::exec_quoted(
                join(w.bin@, "launch.sh"@),
            ) + "\n"@) + post,
{
    lemma_launcher_path(dir, w);
    let script = join(w.bin@, "launch.sh"@);
    let n = crate::generators::desktop::value_escaped(m.name);
    let pre = "[Desktop Entry]\nType=Application\nName="@ + n;
    let post = "Icon="@ + crate::generators::desktop::icon_value(m.icon)
        + "\nTerminal=false\nCategories="@ + crate::generators::desktop::categories_value(
        m.categories,
    ) + "\n"@ + crate::generators::desktop::optional_entry("X-Kalesa-Version="@, m.version)
        + crate::generators::desktop::optional_entry("X-Kalesa-Developer="@, m.developer)
        + crate::generators::desktop::optional_entry("Comment="@, m.description);
    reveal_strlit("\nIcon=");
    reveal_strlit("Icon=");
    reveal_strlit("\n");
    assert("\nIcon="@ =~= "\n"@ + "Icon="@);
    assert(e.desktop_content@ =~= pre + ("\nExec="@ + crate::generators::desktop::exec_quoted(script)
        + "\n"@) + post);
}

proof fn lemma_launcher_path(dir: Seq<char>, w: WorkDir)
    requires
        workdir_of(w, dir),
    ensures
        join(w.bin@, "launch.sh"@) == crate::generators::desktop::launcher_path(dir),
{
    reveal_strlit(".workdir");
    reveal_strlit("bin");
    reveal_strlit("launch.sh");
    reveal_strlit(".workdir/bin/launch.sh");
    reveal_strlit("/bin");
    reveal_strlit("/bin/launch.sh");
    let r1 = join(dir, ".workdir"@);
    assert(r1.len() > 0 && r1.last() == 'r');
    let r2 = join(r1, "bin"@);
    assert(r2 =~= r1 + "/bin"@);
    assert(r2.last() == 'n');
    assert(join(r2, "launch.sh"@) =~= r1 + "/bin/launch.sh"@);
    if dir.len() == 0 || dir.last() == '/' {
        assert(join(dir, ".workdir/bin/launch.sh"@) =~= r1 + "/bin/launch.sh"@);
    } else {
        assert(join(dir, ".workdir/bin/launch.sh"@) =~= r1 + "/bin/launch.sh"@);
    }
}

/// What becomes of the game's icon.
#[derive(Debug, Clone, PartialEq, Eq)]
pub enum IconAction {
    /// Write the PNG taken from the executable's resources.
    Extracted { png: Vec<u8>, destination: String },
    /// Copy the icon file that was found or given.
    Copy { source: String, destination: String },
    /// No icon: the desktop uses its theme's icon for games.
    Fallback,
}

/// `icons/game_icon.<ext>`, `png` when the icon has no extension.
pub open spec fn copied_icon(icons: Seq<char>, source: Seq<char>) -> Seq<char> {
    join(
        icons,
        dotted(
            "game_icon"@,
            match extension(source) {
                Some(e) => e,
                None => "png"@,
            },
        ),
    )
}

/// `a` is what becomes of the icon of `p`: a Windows executable without an
/// icon given by the user gets the icon in its resources, if one decodes;
/// otherwise the icon found or given is copied when `is_file` accepts it.
pub open spec fn icon_planned<G: Fn(&String) -> bool>(
    is_file: G,
    p: Prepared,
    explicit_icon: bool,
    contents: Seq<u8>,
    a: IconAction,
) -> bool {
    if p.target.binary_type == BinaryType::WindowsPe && !explicit_icon {
        match pe_icon_png(contents) {
            Some(png) => a matches IconAction::Extracted { png: b, destination: d } && b@ == png
                && d@ == join(p.workdir.icons@, "game_icon.png"@),
            None => a is Fallback,
        }
    } else {
        match p.metadata.icon_path {
            None => a is Fallback,
            Some(s) => {
                ||| (is_file.ensures((&s,), false) && a is Fallback)
                ||| (is_file.ensures((&s,), true) && (a matches IconAction::Copy {
                    source,
                    destination,
                } && source == s && destination@ == copied_icon(p.workdir.icons@, s@)))
            },
        }
    }
}

/// Decides what becomes of the icon of the prepared game whose executable
/// bytes are `contents`.
pub fn icon_action<G: Fn(&String) -> bool>(
    prepared: &Prepared,
    explicit_icon: bool,
    contents: &[u8],
    is_file: &G,
) -> (a: IconAction)
    requires
        forall|s: &String| #[trigger] is_file.requires((s,)),
    ensures
        icon_planned(*is_file, *prepared, explicit_icon, contents@, a),
{
    let icons = prepared.workdir.icons.as_str();
    if prepared.target.binary_type.is_windows() && !explicit_icon {
        return match extract_pe_icon(contents) {
            Some(png) => IconAction::Extracted {
                png,
                destination: join_path(icons, "game_icon.png"),
            },
            None => IconAction::Fallback,
        };
    }
    match &prepared.metadata.icon_path {
        None => IconAction::Fallback,
        Some(found) => {
            if !is_file(found) {
                return IconAction::Fallback;
            }
            let ext = match extension_of(found.as_str()) {
                Some(e) => e,
                None => owned("png"),
            };
            let name = dotted_of("game_icon", ext.as_str());
            IconAction::Copy { source: found.clone(), destination: join_path(icons, name.as_str()) }
        },
    }
}

} // verus!
