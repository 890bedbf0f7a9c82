use std::collections::BTreeMap;

use kalesa::config::write_config;
use kalesa::domain::{BinaryType, GameMetadata, GameTarget, LaunchOptions, Runner, RunnerBackend};
use kalesa::error::KalesaError;
use kalesa::generators::config::{build, CONFIG_SCHEMA_VERSION};
use kalesa::generators::desktop::{
    desktop_exec_quote, desktop_value_escape, write_allowed, write_with_metadata,
};
use kalesa::generators::launcher::escape::{bash_quote, push_array, push_env, shell_single_quote};
use kalesa::generators::launcher::render::render;
use kalesa::generators::launcher::{launch_script, thin_script, LAUNCHER_FORMAT_VERSION};
use kalesa::launcher::{shell_quote, write_desktop_entries, write_launch_script};

#[test]
fn shell_quote_handles_single_quotes() {
    assert_eq!(shell_single_quote("a'b"), "'a'\\''b'");
}

#[test]
fn shell_quote_handles_spaces_and_single_quotes() {
    let path = "/tmp/My Game's [1998].exe";
    assert_eq!(shell_quote(path).unwrap(), r#"'/tmp/My Game'\''s [1998].exe'"#);
}

#[test]
fn renders_without_yaml_parser() {
    let target = GameTarget::new("Child of Light.exe".to_string(), BinaryType::WindowsPe);
    let runner = Runner::for_target_with_backend(
        &target,
        "/Games/Child of Light",
        RunnerBackend::Wine,
        None,
        None,
    );
    let mut env = BTreeMap::new();
    env.insert("WINEDEBUG".to_string(), "-all".to_string());
    let launch = LaunchOptions {
        args: vec!["--language=fr".into(), "argument with spaces".into()],
        env,
        wrappers: vec!["gamemoderun".into(), "mangohud".into()],
    };

    let rendered = render(
        &target,
        &GameMetadata::new("Child of Light".into(), None),
        &runner,
        &launch,
        LAUNCHER_FORMAT_VERSION,
        CONFIG_SCHEMA_VERSION,
    )
    .unwrap();

    assert!(rendered.content.contains("Kalesa launcher format: 4"));
    assert!(rendered.content.contains("Kalesa config schema: 3"));
    assert!(rendered.content.contains("Child of Light.exe"));
    assert!(rendered.content.contains("WINEDEBUG='-all'"));
    assert!(rendered.content.contains("'argument with spaces'"));
    assert!(!rendered.content.contains("awk '"));
    assert!(!rendered.content.contains("yq"));
    assert!(!rendered.content.contains("eval "));
    assert!(!rendered.content.contains("sh -c"));
}

#[test]
fn render_rejects_nul_in_arguments() {
    let target = GameTarget::new("game".to_string(), BinaryType::LinuxElf);
    let runner = Runner::for_target(&target, "/g");
    let launch = LaunchOptions {
        args: vec!["a\0b".into()],
        env: BTreeMap::new(),
        wrappers: vec![],
    };
    let r = render(
        &target,
        &GameMetadata::new("Game".into(), None),
        &runner,
        &launch,
        LAUNCHER_FORMAT_VERSION,
        CONFIG_SCHEMA_VERSION,
    );
    match r {
        Err(KalesaError::InvalidDesktopValue(m)) => {
            assert_eq!(m, "launcher value cannot contain NUL")
        }
        other => panic!("unexpected {:?}", other),
    }
}

#[test]
fn generates_thin_schema_v3_runtime_launcher() {
    let target = GameTarget::new("/games/My Game/game.exe".to_string(), BinaryType::WindowsPe);
    let metadata = GameMetadata::new("My Game".into(), None);
    let runner = Runner::for_target_with_backend(
        &target,
        "/games/My Game",
        RunnerBackend::Wine,
        None,
        None,
    );
    let launch = LaunchOptions {
        args: vec!["hello world".into()],
        env: BTreeMap::from([("WINEDEBUG".to_string(), "-all".to_string())]),
        wrappers: vec!["gamemoderun".into()],
    };

    let content =
        launch_script("/usr/bin/kalesa", &target, &metadata, &runner, &launch).unwrap();

    assert!(content.contains("Kalesa launcher format: 4"));
    assert!(content.contains("CONFIG_FILE=\"$GAME_DIR/.workdir/config/config.yaml\""));
    assert!(content.contains("--launch-config \"$CONFIG_FILE\""));
    assert!(!content.contains("awk"));
    assert!(!content.contains("yq"));
    assert!(!content.contains("CONFIG_ARGS="));
    assert!(!content.contains("CONFIG_WRAPPERS="));
    assert!(!content.contains("WINE_PREFIX_VALUE="));
    assert!(!content.contains("eval "));
    assert!(!content.contains("sh -c"));
}

#[test]
fn thin_launcher_quotes_runtime_path() {
    let content = thin_script("/opt/My Tools/kalesa's");
    assert!(content.contains("KALESA_BIN='/opt/My Tools/kalesa'\\''s'\n"));
    assert!(content.starts_with("#!/bin/bash\n"));
}

#[test]
fn launch_script_rejects_blank_name_and_bad_env() {
    let target = GameTarget::new("/g/game".to_string(), BinaryType::LinuxElf);
    let runner = Runner::for_target(&target, "/g");
    let launch = LaunchOptions { args: vec![], env: BTreeMap::new(), wrappers: vec![] };
    match launch_script("/k", &target, &GameMetadata::new("  ".into(), None), &runner, &launch) {
        Err(KalesaError::InvalidDesktopValue(m)) => assert_eq!(m, "game name cannot be empty"),
        other => panic!("unexpected {:?}", other),
    }
    let bad = LaunchOptions {
        args: vec![],
        env: BTreeMap::from([("1BAD".to_string(), "x".to_string())]),
        wrappers: vec![],
    };
    match launch_script("/k", &target, &GameMetadata::new("G".into(), None), &runner, &bad) {
        Err(KalesaError::InvalidEnvironmentName(k)) => assert_eq!(k, "1BAD"),
        other => panic!("unexpected {:?}", other),
    }
}

#[test]
fn launch_script_windows_uses_safe_quoting() {
    let content = write_launch_script(
        "/tmp/My Game's.exe",
        BinaryType::WindowsPe,
        Some("/tmp/Wine Prefix's"),
    )
    .unwrap();

    assert!(content.contains("exec wine '/tmp/My Game'\\''s.exe'"));
    assert!(content.contains("WINEPREFIX='/tmp/Wine Prefix'\\''s'"));
    assert!(content.starts_with("#!/bin/bash"));
}

#[test]
fn launch_script_linux_runs_absolute_target_safely() {
    let content = write_launch_script("/tmp/My Game's", BinaryType::LinuxElf, None).unwrap();

    assert!(content.contains("TARGET='/tmp/My Game'\\''s'"));
    assert!(!content.contains("wine"));
}

#[test]
fn launch_script_windows_needs_prefix() {
    assert!(matches!(
        write_launch_script("/tmp/game.exe", BinaryType::WindowsPe, None),
        Err(KalesaError::MissingWinePrefix)
    ));
}

#[test]
fn desktop_entries_escape_paths_and_names() {
    let dir = "/tmp/kalesa_desktop_quotes";
    let icon = "/tmp/kalesa_desktop_quotes/My Game's icon.png";

    let entries = write_desktop_entries("My Game's Edition", dir, Some(icon), dir, true).unwrap();

    let content = entries.desktop_content;
    assert_eq!(entries.desktop_path, "/tmp/kalesa_desktop_quotes/game.desktop");
    assert!(content.contains("Name=My Game's Edition"));
    assert!(content.contains("Exec=\""));
    assert!(content.contains("Icon=/tmp") || content.contains("Icon="));
    assert!(content.contains("My Game's icon.png"));
}

#[test]
fn desktop_entries_reject_newlines() {
    let result = write_desktop_entries("bad\nname", "/tmp/d", None, "/tmp/d", true);
    assert!(matches!(result, Err(KalesaError::InvalidDesktopValue(_))));
}

#[test]
fn desktop_entries_are_not_overwritten_without_force() {
    let entries = write_desktop_entries("My Game", "/tmp/d", None, "/tmp/d", false).unwrap();
    assert!(!entries.force);
    assert!(!write_allowed(true, entries.force));
    assert!(write_allowed(false, entries.force));
}

#[test]
fn desktop_entries_are_overwritten_with_force() {
    let entries = write_desktop_entries("My Game", "/tmp/d", None, "/tmp/d", true).unwrap();
    assert!(write_allowed(true, entries.force));
    assert!(entries.desktop_content.contains("My Game"));
    assert_ne!(entries.desktop_content, "ORIGINAL");
}

#[test]
fn desktop_entry_texts_are_exact() {
    let entries = write_desktop_entries("Game", "/g", None, "/out", false).unwrap();
    assert_eq!(
        entries.desktop_content,
        "[Desktop Entry]\nType=Application\nName=Game\nExec=\"/g/.workdir/bin/launch.sh\"\nIcon=applications-games\nTerminal=false\nCategories=Game;\n"
    );
    assert_eq!(
        entries.directory_content,
        "[Desktop Entry]\nType=Directory\nName=Game\nIcon=applications-games\n"
    );
    assert_eq!(entries.directory_path, "/out/.directory");
}

#[test]
fn desktop_entries_with_metadata() {
    let mut metadata = GameMetadata::new("Game".into(), Some("/i/a\\b.png".into()));
    metadata.version = Some("2.1".into());
    metadata.developer = Some("Studio".into());
    metadata.description = Some("Great game".into());
    metadata.categories = vec!["Game".into(), "Emulator".into()];
    let entries = write_with_metadata(&metadata, "/g", "/g", true).unwrap();
    assert_eq!(
        entries.desktop_content,
        "[Desktop Entry]\nType=Application\nName=Game\nExec=\"/g/.workdir/bin/launch.sh\"\nIcon=/i/a\\\\b.png\nTerminal=false\nCategories=Game;Emulator;\nX-Kalesa-Version=2.1\nX-Kalesa-Developer=Studio\nComment=Great game\n"
    );
    metadata.description = Some("two\nlines".into());
    match write_with_metadata(&metadata, "/g", "/g", true) {
        Err(KalesaError::InvalidDesktopValue(m)) => {
            assert_eq!(m, "Desktop Entry value cannot contain a newline")
        }
        other => panic!("unexpected {:?}", other),
    }
}

#[test]
fn desktop_value_escape_doubles_backslashes() {
    assert_eq!(desktop_value_escape("a\\b").unwrap(), "a\\\\b");
    assert!(desktop_value_escape("a\rb").is_err());
}

#[test]
fn desktop_exec_quote_escapes_reserved_characters() {
    assert_eq!(
        desktop_exec_quote("/a\"b$c`d\\e f").unwrap(),
        "\"/a\\\"b\\$c\\`d\\\\e f\""
    );
    match desktop_exec_quote("/a\nb") {
        Err(KalesaError::InvalidDesktopValue(m)) => {
            assert_eq!(m, "Exec path cannot contain a newline")
        }
        other => panic!("unexpected {:?}", other),
    }
}

#[test]
fn bash_arrays_and_exports_are_quoted() {
    let mut out = String::new();
    push_array(&mut out, "ARGS", &vec!["a b".to_string(), "it's".to_string()]).unwrap();
    assert_eq!(out, "ARGS=( 'a b' 'it'\\''s' )\n");
    let mut env_out = String::new();
    let env = BTreeMap::from([
        ("B".to_string(), "2".to_string()),
        ("A".to_string(), "x y".to_string()),
    ]);
    push_env(&mut env_out, &env).unwrap();
    assert!(env_out.contains("export A='x y';\n"));
    assert!(env_out.find("A=").unwrap() < env_out.find("B=").unwrap());
    assert!(bash_quote("nul\0").is_err());
}

#[test]
fn writes_windows_config_with_wine_section() {
    let dir = "/tmp/kalesa_config_test_windows";
    let target = "/tmp/kalesa_config_test_windows/My Game [1998].exe";

    let config = write_config("My Game", target, BinaryType::WindowsPe, dir);

    assert_eq!(config.name, "My Game");
    assert_eq!(config.runner.runner_type, "windows");
    let wine = config.runner.wine.unwrap();
    assert_eq!(wine.prefix, "/tmp/kalesa_config_test_windows/.workdir/wine");
    assert_eq!(wine.arch, "win64");
    assert!(config.executable.path.ends_with("My Game [1998].exe"));
}

#[test]
fn writes_linux_config_without_wine_settings() {
    let dir = "/tmp/kalesa_config_test_linux";
    let target = "/tmp/kalesa_config_test_linux/game.bin";

    let config = write_config("My Game", target, BinaryType::LinuxElf, dir);

    assert_eq!(config.runner.runner_type, "linux");
    assert!(config.executable.path.ends_with("game.bin"));
    assert!(config.runner.wine.is_none());
}

#[test]
fn builds_versioned_config() {
    let target = GameTarget::new("/g/game.exe".to_string(), BinaryType::WindowsPe);
    let runner = Runner::for_target(&target, "/g");
    let mut metadata = GameMetadata::new("Game".into(), None);
    metadata.categories = vec!["Game".into()];
    let launch = LaunchOptions {
        args: vec!["-x".into()],
        env: BTreeMap::from([("WINEDEBUG".to_string(), "-all".to_string())]),
        wrappers: vec!["gamemoderun".into()],
    };
    let config = build(&target, &metadata, &runner, &launch).unwrap();
    assert_eq!(config.schema_version, 3);
    assert_eq!(config.runner.runner_type, "wine");
    assert_eq!(config.runner.wine.as_ref().unwrap().prefix, "/g/.workdir/wine");
    assert!(config.runner.proton.is_none());
    assert_eq!(config.executable.path, "/g/game.exe");
    assert_eq!(config.launch.args, vec!["-x".to_string()]);
    assert_eq!(config.categories, vec!["Game".to_string()]);
    let bad = LaunchOptions {
        args: vec![],
        env: BTreeMap::from([("A-B".to_string(), "x".to_string())]),
        wrappers: vec![],
    };
    assert!(matches!(
        build(&target, &metadata, &runner, &bad),
        Err(KalesaError::InvalidEnvironmentName(_))
    ));
}
