use std::collections::BTreeMap;

use kalesa::domain::{BinaryType, GameMetadata, GameTarget, LaunchOptions, Runner, RunnerBackend};
use kalesa::error::KalesaError;
use kalesa::generators::config::{
    build, AppConfig, ExecutableConfig, LaunchConfig, ProtonConfig, RunnerConfig, WineConfig,
    CONFIG_SCHEMA_VERSION,
};
use kalesa::runtime::{
    build_command, check_target, context_of, load, exit_result, render_command, resolve_path,
    runner_environment, shell_quote, validate_config, validate_runner_target, RuntimeContext,
};

fn sample_config() -> AppConfig {
    AppConfig {
        schema_version: CONFIG_SCHEMA_VERSION,
        name: "ChildofLight".into(),
        version: None,
        developer: None,
        description: None,
        categories: Vec::new(),
        runner: RunnerConfig {
            runner_type: "wine".into(),
            wine: Some(WineConfig {
                prefix: "/home/neko/Games/pfx/ChildofLight".into(),
                arch: "win64".into(),
            }),
            proton: None,
        },
        executable: ExecutableConfig { path: "ChildofLight.exe".into() },
        launch: LaunchConfig {
            args: vec!["-fullscreen".into(), "--language=fr".into()],
            env: BTreeMap::from([("DXVK_FRAME_RATE".to_string(), "30".to_string())]),
            wrappers: vec!["gamemoderun".into(), "mangohud".into()],
        },
    }
}

fn sample_context() -> RuntimeContext {
    RuntimeContext {
        config_path: "/games/Child/.workdir/config/config.yaml".into(),
        game_dir: "/games/Child".into(),
        target: "/games/Child/ChildofLight.exe".into(),
        config: sample_config(),
    }
}

fn on_path(name: &String) -> Option<String> {
    Some(name.clone())
}

fn every_file(_: &String) -> bool {
    true
}

#[test]
fn validates_runtime_schema() {
    validate_config(&sample_config()).unwrap();
}

#[test]
fn rejects_unsupported_schema() {
    let mut config = sample_config();
    config.schema_version = 2;
    assert!(matches!(validate_config(&config), Err(KalesaError::InvalidRuntimeConfig(_))));
}

#[test]
fn reports_the_first_config_problem() {
    let mut config = sample_config();
    config.schema_version = 2;
    match validate_config(&config) {
        Err(KalesaError::InvalidRuntimeConfig(m)) => {
            assert_eq!(m, "unsupported schema_version 2; expected 3")
        }
        other => panic!("unexpected {:?}", other),
    }
    let mut config = sample_config();
    config.launch.wrappers.push("  ".into());
    match validate_config(&config) {
        Err(KalesaError::InvalidRuntimeConfig(m)) => assert_eq!(m, "launch wrapper cannot be empty"),
        other => panic!("unexpected {:?}", other),
    }
    let mut config = sample_config();
    config.runner.runner_type = "dosbox".into();
    match validate_config(&config) {
        Err(KalesaError::InvalidRuntimeConfig(m)) => {
            assert_eq!(m, "unsupported runner.type 'dosbox'")
        }
        other => panic!("unexpected {:?}", other),
    }
    let mut config = sample_config();
    config.runner.runner_type = "proton".into();
    assert!(matches!(validate_config(&config), Err(KalesaError::MissingProtonPath)));
    config.runner.proton = Some(ProtonConfig { path: "/opt/proton".into() });
    assert!(validate_config(&config).is_ok());
}

#[test]
fn builds_wrapped_wine_command_with_configured_args() {
    let context = sample_context();

    let command = build_command(&context, &vec!["--debug".into()], &on_path, &every_file).unwrap();
    assert_eq!(command[0], "gamemoderun");
    assert_eq!(command[1], "mangohud");
    assert_eq!(command[2], "wine");
    assert_eq!(command.last().unwrap(), "--debug");
    assert!(command.contains(&"30".into()) == false);
}

#[test]
fn missing_wrapper_is_reported() {
    let context = sample_context();
    let nowhere = |_: &String| -> Option<String> { None };
    match build_command(&context, &vec![], &nowhere, &every_file) {
        Err(KalesaError::InvalidRuntimeConfig(m)) => {
            assert_eq!(m, "launcher wrapper not found: gamemoderun")
        }
        other => panic!("unexpected {:?}", other),
    }
}

#[test]
fn context_locates_game_directory() {
    let context = context_of("/games/Child/.workdir/config/config.yaml".into(), sample_config()).unwrap();
    assert_eq!(context.game_dir, "/games/Child");
    assert_eq!(context.target, "/games/Child/ChildofLight.exe");
    match context_of("/config.yaml".into(), sample_config()) {
        Err(KalesaError::InvalidRuntimeConfig(m)) => {
            assert_eq!(m, "configuration is not inside .workdir/config")
        }
        other => panic!("unexpected {:?}", other.map(|c| c.game_dir)),
    }
}

#[test]
fn target_must_exist_and_suit_the_runner() {
    let context = sample_context();
    let elf = |_: &String| -> Result<Vec<u8>, KalesaError> {
        let mut data = vec![0u8; 16];
        data[..4].copy_from_slice(b"\x7fELF");
        data[4] = 2;
        data[5] = 1;
        data[6] = 1;
        Ok(data)
    };
    let missing = |_: &String| false;
    assert!(matches!(
        check_target(&context, &missing, &elf),
        Err(KalesaError::TargetNotFound(p)) if p == "/games/Child/ChildofLight.exe"
    ));
    match check_target(&context, &every_file, &elf) {
        Err(KalesaError::InvalidRuntimeConfig(m)) => assert_eq!(
            m,
            "runner 'wine' requires a Windows PE executable; detected linux"
        ),
        other => panic!("unexpected {:?}", other),
    }
    assert!(validate_runner_target("native", BinaryType::LinuxElf).is_ok());
}

#[test]
fn wine_environment_and_display() {
    let env = runner_environment(&sample_context());
    assert_eq!(
        env,
        vec![
            ("WINEPREFIX".to_string(), "/home/neko/Games/pfx/ChildofLight".to_string()),
            ("WINEARCH".to_string(), "win64".to_string()),
        ]
    );
    assert_eq!(resolve_path("/g", "pfx"), "/g/pfx");
    assert_eq!(shell_quote("a b"), "'a b'");
    assert_eq!(shell_quote("/usr/bin/wine"), "/usr/bin/wine");
    assert_eq!(render_command(&vec!["wine".into(), "My Game.exe".into()]), "wine 'My Game.exe'");
}

#[test]
fn exit_status_maps_to_result() {
    assert!(exit_result(true, Some(0), "x".into()).is_ok());
    assert!(matches!(
        exit_result(false, Some(3), "x".into()),
        Err(KalesaError::CommandFailed { code: Some(3), .. })
    ));
}

#[test]
fn runtime_accepts_what_setup_builds() {
    let target = GameTarget::new("/g/game.exe".to_string(), BinaryType::WindowsPe);
    let runner = Runner::for_target_with_backend(
        &target,
        "/g",
        RunnerBackend::Proton,
        None,
        Some("/opt/proton/proton".into()),
    );
    let launch = LaunchOptions {
        args: vec!["-x".into()],
        env: BTreeMap::from([("DXVK_HUD".to_string(), "1".to_string())]),
        wrappers: vec!["gamemoderun".into()],
    };
    let config = build(&target, &GameMetadata::new("Game".into(), None), &runner, &launch).unwrap();
    assert!(validate_config(&config).is_ok());
}

#[test]
fn load_checks_locates_and_checks_the_target() {
    let path = "/games/Child/.workdir/config/config.yaml".to_string();
    let pe = |_: &String| -> Result<Vec<u8>, KalesaError> {
        let mut data = vec![0u8; 0x40];
        data[0..2].copy_from_slice(b"MZ");
        data[0x3C..0x40].copy_from_slice(&(0x40u32).to_le_bytes());
        data.extend_from_slice(b"PE\0\0");
        data.extend_from_slice(&[0; 20]);
        Ok(data)
    };
    let context = load(path.clone(), sample_config(), &every_file, &pe).unwrap();
    assert_eq!(context.game_dir, "/games/Child");
    assert_eq!(context.target, "/games/Child/ChildofLight.exe");
    let missing = |_: &String| false;
    assert!(matches!(
        load(path.clone(), sample_config(), &missing, &pe),
        Err(KalesaError::TargetNotFound(p)) if p == "/games/Child/ChildofLight.exe"
    ));
    let mut config = sample_config();
    config.schema_version = 1;
    assert!(matches!(
        load(path, config, &every_file, &pe),
        Err(KalesaError::InvalidRuntimeConfig(_))
    ));
}
