use std::collections::BTreeMap;

use kalesa::domain::{BinaryType, GameMetadata, GameTarget, LaunchOptions, Runner, RunnerBackend, RunnerKind};
use kalesa::error::KalesaError;
use kalesa::generators::icon::{extract_pe_icon, ico_png, icon_group_fits};
use kalesa::icon;
use kalesa::pipeline::metadata::{collect, find_linux_icon, parse_desktop_metadata, XdgEnv};
use kalesa::pipeline::setup::{
    apply_overrides, check_request, icon_action, prepare, run, validate_runner, validate_target,
    IconAction, Prepared, SetupOptions, WorkDir,
};

fn no_env() -> XdgEnv {
    XdgEnv { data_home: None, home: None, data_dirs: None }
}

fn valid_elf() -> Vec<u8> {
    let mut data = vec![0u8; 16];
    data[..4].copy_from_slice(b"\x7fELF");
    data[4] = 2;
    data[5] = 1;
    data[6] = 1;
    data
}

fn valid_pe() -> Vec<u8> {
    let mut data = vec![0u8; 0x40];
    data[0..2].copy_from_slice(b"MZ");
    data[0x3C..0x40].copy_from_slice(&(0x40u32).to_le_bytes());
    data.extend_from_slice(b"PE\0\0");
    data.extend_from_slice(&[0; 20]);
    data
}

/// A 1x1 icon holding one 32-bit DIB image.
fn tiny_ico() -> Vec<u8> {
    let mut ico = vec![0u8, 0, 1, 0, 1, 0];
    ico.extend_from_slice(&[1, 1, 0, 0, 1, 0, 32, 0, 48, 0, 0, 0, 22, 0, 0, 0]);
    let mut header = Vec::new();
    header.extend_from_slice(&40u32.to_le_bytes());
    header.extend_from_slice(&1i32.to_le_bytes());
    header.extend_from_slice(&2i32.to_le_bytes());
    header.extend_from_slice(&1u16.to_le_bytes());
    header.extend_from_slice(&32u16.to_le_bytes());
    header.extend_from_slice(&[0u8; 24]);
    ico.extend_from_slice(&header);
    ico.extend_from_slice(&[0, 0, 255, 255]);
    ico.extend_from_slice(&[0, 0, 0, 0]);
    ico
}

fn nothing_is_file(_: &String) -> bool {
    false
}

fn empty_dir(_: &String) -> Vec<String> {
    Vec::new()
}

fn unreadable(_: &String) -> Option<String> {
    None
}

#[test]
fn workdir_is_created_beside_target() {
    let target_dir = "/games/ChildofLight";
    let workdir = WorkDir::new(target_dir);

    assert_eq!(workdir.root, "/games/ChildofLight/.workdir");
    assert_eq!(workdir.config, "/games/ChildofLight/.workdir/config");
    assert_eq!(workdir.bin, "/games/ChildofLight/.workdir/bin");
    assert_eq!(workdir.icons, "/games/ChildofLight/.workdir/icons");
}

#[test]
fn workdir_files_and_dirs() {
    let workdir = WorkDir::new("/g/");
    assert_eq!(workdir.root, "/g/.workdir");
    assert_eq!(
        workdir.dirs(),
        vec!["/g/.workdir", "/g/.workdir/config", "/g/.workdir/bin", "/g/.workdir/icons"]
    );
    assert_eq!(workdir.config_file(), "/g/.workdir/config/config.yaml");
    assert_eq!(workdir.example_file(), "/g/.workdir/config/config.yaml.example");
    assert_eq!(workdir.launch_file(), "/g/.workdir/bin/launch.sh");
}

#[test]
fn plain_run_options() {
    let options = run(Some("Name".to_string()), true);
    assert_eq!(options.name.as_deref(), Some("Name"));
    assert!(options.force);
    assert_eq!(options.runner, RunnerBackend::Auto);
    assert!(options.categories.is_empty());
    assert!(options.launch.env.is_empty());
    let defaults = SetupOptions::default();
    assert!(defaults.name.is_none());
    assert!(!defaults.force);
}

#[test]
fn request_checks_come_in_order() {
    let options = SetupOptions::default();
    assert!(matches!(
        check_request("/missing", false, false, &options),
        Err(KalesaError::TargetNotFound(p)) if p == "/missing"
    ));
    assert!(matches!(
        validate_target("/dir", true, false),
        Err(KalesaError::TargetNotFile(p)) if p == "/dir"
    ));
    let mut bad = SetupOptions::default();
    bad.launch.env.insert("NOT VALID".to_string(), "x".to_string());
    assert!(matches!(
        check_request("/g/game", true, true, &bad),
        Err(KalesaError::InvalidEnvironmentName(k)) if k == "NOT VALID"
    ));
    assert!(check_request("/g/game", true, true, &options).is_ok());
}

#[test]
fn overrides_replace_only_what_is_given() {
    let mut metadata = GameMetadata::new("Game".into(), Some("/a.png".into()));
    metadata.version = Some("1".into());
    metadata.categories = vec!["Game".into()];
    let mut options = SetupOptions::default();
    options.developer = Some("Studio".into());
    options.icon = Some("/b.png".into());
    apply_overrides(&mut metadata, &options);
    assert_eq!(metadata.developer.as_deref(), Some("Studio"));
    assert_eq!(metadata.version.as_deref(), Some("1"));
    assert_eq!(metadata.icon_path.as_deref(), Some("/b.png"));
    assert_eq!(metadata.categories, vec!["Game".to_string()]);
    options.categories = vec!["Emulator".into()];
    apply_overrides(&mut metadata, &options);
    assert_eq!(metadata.categories, vec!["Emulator".to_string()]);
}

#[test]
fn runner_checks() {
    let linux = GameTarget::new("/g/game".to_string(), BinaryType::LinuxElf);
    let pe = GameTarget::new("/g/game.exe".to_string(), BinaryType::WindowsPe);
    let wine = Runner { kind: RunnerKind::Wine, wine_prefix: Some("/p".into()), proton_path: None };
    match validate_runner(&linux, &wine) {
        Err(KalesaError::InvalidDesktopValue(m)) => {
            assert_eq!(m, "Wine/Proton runners can only be selected for Windows PE targets")
        }
        other => panic!("unexpected {:?}", other),
    }
    let proton = Runner { kind: RunnerKind::Proton, wine_prefix: Some("/p".into()), proton_path: None };
    assert!(matches!(validate_runner(&pe, &proton), Err(KalesaError::MissingProtonPath)));
    let bare = Runner { kind: RunnerKind::Wine, wine_prefix: None, proton_path: None };
    assert!(matches!(validate_runner(&pe, &bare), Err(KalesaError::MissingWinePrefix)));
    assert!(validate_runner(&pe, &wine).is_ok());
}

#[test]
fn prepares_windows_game_with_wine() {
    let options = SetupOptions::default();
    let prepared = prepare(
        "/games/Child/Child.exe".to_string(),
        &valid_pe(),
        &options,
        &no_env(),
        &nothing_is_file,
        &empty_dir,
        &unreadable,
    )
    .unwrap();
    assert_eq!(prepared.target.binary_type, BinaryType::WindowsPe);
    assert_eq!(prepared.target_dir, "/games/Child");
    assert_eq!(prepared.metadata.name, "Child");
    assert_eq!(prepared.runner.kind, RunnerKind::Wine);
    assert_eq!(prepared.runner.wine_prefix.as_deref(), Some("/games/Child/.workdir/wine"));
    assert_eq!(prepared.workdir.icons, "/games/Child/.workdir/icons");
}

#[test]
fn foreign_runner_is_refused_for_linux_target() {
    let mut options = SetupOptions::default();
    options.runner = RunnerBackend::Wine;
    let r = prepare(
        "/games/g/game".to_string(),
        &valid_elf(),
        &options,
        &no_env(),
        &nothing_is_file,
        &empty_dir,
        &unreadable,
    );
    match r {
        Err(KalesaError::InvalidDesktopValue(m)) => {
            assert_eq!(m, "Wine/Proton runners can only be selected for Windows PE targets")
        }
        other => panic!("unexpected {:?}", other.map(|p| p.runner)),
    }
}

#[test]
fn proton_needs_its_executable() {
    let mut options = SetupOptions::default();
    options.runner = RunnerBackend::Proton;
    let r = prepare(
        "/games/g/game.exe".to_string(),
        &valid_pe(),
        &options,
        &no_env(),
        &nothing_is_file,
        &empty_dir,
        &unreadable,
    );
    assert!(matches!(r, Err(KalesaError::MissingProtonPath)));
}

#[test]
fn prepare_reports_no_parent_and_bad_binaries() {
    let options = SetupOptions::default();
    let r = prepare("/".to_string(), &valid_elf(), &options, &no_env(), &nothing_is_file, &empty_dir, &unreadable);
    match r {
        Err(KalesaError::InvalidDesktopValue(m)) => assert_eq!(m, "target has no parent directory"),
        other => panic!("unexpected {:?}", other.map(|p| p.target)),
    }
    let r = prepare(
        "/g/game".to_string(),
        b"\x7fELF",
        &options,
        &no_env(),
        &nothing_is_file,
        &empty_dir,
        &unreadable,
    );
    assert!(matches!(r, Err(KalesaError::InvalidElf(p)) if p == "/g/game"));
}

#[test]
fn prepare_applies_custom_name_and_overrides() {
    let mut options = run(Some("My Game".to_string()), false);
    options.description = Some("Great".into());
    let prepared = prepare(
        "/g/game".to_string(),
        &valid_elf(),
        &options,
        &no_env(),
        &nothing_is_file,
        &empty_dir,
        &unreadable,
    )
    .unwrap();
    assert_eq!(prepared.metadata.name, "My Game");
    assert_eq!(prepared.metadata.description.as_deref(), Some("Great"));
    assert_eq!(prepared.runner.kind, RunnerKind::Native);
    assert_eq!(prepared.runner.wine_prefix, None);
}

fn prepared_linux(icon: Option<&str>) -> Prepared {
    let mut options = SetupOptions::default();
    options.icon = icon.map(|s| s.to_string());
    prepare("/g/game".to_string(), &valid_elf(), &options, &no_env(), &nothing_is_file, &empty_dir, &unreadable)
        .unwrap()
}

#[test]
fn icon_is_copied_with_its_extension() {
    let prepared = prepared_linux(Some("/art/cover.svg"));
    let every_file = |_: &String| true;
    assert_eq!(
        icon_action(&prepared, true, &valid_elf(), &every_file),
        IconAction::Copy {
            source: "/art/cover.svg".to_string(),
            destination: "/g/.workdir/icons/game_icon.svg".to_string()
        }
    );
    let prepared = prepared_linux(Some("/art/cover"));
    match icon_action(&prepared, true, &valid_elf(), &every_file) {
        IconAction::Copy { destination, .. } => {
            assert_eq!(destination, "/g/.workdir/icons/game_icon.png")
        }
        other => panic!("unexpected {:?}", other),
    }
    assert_eq!(icon_action(&prepared, true, &valid_elf(), &nothing_is_file), IconAction::Fallback);
    let none = prepared_linux(None);
    assert_eq!(icon_action(&none, false, &valid_elf(), &every_file), IconAction::Fallback);
}

#[test]
fn windows_icon_comes_from_resources() {
    let options = SetupOptions::default();
    let prepared = prepare(
        "/g/game.exe".to_string(),
        &valid_pe(),
        &options,
        &no_env(),
        &nothing_is_file,
        &empty_dir,
        &unreadable,
    )
    .unwrap();
    let every_file = |_: &String| true;
    assert_eq!(icon_action(&prepared, false, &valid_pe(), &every_file), IconAction::Fallback);
}

#[test]
fn invalid_pe_returns_false() {
    assert_eq!(extract_pe_icon(b"not a pe file"), None);
}

#[test]
fn extract_pe_icon_returns_false_on_garbage_input() {
    assert_eq!(icon::extract_pe_icon(b"not a pe file"), None);
}

#[test]
fn icon_files_decode_to_png() {
    let png = ico_png(&tiny_ico()).unwrap();
    assert_eq!(&png[..8], b"\x89PNG\r\n\x1a\n");
    assert_eq!(ico_png(b"junk"), None);
}

#[test]
fn icon_groups_must_fit_u32_offsets() {
    assert!(icon_group_fits(&vec![]));
    assert!(icon_group_fits(&vec![48, 1000]));
    assert!(icon_group_fits(&vec![0xffff_ffff - 22]));
    assert!(!icon_group_fits(&vec![0xffff_ffff - 21]));
    assert!(!icon_group_fits(&vec![0x8000_0000, 0x8000_0000]));
}

#[test]
fn find_linux_icon_finds_sibling_png() {
    let is_file = |p: &String| p == "/tmp/kalesa_icon_test/icon.png";
    assert_eq!(
        icon::find_linux_icon("/tmp/kalesa_icon_test/mygame", &is_file),
        Some("/tmp/kalesa_icon_test/icon.png".to_string())
    );
}

#[test]
fn find_linux_icon_finds_name_based_svg() {
    let is_file = |p: &String| p == "/tmp/kalesa_icon_test/mygame.svg";
    assert_eq!(
        icon::find_linux_icon("/tmp/kalesa_icon_test/mygame", &is_file),
        Some("/tmp/kalesa_icon_test/mygame.svg".to_string())
    );
}

#[test]
fn find_linux_icon_returns_none_when_absent() {
    let is_file = |p: &String| p == "/tmp/kalesa_icon_test/mygame.xpm";
    assert_eq!(icon::find_linux_icon("/tmp/kalesa_icon_test/mygame", &is_file), None);
}

#[test]
fn derives_default_name() {
    let target = GameTarget::new("/tmp/kalesa_metadata_test/mygame".to_string(), BinaryType::LinuxElf);
    let metadata = collect(&target, None, &no_env(), &nothing_is_file, &empty_dir, &unreadable);
    assert_eq!(metadata.name, "mygame");
}

#[test]
fn reads_desktop_metadata() {
    let dir = "/tmp/kalesa_metadata_test_desktop";
    let desktop = format!("{dir}/mygame.desktop");
    let exe = format!("{dir}/mygame");
    let is_file = |p: &String| *p == desktop || *p == exe;
    let list = |_: &String| vec![exe.clone(), desktop.clone()];
    let read = |p: &String| {
        if *p == desktop {
            Some("[Desktop Entry]\nName=My Game\nIcon=mygame\nX-AppImage-Version=2.1\nComment=Great game\nCategories=Game;Emulator;\n".to_string())
        } else {
            None
        }
    };
    let target = GameTarget::new(exe.clone(), BinaryType::LinuxElf);
    let metadata = collect(&target, None, &no_env(), &is_file, &list, &read);
    assert_eq!(metadata.name, "My Game");
    assert_eq!(metadata.version.as_deref(), Some("2.1"));
    assert_eq!(metadata.description.as_deref(), Some("Great game"));
    assert_eq!(metadata.categories, vec!["Game", "Emulator"]);
}

#[test]
fn finds_sibling_icon() {
    let icon = "/tmp/kalesa_metadata_test_icon/icon.png".to_string();
    let is_file = |p: &String| *p == icon;
    assert_eq!(
        find_linux_icon("/tmp/kalesa_metadata_test_icon/mygame", &no_env(), &is_file),
        Some(icon.clone())
    );
}

#[test]
fn parses_desktop_fields() {
    let parsed = parse_desktop_metadata(
        "[Desktop Entry]\nX-AppImage-Name=Image Name\nName=Plain\nVersion=1.0\nCategories=A;;B;\n",
    );
    assert_eq!(parsed.name.as_deref(), Some("Image Name"));
    assert_eq!(parsed.version.as_deref(), Some("1.0"));
    assert_eq!(parsed.categories, vec!["A", "B"]);
}

#[test]
fn launch_options_default_is_empty() {
    let launch = LaunchOptions::default();
    assert!(launch.args.is_empty() && launch.wrappers.is_empty());
    assert_eq!(launch.env, BTreeMap::new());
    assert!(launch.validate().is_ok());
}
