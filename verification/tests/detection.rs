use kalesa::detect_binary_type;
use kalesa::domain::BinaryType;
use kalesa::domain::{GameTarget, Runner, RunnerBackend, RunnerKind};
use kalesa::error::KalesaError;
use kalesa::pipeline::detect::{confirm_pe_signature, detect};

fn valid_elf() -> Vec<u8> {
    let mut data = vec![0u8; 16];
    data[..4].copy_from_slice(b"\x7fELF");
    data[4] = 2;
    data[5] = 1;
    data[6] = 1;
    data
}

fn valid_pe() -> Vec<u8> {
    let mut data = vec![0u8; 0x40];
    data[0..2].copy_from_slice(b"MZ");
    data[0x3C..0x40].copy_from_slice(&(0x40u32).to_le_bytes());
    data.extend_from_slice(b"PE\0\0");
    data.extend_from_slice(&[0; 20]);
    data
}

#[test]
fn rejects_truncated_elf() {
    assert!(matches!(
        detect_binary_type("test.elf", b"\x7fELF"),
        Err(KalesaError::InvalidElf(_))
    ));
}

#[test]
fn rejects_unknown_binary() {
    assert!(matches!(
        detect_binary_type("test.bin", b"garbage data"),
        Err(KalesaError::UnsupportedBinary(_))
    ));
}

#[test]
fn detects_valid_elf() {
    assert_eq!(detect("test.elf", &valid_elf()).unwrap(), BinaryType::LinuxElf);
}

#[test]
fn detects_valid_pe_signature() {
    assert_eq!(detect("test.exe", &valid_pe()).unwrap(), BinaryType::WindowsPe);
}

#[test]
fn rejects_fake_mz() {
    let mut data = vec![0u8; 0x40];
    data[0..2].copy_from_slice(b"MZ");
    data[0x3C..0x40].copy_from_slice(&(0x40u32).to_le_bytes());
    data.extend_from_slice(b"BAD!");
    assert!(matches!(detect("fake.exe", &data), Err(KalesaError::InvalidPe(_))));
}

#[test]
fn detects_appimage_by_path() {
    assert_eq!(
        detect("/games/Tool.AppImage", &valid_elf()).unwrap(),
        BinaryType::AppImage
    );
    assert_eq!(
        BinaryType::detect("/games/tool.appimage", &valid_elf()).unwrap(),
        BinaryType::LinuxElf
    );
}

#[test]
fn rejects_elf_with_bad_identification() {
    let mut data = valid_elf();
    data[6] = 0;
    match detect("bad.elf", &data) {
        Err(KalesaError::InvalidElf(p)) => assert_eq!(p, "bad.elf"),
        other => panic!("unexpected {:?}", other),
    }
}

#[test]
fn rejects_mz_whose_pe_offset_is_out_of_range() {
    let mut data = valid_pe();
    data[0x3C..0x40].copy_from_slice(&(0x1000u32).to_le_bytes());
    assert!(matches!(detect("far.exe", &data), Err(KalesaError::InvalidPe(_))));
}

#[test]
fn rejects_empty_file() {
    match detect("empty", b"") {
        Err(KalesaError::UnsupportedBinary(p)) => assert_eq!(p, "empty"),
        other => panic!("unexpected {:?}", other),
    }
}

#[test]
fn binary_type_names() {
    assert_eq!(BinaryType::LinuxElf.as_str(), "linux");
    assert_eq!(BinaryType::WindowsPe.as_str(), "windows");
    assert_eq!(BinaryType::AppImage.as_str(), "appimage");
    assert!(BinaryType::WindowsPe.is_windows());
    assert!(!BinaryType::AppImage.is_windows());
    assert!(BinaryType::AppImage.is_linux());
}

#[test]
fn auto_runner_maps_appimage_to_native() {
    let target = GameTarget::new("game.AppImage".to_string(), BinaryType::AppImage);
    let runner = Runner::for_target(&target, "/tmp/game");
    assert_eq!(runner.kind, RunnerKind::Native);
}

#[test]
fn auto_runner_maps_windows_to_wine_with_default_prefix() {
    let target = GameTarget::new("/games/g/game.exe".to_string(), BinaryType::WindowsPe);
    let runner = Runner::for_target(&target, "/games/g");
    assert_eq!(runner.kind, RunnerKind::Wine);
    assert_eq!(runner.wine_prefix.as_deref(), Some("/games/g/.workdir/wine"));
    assert_eq!(runner.proton_path, None);
    assert!(runner.is_wine());
}

#[test]
fn proton_backend_keeps_prefix_and_executable() {
    let target = GameTarget::new("/games/g/game.exe".to_string(), BinaryType::WindowsPe);
    let runner = Runner::for_target_with_backend(
        &target,
        "/games/g",
        RunnerBackend::Proton,
        Some("/pfx".to_string()),
        Some("/opt/proton/proton".to_string()),
    );
    assert_eq!(runner.kind, RunnerKind::Proton);
    assert_eq!(runner.wine_prefix.as_deref(), Some("/pfx"));
    assert_eq!(runner.proton_path.as_deref(), Some("/opt/proton/proton"));
    assert!(runner.is_proton());
    assert_eq!(RunnerKind::Proton.as_str(), "proton");
}

#[test]
fn native_backend_drops_wine_settings() {
    let target = GameTarget::new("/games/g/game.exe".to_string(), BinaryType::WindowsPe);
    let runner = Runner::for_target_with_backend(
        &target,
        "/games/g",
        RunnerBackend::Native,
        Some("/pfx".to_string()),
        Some("/opt/proton/proton".to_string()),
    );
    assert_eq!(runner.kind, RunnerKind::Native);
    assert_eq!(runner.wine_prefix, None);
    assert_eq!(runner.proton_path, None);
    assert_eq!(RunnerBackend::default(), RunnerBackend::Auto);
}

#[test]
fn pe_signature_needs_room_for_file_header() {
    assert!(confirm_pe_signature(&valid_pe()));
    let mut short = valid_pe();
    short.truncate(0x40 + 23);
    assert!(!confirm_pe_signature(&short));
    let mut low = valid_pe();
    low[0x3C..0x40].copy_from_slice(&(0x3Cu32).to_le_bytes());
    assert!(!confirm_pe_signature(&low));
}
