use std::collections::BTreeMap;

use kalesa::domain::{GameMetadata, LaunchOptions};
use kalesa::generators::config::build;
use kalesa::generators::desktop::{desktop_exec_quote, desktop_value_escape};
use kalesa::generators::launcher::escape::shell_single_quote;
use kalesa::paths::{file_name_of, file_stem_of, parent_of};
use kalesa::pipeline::metadata::XdgEnv;
use kalesa::pipeline::setup::{prepare, SetupOptions};
use kalesa::runtime::{context_of, validate_config};

/// Reads a Desktop Entry string value: `\s`, `\n`, `\t`, `\r`, `\\`.
fn read_desktop_value(w: &str) -> String {
    let mut out = String::new();
    let mut chars = w.chars();
    while let Some(c) = chars.next() {
        if c == '\\' {
            match chars.next() {
                Some('s') => out.push(' '),
                Some('n') => out.push('\n'),
                Some('t') => out.push('\t'),
                Some('r') => out.push('\r'),
                Some(other) => out.push(other),
                None => out.push('\\'),
            }
        } else {
            out.push(c);
        }
    }
    out
}

/// Reads one double-quoted `Exec` argument.
fn read_exec_argument(w: &str) -> Option<String> {
    let mut chars = w.chars();
    if chars.next() != Some('"') {
        return None;
    }
    let mut out = String::new();
    while let Some(c) = chars.next() {
        match c {
            '"' => return if chars.next().is_none() { Some(out) } else { None },
            '\\' => out.push(chars.next()?),
            _ => out.push(c),
        }
    }
    None
}

/// Reads a word made of single-quoted segments and backslash escapes.
fn read_shell_word(w: &str) -> Option<String> {
    let mut out = String::new();
    let mut chars = w.chars();
    while let Some(c) = chars.next() {
        match c {
            '\'' => loop {
                match chars.next()? {
                    '\'' => break,
                    q => out.push(q),
                }
            },
            '\\' => out.push(chars.next()?),
            _ => out.push(c),
        }
    }
    Some(out)
}

#[test]
fn desktop_values_read_back() {
    for v in ["plain", "a\\b", "\\\\", "tab\\t", "ends with \\"] {
        assert_eq!(read_desktop_value(&desktop_value_escape(v).unwrap()), v);
    }
}

#[test]
fn exec_arguments_read_back() {
    for v in ["/games/My Game/.workdir/bin/launch.sh", "/a\"b$c`d\\e", "/x'y"] {
        assert_eq!(read_exec_argument(&desktop_exec_quote(v).unwrap()).as_deref(), Some(v));
    }
}

#[test]
fn shell_words_read_back() {
    for v in ["", "it's", "''", "a b\\c", "$HOME"] {
        assert_eq!(read_shell_word(&shell_single_quote(v)).as_deref(), Some(v));
    }
}

#[test]
fn runtime_finds_the_prepared_game() {
    let mut pe = vec![0u8; 0x40];
    pe[0..2].copy_from_slice(b"MZ");
    pe[0x3C..0x40].copy_from_slice(&(0x40u32).to_le_bytes());
    pe.extend_from_slice(b"PE\0\0");
    pe.extend_from_slice(&[0; 20]);
    let env = XdgEnv { data_home: None, home: None, data_dirs: None };
    let no_file = |_: &String| false;
    let no_dir = |_: &String| Vec::new();
    let no_read = |_: &String| None;
    let options = SetupOptions::default();
    let prepared = prepare(
        "/games/Child of Light/Child.exe".to_string(),
        &pe,
        &options,
        &env,
        &no_file,
        &no_dir,
        &no_read,
    )
    .unwrap();
    let launch = LaunchOptions { args: vec![], env: BTreeMap::new(), wrappers: vec![] };
    let metadata = GameMetadata::new(prepared.metadata.name.clone(), None);
    let config = build(&prepared.target, &metadata, &prepared.runner, &launch).unwrap();
    assert!(validate_config(&config).is_ok());
    let context = context_of(prepared.workdir.config_file(), config).unwrap();
    assert_eq!(context.game_dir, prepared.target_dir);
    assert_eq!(context.target, "/games/Child of Light/Child.exe");
}

#[test]
fn paths_set_dot_components_aside() {
    assert_eq!(file_name_of("foo.txt/.").as_deref(), Some("foo.txt"));
    assert_eq!(parent_of("foo/bar/.").as_deref(), Some("foo"));
    assert_eq!(parent_of("a/./b").as_deref(), Some("a"));
    assert_eq!(parent_of("./x").as_deref(), Some("."));
    assert_eq!(parent_of("x").as_deref(), Some(""));
    assert_eq!(parent_of("/a").as_deref(), Some("/"));
    assert_eq!(parent_of("/"), None);
    assert_eq!(parent_of("/."), None);
    assert_eq!(file_name_of("."), None);
    assert_eq!(file_name_of("a/.."), None);
    assert_eq!(file_stem_of("dir/game.tar.gz/").as_deref(), Some("game.tar"));
}
