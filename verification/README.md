# kalesa

Prepares a game directory for a standard launch, and launches prepared games.
Given a Windows PE executable, a Linux ELF binary or an AppImage, it checks the
header, gathers metadata (neighbouring `.desktop` file, icons beside the
executable or in the XDG icon directories, the icon resources of a Windows
executable), selects a runner (native, Wine or Proton), and produces:

```text
.workdir/
  config/config.yaml          versioned configuration (schema 3)
  config/config.yaml.example
  bin/launch.sh               thin launcher: kalesa --launch-config <config>
  icons/game_icon.*
game.desktop
.directory
```

## Layout

- `src/` is the library, verified with Verus. Every value it produces (texts,
  paths, commands, configuration values, icon bytes) is specified over
  `Seq<char>` / `Seq<u8>` models; paths are UTF-8 text with `/` separators.
  File system questions reach it through functions passed by the caller
  (`is_file`, `list_dir`, `read`), so its contracts state what it concludes
  from every answer.
  - `domain`: binary types, the game, its metadata and launch options, runners.
  - `pipeline`: header detection, metadata collection, and the setup steps
    (request checks, preparation, icon decision).
  - `generators`: the configuration values, Desktop Entry files, the launch
    scripts and their quoting, the PE icon.
  - `runtime`: checking a loaded configuration and building the launch command.
  - `config`, `icon`, `launcher`: the first-generation entry points.
  - `text`, `paths`, `probe`: string, path and file-probe helpers.
- `app/` is the command line: argument parsing, logging, the file system and
  process work between the library's steps, and YAML (de)serialisation.
- `tests/` exercises the library on concrete values.

Laws proved in `src/` include: a shell reads back every single-quoted value,
a Desktop Entry reader reads back every escaped value and `Exec` argument,
the runtime accepts the configuration the setup builds and finds the game
directory the setup used, and Wine/Proton are refused for non-Windows
executables.
