# aoe_archive

Prepares a LAN-playable copy of Age of Empires DE (the first and the second
game): copies the game, installs a Steam emulator with its loader
encrypted, and installs a LAN launcher and its companion from their GitHub
releases.

- `src/` is the verified library: the game tables (`game`), the shared
  installer state with its single task slot and step statuses (`ctx`), the
  release lookup (`github`), archive reading by name (`archive`), the
  emulator's file plan and its loader configuration (`goldberg`), the launcher and
  companion choices and configuration patches (`aoe`), running the steps in
  order (`pipeline`), the log view (`ui`), and string operations with exact
  specifications (`text`).
- `app/` holds what touches the outside world: the settings file, HTTP,
  the file system, the Windows registry, threads and logging.
- `tests/` exercises the library on concrete values.
