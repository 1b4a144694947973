# minelts

The verified core of a lightweight offline Minecraft launcher (vanilla
releases and snapshots, offline user names, Mojang's own Java runtime,
parallel downloads checked by SHA-1).

- `src/` is the library, verified with Verus: manifest data and rules,
  Maven paths, Java runtime choice and installation plans, download plans
  and checks, the launch command line, offline identities, and the checks on
  what the interface asks for. Paths are lists of components below the
  user's data directory.
- `app/` is the program around it: the Tauri window and its commands, HTTP,
  JSON (de)serialisation, the disk, worker threads and starting the game.
- `tests/` exercise the library on concrete values.
