# velvet

The verified core of the Velvet installer, which sets up a Quilt loader
profile for Minecraft and keeps a folder of mods in step with the newest
Modrinth releases for a chosen game version.

- `src/` is the library, verified with Verus:
  - `sync` decides what happens to the mods folder (keep, fetch, remove,
    report missing) and proves that carrying the plan out leaves exactly the
    wanted releases, and that a second run does nothing;
  - `mod_index` is the identifier-to-hash map of the folder;
  - `digest` hashes file contents (SHA-1 as lowercase hex);
  - `modlists` holds the curated lists and their selection;
  - `modrinth` builds the API addresses and reads a project's releases;
  - `get_minecraft_dir` finds the game's folder and lays out the installed files;
  - `write_json` adds the installer's profile to the launcher's profiles;
  - `state` is the window's state machine.
- `app/` is the program around it: the iced window, HTTP requests, file and
  folder work, JSON (de)serialisation and the colour theme.
- `tests/` runs the library on concrete cases.
