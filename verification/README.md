# leviathan_plugins

The plugin host logic of a Git client whose plugins are written in Lua,
written in Verus: Verus checks every function in `src/`, and nearly all
of them carry a contract that it proves. The exceptions are the methods
of the job cancellation flag, which other threads can change at any
time, so nothing is promised of what they read.

## Layout

- `src/` — the verified library.
  - Capabilities: `grants` (the grant store, prompts, auto-grants),
    `capabilities` (per-plugin guard, file-system scope checks), `audit`.
  - Commands: `commands` (registry, argument schemas, dispatch gates,
    palette ranking), `core_commands`, `core_catalog`, `core_requests`
    (the built-in commands and the requests they produce).
  - Plugin life cycle: `activation` (lazy activation stubs, poisoning),
    `async_jobs`, `deferred`, `autocmd`, `keymap_build`, `health`,
    `git_events`, `naming`, `migrations`, `settings_values`, `services`.
  - Paths and files: `paths`, `path_edit`, `dir_listing`, `fs_limits`,
    `shell`.
  - Data handed to Lua: `repo_snapshot`, `commit_data`, `json`.
  - UI contributions: `ui_contrib`, `dialog`, and `image_cache` (the
    memo of decoded plugin images).
  - Shared helpers: `text`, `order`, `keyed`, `clock`, `diagnostic`.
- `tests/` — tests of the library on concrete values.
- `app/` — the host glue that Verus does not see: Lua bindings (`mlua`),
  file and process I/O, threads, and the serde copies of library types.
  It reads, sends and converts; the decisions are the library's.

Laws of the library are public proof functions (`lemma_*`) next to the
functions they speak of.
