# pilothub

The extension-management core of PilotHub, a desktop manager for Agent
Skills and Codex Plugins, written in Verus: every decision is an executable
function with a contract, checked by the verifier.

- `src/` is the verified library.
  - `codex_plugins/`: manifest rules, Plugin previews, the PilotHub
    marketplace, Codex command lines and listings, legacy Launcher
    migration, and the installation, removal and repair transactions (state
    machines whose rollback and completeness are proved).
  - `package_managers/`: the Microsoft APM adapter, its managed runtime,
    reading its release archives (zip, tar and gzip behind trusted wrappers)
    and the runtime installation transaction.
  - `extensions.rs`, `product_feedback.rs`, `install_diagnostics.rs`,
    `storage_migration.rs`, `legacy_migration.rs`: grouping Skills into
    Extensions, local feedback events, installation diagnostics, the storage
    layout and the move from the legacy storage.
  - `text.rs`, `paths.rs`, `sorting.rs`: the string, Unix path and stable
    sorting models the contracts are written in.
  - `digest.rs`, `ids.rs`: SHA-256 and hex (sha2, hex) and fresh identifiers
    (uuid), behind trusted wrappers.
- `app/` performs the file-system, process, network and JSON work: it runs
  each transaction by carrying out the action the library chooses and
  reporting back what happened.
- `tests/` exercises the library on concrete values.
