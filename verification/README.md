# jaws

A secrets manager for the command line: secrets from several providers (AWS,
GCP, 1Password, Bitwarden and a local-only store) are pulled into plain files,
versioned locally, pushed back, exported as encrypted archives and injected
into templates.

The library under `src/` holds the logic, with proved contracts: secret
references, the configuration and its HCL form, version history, pruning and
rollback, the passphrase retry protocol and credential caches, template
rendering, and every report the commands print. Its public functions carry
`requires`/`ensures` contracts over `Seq`, `Map` and spec functions, and the
`law_*` proof functions state properties that span several calls.

Calls into other crates (age, hcl-rs, sha2, hex, chrono,
chrono-humanize, dirs) go through small trusted wrappers whose contracts say
what those crates document.

`app/` is the program around it: argument parsing, the terminal, files, the
SQLite database and the OS keychain. `tests/` exercises the library on
concrete values.
