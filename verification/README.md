# vbumpp-core

Version bumping, changelog generation and platform releases (GitHub,
GitLab, Gitee, GitCode), with the decisions of each step stated as Verus
contracts and proved.

- `src/` is the verified library: command-line grammar (bump, release,
  schema, token), configuration values, merging and checks, changelog
  configuration and markdown, the order of a bump's steps and the run that
  stops at the first failure, version-file updates (text files, Cargo
  manifests and locks), the encrypted token store format, token resolution,
  release request chains and plans, dry-run plan assembly.
  Calls into `regex`, `serde_json`, `toml_edit`, `toml`, `jsonc-parser`,
  `shell-words`, `url`, `aes-gcm`, `rand` and `console` (as `dialoguer`
  re-exports it) go through small trusted wrappers whose contracts name what
  the call returns; the configuration files and `package.json` are parsed
  there too.
- `app/` is the platform around it: files, globbing, processes, HTTP,
  prompts, the serde type check and JSON Schema of the configuration, and
  the command line that prints the library's lines.
- `tests/` runs the library on concrete inputs.
