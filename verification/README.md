# gh_actions_updater

`gau` finds the `uses:` references of GitHub Actions workflows and action
metadata, looks up newer compatible tags or commit SHAs upstream, reports them,
and can rewrite the references in place.

## Layout

- `src/` is the verified library. Every function carries a contract that Verus
  proves. It holds the decisions of a run: classifying `uses:` values, walking
  the YAML tree, locating each reference and the byte span of its ref,
  resolving settings, choosing update targets, the cache's freshness and load
  steps, the GitHub REST and `git ls-remote` lookup steps, planning and
  applying rewrites, and rendering reports and diffs.
  - `policy.rs`, `loads.rs`, `cache.rs`, `rewrite.rs`, `scanner.rs` and
    `action_ref.rs` state the library's laws as proof functions.
  - Calls into other crates (`saphyr`, `semver`, `globset`, `glob`, `blake3`,
    `memchr`, `ahash`) sit behind small trusted wrappers whose contracts say
    what those crates document.
- `app/` is the command around it: argument parsing with `clap`, reading the
  configuration (`toml`), the environment and the files, walking directories
  (`ignore`, `glob`, `rayon`), HTTP requests (`ureq`) and `git` runs, cache
  files (`serde_json`), and writing output.
- `tests/` exercises the library on concrete inputs.
