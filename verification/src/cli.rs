//! The command-line options, as plain values.
use vstd::prelude::*;

verus! {

/// Options given on the command line.
#[derive(Debug, Clone, Default)]
pub struct Cli {
    pub paths: Vec<String>,
    pub config: Option<String>,
    pub include_globs: Vec<String>,
    pub exclude: Vec<String>,
    pub recursive: bool,
    pub threads: Option<usize>,
    pub init: bool,
    pub force: bool,
    pub output: Option<String>,
    pub cache_dir: Option<String>,
    pub cache_ttl: Option<String>,
    pub refresh_cache: bool,
    pub no_cache: bool,
    pub update: bool,
    pub latest: bool,
    pub latest_tag: bool,
    pub latest_hash: bool,
    pub pin_style: Option<PinStyle>,
    pub missing_ref: Option<MissingRefPolicy>,
    pub check: bool,
    pub dry_run: bool,
    pub diff: bool,
    pub format: Option<OutputFormat>,
    pub quiet: bool,
    pub verbose: bool,
    pub color: Option<ColorChoice>,
    pub github_token: Option<String>,
    pub github_api_url: Option<String>,
    pub strict_schema: bool,
    pub no_schema_validation: bool,
    pub validate: bool,
    pub pin_floating_to_sha: bool,
}

#[derive(Clone, Copy, Debug, PartialEq, Eq, Structural)]
pub enum OutputFormat {
    Human,
    Json,
}

#[derive(Clone, Copy, Debug, PartialEq, Eq, Structural)]
pub enum ColorChoice {
    Auto,
    Always,
    Never,
}

/// What to do when the ref a reference pins no longer exists upstream.
#[derive(Clone, Copy, Debug, PartialEq, Eq, Structural)]
pub enum MissingRefPolicy {
    Warn,
    Error,
    Ignore,
    Fallback,
}

/// How a semver-like ref is written after an update.
#[derive(Clone, Copy, Debug, PartialEq, Eq, Structural)]
pub enum PinStyle {
    Preserve,
    Major,
    Minor,
    Full,
}

/// Which kind of target an update selects.
#[derive(Clone, Copy, Debug, PartialEq, Eq, Structural)]
pub enum UpdateMode {
    Latest,
    LatestTag,
    LatestHash,
}

} // verus!
