//! Effective settings: command line over environment over config file over defaults.
use vstd::prelude::*;

use crate::action_ref::opt_view;
use crate::cache::{join_dir, join_path};
use crate::cli::{Cli, ColorChoice, MissingRefPolicy, OutputFormat, PinStyle, UpdateMode};
use crate::text::{
    chars_of, clone_strings, extend_strings, is_digit, is_digit_exec, push_all, slice_of, string_of,
    string_views, trim, trim_chars,
};

verus! {

/// The resolved settings of one run.
#[derive(Debug, Clone)]
pub struct Settings {
    pub paths: Vec<String>,
    pub include_globs: Vec<String>,
    pub exclude: Vec<String>,
    pub recursive: bool,
    pub threads: Option<usize>,
    pub cache_dir: String,
    pub cache_ttl: CacheTtl,
    pub cache_enabled: bool,
    pub refresh_cache: bool,
    pub update: bool,
    pub update_mode: UpdateMode,
    pub latest_hash: bool,
    pub pin_style: PinStyle,
    pub update_exclude: Vec<String>,
    pub missing_ref: MissingRefPolicy,
    pub include_prereleases: bool,
    pub preserve_major: bool,
    pub check: bool,
    pub dry_run: bool,
    pub diff: bool,
    pub format: OutputFormat,
    pub quiet: bool,
    pub verbose: bool,
    pub color: ColorChoice,
    pub github_token_present: bool,
    pub github_token: Option<String>,
    pub github_api_url: String,
    pub strict_schema: bool,
    pub schema_validation: bool,
    pub validate: bool,
    pub pin_floating_to_sha: bool,
}

/// How long cached metadata stays fresh.
#[derive(Debug, Clone, Copy, PartialEq, Eq, Structural)]
pub enum CacheTtl {
    Seconds(u64),
    Never,
}

/// Why a configuration value was rejected.
#[derive(Debug, Clone, PartialEq, Eq)]
pub enum ConfigError {
    /// The TTL's leading number is missing or does not fit in 64 bits.
    InvalidTtl(String),
    /// The TTL's unit is not one of `s`, `m`, `h`, `d`.
    InvalidTtlUnit(String),
    /// `threads` was set to zero.
    ZeroThreads,
    /// `--latest-hash` was combined with an explicit converting pin style.
    LatestHashWithPinStyle(PinStyle),
}

/// The code of `c` with ASCII upper case folded to lower case.
pub open spec fn ascii_fold(c: char) -> u32 {
    if 'A' <= c && c <= 'Z' {
        (c as u32 + 32) as u32
    } else {
        c as u32
    }
}

/// `a` and `b` are equal up to ASCII case (`str::eq_ignore_ascii_case`).
pub open spec fn eq_ignore_ascii_case(a: Seq<char>, b: Seq<char>) -> bool {
    a.len() == b.len() && forall|i: int| 0 <= i < a.len() ==> ascii_fold(#[trigger] a[i]) == ascii_fold(b[i])
}

/// The number that the decimal digits `s` spell.
pub open spec fn digits_value(s: Seq<char>) -> nat
    decreases s.len(),
{
    if s.len() == 0 {
        0
    } else {
        digits_value(s.drop_last()) * 10 + (s.last() as nat - '0' as nat) as nat
    }
}

/// The number of leading ASCII digits of `s`.
pub open spec fn digit_run(s: Seq<char>) -> nat
    decreases s.len(),
{
    if s.len() > 0 && is_digit(s[0]) {
        1 + digit_run(s.drop_first())
    } else {
        0
    }
}

/// Seconds per unit, for the units a TTL may carry.
pub open spec fn unit_seconds(unit: Seq<char>) -> Option<u64> {
    if unit == Seq::<char>::empty() || unit == seq!['s'] {
        Some(1)
    } else if unit == seq!['m'] {
        Some(60)
    } else if unit == seq!['h'] {
        Some(3600)
    } else if unit == seq!['d'] {
        Some(86400)
    } else {
        None
    }
}

/// A TTL is `never` (in any case) or a number of digits followed by an
/// optional unit; the product saturates at `u64::MAX`.
pub open spec fn parse_ttl_spec(value: Seq<char>) -> Result<CacheTtl, ConfigErrorKind> {
    let t = trim(value);
    if eq_ignore_ascii_case(t, "never"@) {
        Ok(CacheTtl::Never)
    } else {
        let number = t.take(digit_run(t) as int);
        let unit = t.skip(digit_run(t) as int);
        if number.len() == 0 || digits_value(number) > u64::MAX {
            Err(ConfigErrorKind::InvalidTtl)
        } else {
            match unit_seconds(unit) {
                None => Err(ConfigErrorKind::InvalidTtlUnit),
                Some(m) => Ok(CacheTtl::Seconds(
                    if digits_value(number) * m > u64::MAX { u64::MAX } else { (digits_value(number) * m) as u64 },
                )),
            }
        }
    }
}

/// The kind of a [`ConfigError`], without the offending text.
pub enum ConfigErrorKind {
    InvalidTtl,
    InvalidTtlUnit,
    ZeroThreads,
    LatestHashWithPinStyle,
}

impl ConfigError {
    pub open spec fn kind(&self) -> ConfigErrorKind {
        match self {
            ConfigError::InvalidTtl(_) => ConfigErrorKind::InvalidTtl,
            ConfigError::InvalidTtlUnit(_) => ConfigErrorKind::InvalidTtlUnit,
            ConfigError::ZeroThreads => ConfigErrorKind::ZeroThreads,
            ConfigError::LatestHashWithPinStyle(_) => ConfigErrorKind::LatestHashWithPinStyle,
        }
    }
}

pub open spec fn ttl_result_kind(r: Result<CacheTtl, ConfigError>) -> Result<CacheTtl, ConfigErrorKind> {
    match r {
        Ok(t) => Ok(t),
        Err(e) => Err(e.kind()),
    }
}

fn ascii_fold_exec(c: char) -> (r: u32)
    ensures
        r == ascii_fold(c),
{
    if 'A' <= c && c <= 'Z' {
        (c as u32) + 32
    } else {
        c as u32
    }
}

pub fn eq_ignore_ascii_case_exec(a: &[char], b: &[char]) -> (r: bool)
    ensures
        r == eq_ignore_ascii_case(a@, b@),
{
    if a.len() != b.len() {
        return false;
    }
    let mut i: usize = 0;
    while i < a.len()
        invariant
            a.len() == b.len(),
            i <= a.len(),
            forall|j: int| 0 <= j < i ==> ascii_fold(#[trigger] a@[j]) == ascii_fold(b@[j]),
        decreases a.len() - i,
    {
        if ascii_fold_exec(a[i]) != ascii_fold_exec(b[i]) {
            return false;
        }
        i = i + 1;
    }
    true
}

proof fn lemma_digit_run(s: Seq<char>)
    ensures
        digit_run(s) <= s.len(),
        forall|i: int| 0 <= i < digit_run(s) ==> is_digit(#[trigger] s[i]),
        digit_run(s) < s.len() ==> !is_digit(s[digit_run(s) as int]),
    decreases s.len(),
{
    if s.len() > 0 && is_digit(s[0]) {
        lemma_digit_run(s.drop_first());
        assert forall|i: int| 0 <= i < digit_run(s) implies is_digit(#[trigger] s[i]) by {
            if i > 0 {
                assert(s[i] == s.drop_first()[i - 1]);
            }
        }
    }
}

proof fn lemma_digit_run_unique(s: Seq<char>, k: int)
    requires
        0 <= k <= s.len(),
        forall|i: int| 0 <= i < k ==> is_digit(#[trigger] s[i]),
        k < s.len() ==> !is_digit(s[k]),
    ensures
        digit_run(s) == k,
    decreases s.len(),
{
    if k > 0 {
        assert(is_digit(s[0]));
        assert forall|i: int| 0 <= i < k - 1 implies is_digit(#[trigger] s.drop_first()[i]) by {
            assert(s.drop_first()[i] == s[i + 1]);
        }
        if k - 1 < s.len() - 1 {
            assert(s.drop_first()[k - 1] == s[k]);
        }
        lemma_digit_run_unique(s.drop_first(), k - 1);
    }
}

/// Parses a cache TTL such as `15m`, `6h`, `7d`, `0` or `never`.
pub fn parse_ttl(value: &str) -> (r: Result<CacheTtl, ConfigError>)
    ensures
        ttl_result_kind(r) == parse_ttl_spec(value@),
        r matches Err(ConfigError::InvalidTtl(t)) ==> t@ == value@,
        r matches Err(ConfigError::InvalidTtlUnit(t)) ==> t@ == value@,
        !(r matches Err(ConfigError::ZeroThreads)),
        !(r matches Err(ConfigError::LatestHashWithPinStyle(_))),
{
    let all = chars_of(value);
    let t = trim_chars(&all);
    let never = chars_of("never");
    if eq_ignore_ascii_case_exec(&t, &never) {
        return Ok(CacheTtl::Never);
    }
    let mut k: usize = 0;
    while k < t.len() && is_digit_exec(t[k])
        invariant
            k <= t.len(),
            forall|i: int| 0 <= i < k ==> is_digit(#[trigger] t@[i]),
        decreases t.len() - k,
    {
        k = k + 1;
    }
    proof { lemma_digit_run_unique(t@, k as int); }
    let number = slice_of(&t, 0, k);
    let unit = slice_of(&t, k, t.len());
    let amount = match parse_decimal(&number) {
        Some(a) => a,
        None => return Err(ConfigError::InvalidTtl(value.to_owned())),
    };
    let multiplier: u64 = if unit.len() == 0 || (unit.len() == 1 && unit[0] == 's') {
        1
    } else if unit.len() == 1 && unit[0] == 'm' {
        60
    } else if unit.len() == 1 && unit[0] == 'h' {
        3600
    } else if unit.len() == 1 && unit[0] == 'd' {
        86400
    } else {
        proof {
            if unit@ == seq!['s'] || unit@ == seq!['m'] || unit@ == seq!['h'] || unit@ == seq!['d'] {
                assert(unit@[0] == unit@[0]);
            }
        }
        return Err(ConfigError::InvalidTtlUnit(value.to_owned()));
    };
    proof {
        if unit.len() == 0 {
            assert(unit@ =~= Seq::<char>::empty());
        } else {
            assert(unit@ =~= seq![unit@[0]]);
        }
    }
    let seconds = match amount.checked_mul(multiplier) {
        Some(product) => product,
        None => u64::MAX,
    };
    Ok(CacheTtl::Seconds(seconds))
}

/// The value of a run of ASCII digits, or `None` when it is empty or does not
/// fit in 64 bits (`u64::from_str` on such input).
pub fn parse_decimal(digits: &[char]) -> (r: Option<u64>)
    requires
        forall|i: int| 0 <= i < digits@.len() ==> is_digit(#[trigger] digits@[i]),
    ensures
        r matches Some(v) ==> digits@.len() > 0 && v == digits_value(digits@),
        r is None ==> digits@.len() == 0 || digits_value(digits@) > u64::MAX,
{
    if digits.len() == 0 {
        return None;
    }
    let mut value: u64 = 0;
    let mut i: usize = 0;
    while i < digits.len()
        invariant
            i <= digits.len(),
            forall|j: int| 0 <= j < digits@.len() ==> is_digit(#[trigger] digits@[j]),
            value == digits_value(digits@.take(i as int)),
        decreases digits.len() - i,
    {
        let d = (digits[i] as u32 - '0' as u32) as u64;
        assert(digits@.take(i + 1).drop_last() =~= digits@.take(i as int));
        if value > (u64::MAX - d) / 10 {
            proof { lemma_digits_value_prefix(digits@, i + 1); }
            return None;
        }
        value = value * 10 + d;
        i = i + 1;
    }
    assert(digits@.take(digits.len() as int) =~= digits@);
    Some(value)
}

/// A longer digit string is worth at least as much as its prefix.
proof fn lemma_digits_value_prefix(s: Seq<char>, k: int)
    requires
        0 <= k <= s.len(),
        forall|j: int| 0 <= j < s.len() ==> is_digit(#[trigger] s[j]),
    ensures
        digits_value(s) >= digits_value(s.take(k)),
    decreases s.len() - k,
{
    if k < s.len() {
        lemma_digits_value_prefix(s, k + 1);
        assert(s.take(k + 1).drop_last() =~= s.take(k));
    } else {
        assert(s.take(k) =~= s);
    }
}

/// The `[scan]` section of the configuration file.
#[derive(Debug, Clone)]
pub struct ScanConfig {
    pub include_globs: Option<Vec<String>>,
    pub exclude: Option<Vec<String>>,
    pub recursive: Option<bool>,
}

/// The `[cache]` section of the configuration file.
#[derive(Debug, Clone)]
pub struct CacheConfig {
    pub enabled: Option<bool>,
    pub ttl: Option<String>,
    pub dir: Option<String>,
}

/// The `[update]` section of the configuration file.
#[derive(Debug, Clone)]
pub struct UpdateConfig {
    pub mode: Option<UpdateMode>,
    pub exclude: Option<Vec<String>>,
    pub include_prereleases: Option<bool>,
    pub preserve_major: Option<bool>,
    pub pin_style: Option<PinStyle>,
    pub missing_ref: Option<MissingRefPolicy>,
}

/// The `[output]` section of the configuration file.
#[derive(Debug, Clone)]
pub struct OutputConfig {
    pub format: Option<OutputFormat>,
    pub color: Option<ColorChoice>,
}

/// The `[github]` section of the configuration file.
#[derive(Debug, Clone)]
pub struct GithubConfig {
    pub api_url: Option<String>,
}

/// The `[performance]` section of the configuration file.
#[derive(Debug, Clone)]
pub struct PerformanceConfig {
    pub threads: Option<usize>,
}

/// The configuration file, every entry optional.
#[derive(Debug, Clone)]
pub struct FileConfig {
    pub scan: ScanConfig,
    pub cache: CacheConfig,
    pub update: UpdateConfig,
    pub output: OutputConfig,
    pub github: GithubConfig,
    pub performance: PerformanceConfig,
}

/// The configuration of a run without a configuration file: every entry unset.
pub open spec fn empty_file_config() -> FileConfig {
    FileConfig {
        scan: ScanConfig { include_globs: None, exclude: None, recursive: None },
        cache: CacheConfig { enabled: None, ttl: None, dir: None },
        update: UpdateConfig {
            mode: None,
            exclude: None,
            include_prereleases: None,
            preserve_major: None,
            pin_style: None,
            missing_ref: None,
        },
        output: OutputConfig { format: None, color: None },
        github: GithubConfig { api_url: None },
        performance: PerformanceConfig { threads: None },
    }
}

impl Default for FileConfig {
    fn default() -> (c: FileConfig)
        ensures
            c == empty_file_config(),
    {
        FileConfig {
            scan: ScanConfig { include_globs: None, exclude: None, recursive: None },
            cache: CacheConfig { enabled: None, ttl: None, dir: None },
            update: UpdateConfig {
                mode: None,
                exclude: None,
                include_prereleases: None,
                preserve_major: None,
                pin_style: None,
                missing_ref: None,
            },
            output: OutputConfig { format: None, color: None },
            github: GithubConfig { api_url: None },
            performance: PerformanceConfig { threads: None },
        }
    }
}

/// What settings read from the environment: `GHAU_CACHE_DIR`,
/// `GHAU_CACHE_TTL`, `GHAU_GITHUB_TOKEN`, `GITHUB_TOKEN`, `GH_TOKEN`, and the
/// platform's cache directory.
#[derive(Debug, Clone)]
pub struct Environment {
    pub cache_dir: Option<String>,
    pub cache_ttl: Option<String>,
    pub ghau_github_token: Option<String>,
    pub github_token: Option<String>,
    pub gh_token: Option<String>,
    pub platform_cache_dir: Option<String>,
}

/// `a` when it is set, else `b`.
pub open spec fn first_set(a: Option<Seq<char>>, b: Option<Seq<char>>) -> Option<Seq<char>> {
    match a {
        Some(x) => Some(x),
        None => b,
    }
}

/// The files scanned when the configuration names none.
pub open spec fn default_includes_spec() -> Seq<Seq<char>> {
    seq![
        ".github/workflows/**/*.yml"@,
        ".github/workflows/**/*.yaml"@,
        ".github/actions/**/action.yml"@,
        ".github/actions/**/action.yaml"@,
        "action.yml"@,
        "action.yaml"@,
    ]
}

pub open spec fn strings_or_empty(v: Option<Vec<String>>) -> Seq<Seq<char>> {
    match v {
        Some(v) => string_views(v@),
        None => Seq::empty(),
    }
}

/// Include globs: the file's list, or the defaults, then the command line's.
pub open spec fn includes_spec(cli: Cli, file: FileConfig) -> Seq<Seq<char>> {
    let base = match file.scan.include_globs {
        Some(v) => string_views(v@),
        None => default_includes_spec(),
    };
    base + string_views(cli.include_globs@)
}

pub open spec fn threads_spec(cli: Cli, file: FileConfig) -> Option<usize> {
    match cli.threads {
        Some(t) => Some(t),
        None => file.performance.threads,
    }
}

/// The platform cache directory's own subdirectory, when there is one.
pub open spec fn platform_cache_spec(env: Environment) -> Option<Seq<char>> {
    match env.platform_cache_dir {
        Some(d) => Some(join_path(d@, "gh-actions-updater"@)),
        None => None,
    }
}

/// Cache directory: command line, environment, file, platform, or a local default.
pub open spec fn cache_dir_spec(cli: Cli, file: FileConfig, env: Environment) -> Seq<char> {
    match first_set(first_set(first_set(opt_view(cli.cache_dir), opt_view(env.cache_dir)), opt_view(file.cache.dir)), platform_cache_spec(env)) {
        Some(d) => d,
        None => ".gh-actions-updater-cache"@,
    }
}

/// Cache TTL text: command line, environment, file, or six hours.
pub open spec fn ttl_text_spec(cli: Cli, file: FileConfig, env: Environment) -> Seq<char> {
    match first_set(first_set(opt_view(cli.cache_ttl), opt_view(env.cache_ttl)), opt_view(file.cache.ttl)) {
        Some(t) => t,
        None => "6h"@,
    }
}

/// Update mode: the first mode flag given, else the file's mode, else latest tag.
pub open spec fn update_mode_spec(cli: Cli, file: FileConfig) -> UpdateMode {
    if cli.latest {
        UpdateMode::Latest
    } else if cli.latest_tag {
        UpdateMode::LatestTag
    } else if cli.latest_hash {
        UpdateMode::LatestHash
    } else {
        match file.update.mode {
            Some(m) => m,
            None => UpdateMode::LatestTag,
        }
    }
}

pub open spec fn pin_style_spec(cli: Cli, file: FileConfig) -> PinStyle {
    match cli.pin_style {
        Some(p) => p,
        None => match file.update.pin_style {
            Some(p) => p,
            None => PinStyle::Preserve,
        },
    }
}

/// Token: command line, then `GHAU_GITHUB_TOKEN`, `GITHUB_TOKEN`, `GH_TOKEN`.
pub open spec fn token_spec(cli: Cli, env: Environment) -> Option<Seq<char>> {
    first_set(first_set(first_set(opt_view(cli.github_token), opt_view(env.ghau_github_token)), opt_view(env.github_token)), opt_view(env.gh_token))
}

/// Why settings cannot be resolved, checked in this order: zero threads, a
/// converting pin style given with `--latest-hash`, a bad TTL.
pub open spec fn resolve_error(cli: Cli, file: FileConfig, env: Environment) -> Option<ConfigErrorKind> {
    if threads_spec(cli, file) == Some(0usize) {
        Some(ConfigErrorKind::ZeroThreads)
    } else if update_mode_spec(cli, file) == UpdateMode::LatestHash && cli.pin_style is Some
        && pin_style_spec(cli, file) != PinStyle::Preserve {
        Some(ConfigErrorKind::LatestHashWithPinStyle)
    } else {
        match parse_ttl_spec(ttl_text_spec(cli, file, env)) {
            Err(k) => Some(k),
            Ok(_) => None,
        }
    }
}

/// The text an error carries: the TTL text, or the pin style given.
pub open spec fn error_detail(cli: Cli, file: FileConfig, env: Environment, e: ConfigError) -> bool {
    match e {
        ConfigError::InvalidTtl(t) => t@ == ttl_text_spec(cli, file, env),
        ConfigError::InvalidTtlUnit(t) => t@ == ttl_text_spec(cli, file, env),
        ConfigError::ZeroThreads => true,
        ConfigError::LatestHashWithPinStyle(p) => cli.pin_style == Some(p),
    }
}

/// Whether updates stay within the current major version comes from the
/// config file when it says so, and is `true` when it does not.
pub proof fn law_preserve_major_follows_config(cli: Cli, file: FileConfig, env: Environment, s: Settings)
    requires
        resolved(cli, file, env, s),
    ensures
        file.update.preserve_major == Some(false) ==> !s.preserve_major,
        file.update.preserve_major == Some(true) ==> s.preserve_major,
        file.update.preserve_major is None ==> s.preserve_major,
{
}

/// `s` holds the settings that `cli`, `file` and `env` give.
pub open spec fn resolved(cli: Cli, file: FileConfig, env: Environment, s: Settings) -> bool {
    &&& string_views(s.paths@) == string_views(cli.paths@)
    &&& string_views(s.include_globs@) == includes_spec(cli, file)
    &&& string_views(s.exclude@) == strings_or_empty(file.scan.exclude) + string_views(cli.exclude@)
    &&& s.recursive == (cli.recursive || file.scan.recursive == Some(true))
    &&& s.threads == threads_spec(cli, file)
    &&& s.cache_dir@ == cache_dir_spec(cli, file, env)
    &&& parse_ttl_spec(ttl_text_spec(cli, file, env)) == Ok::<CacheTtl, ConfigErrorKind>(s.cache_ttl)
    &&& s.cache_enabled == (!cli.no_cache && file.cache.enabled != Some(false))
    &&& s.refresh_cache == cli.refresh_cache
    &&& s.update == cli.update
    &&& s.update_mode == update_mode_spec(cli, file)
    &&& s.latest_hash == (update_mode_spec(cli, file) == UpdateMode::LatestHash)
    &&& s.pin_style == pin_style_spec(cli, file)
    &&& string_views(s.update_exclude@) == strings_or_empty(file.update.exclude)
    &&& s.missing_ref == match cli.missing_ref {
        Some(m) => m,
        None => match file.update.missing_ref {
            Some(m) => m,
            None => MissingRefPolicy::Warn,
        },
    }
    &&& s.include_prereleases == (file.update.include_prereleases == Some(true))
    &&& s.preserve_major == (file.update.preserve_major != Some(false))
    &&& s.check == cli.check
    &&& s.dry_run == (cli.dry_run || cli.check || !cli.update)
    &&& s.diff == cli.diff
    &&& s.format == match cli.format {
        Some(f) => f,
        None => match file.output.format {
            Some(f) => f,
            None => OutputFormat::Human,
        },
    }
    &&& s.quiet == cli.quiet
    &&& s.verbose == cli.verbose
    &&& s.color == match cli.color {
        Some(c) => c,
        None => match file.output.color {
            Some(c) => c,
            None => ColorChoice::Auto,
        },
    }
    &&& opt_view(s.github_token) == token_spec(cli, env)
    &&& s.github_token_present == (token_spec(cli, env) is Some)
    &&& s.github_api_url@ == match first_set(opt_view(cli.github_api_url), opt_view(file.github.api_url)) {
        Some(u) => u,
        None => "https://api.github.com"@,
    }
    &&& s.strict_schema == cli.strict_schema
    &&& s.schema_validation == !cli.no_schema_validation
    &&& s.validate == cli.validate
    &&& s.pin_floating_to_sha == cli.pin_floating_to_sha
}

fn lit(s: &str) -> (out: String)
    ensures
        out@ == s@,
{
    string_of(&chars_of(s))
}

/// The files scanned when the configuration names none.
pub fn default_includes() -> (v: Vec<String>)
    ensures
        string_views(v@) == default_includes_spec(),
{
    let mut v: Vec<String> = Vec::new();
    v.push(lit(".github/workflows/**/*.yml"));
    v.push(lit(".github/workflows/**/*.yaml"));
    v.push(lit(".github/actions/**/action.yml"));
    v.push(lit(".github/actions/**/action.yaml"));
    v.push(lit("action.yml"));
    v.push(lit("action.yaml"));
    assert(string_views(v@) =~= default_includes_spec());
    v
}

fn clone_opt_string(o: &Option<String>) -> (r: Option<String>)
    ensures
        opt_view(r) == opt_view(*o),
{
    match o {
        Some(s) => Some(s.clone()),
        None => None,
    }
}

fn first_string(a: &Option<String>, b: &Option<String>) -> (r: Option<String>)
    ensures
        opt_view(r) == first_set(opt_view(*a), opt_view(*b)),
{
    match a {
        Some(x) => Some(x.clone()),
        None => clone_opt_string(b),
    }
}

impl Settings {
    /// The settings of a run: the command line over the environment over the
    /// configuration file over the defaults. Fails on zero threads, on a
    /// converting pin style given with `--latest-hash`, and on a bad TTL, in
    /// that order.
    pub fn resolve(cli: &Cli, file: &FileConfig, env: &Environment) -> (r: Result<Settings, ConfigError>)
        ensures
            match r {
                Ok(s) => resolve_error(*cli, *file, *env) is None && resolved(*cli, *file, *env, s),
                Err(e) => resolve_error(*cli, *file, *env) == Some(e.kind()) && error_detail(*cli, *file, *env, e),
            },
    {
        let paths = clone_strings(&cli.paths);
        let mut include_globs = match &file.scan.include_globs {
            Some(v) => clone_strings(v),
            None => default_includes(),
        };
        extend_strings(&mut include_globs, &cli.include_globs);
        let mut exclude = match &file.scan.exclude {
            Some(v) => clone_strings(v),
            None => Vec::new(),
        };
        proof {
            if file.scan.exclude is None {
                assert(string_views(exclude@) =~= Seq::<Seq<char>>::empty());
            }
        }
        extend_strings(&mut exclude, &cli.exclude);
        let recursive = cli.recursive || file.scan.recursive == Some(true);
        let threads = match cli.threads {
            Some(t) => Some(t),
            None => file.performance.threads,
        };
        if threads == Some(0usize) {
            return Err(ConfigError::ZeroThreads);
        }

        let platform = match &env.platform_cache_dir {
            Some(d) => Some(join_dir(d.as_str(), "gh-actions-updater")),
            None => None,
        };
        let dir = first_string(&first_string(&first_string(&cli.cache_dir, &env.cache_dir), &file.cache.dir), &platform);
        let cache_dir = match dir {
            Some(d) => d,
            None => lit(".gh-actions-updater-cache"),
        };
        let ttl_text = match first_string(&first_string(&cli.cache_ttl, &env.cache_ttl), &file.cache.ttl) {
            Some(t) => t,
            None => lit("6h"),
        };

        let update_mode = if cli.latest {
            UpdateMode::Latest
        } else if cli.latest_tag {
            UpdateMode::LatestTag
        } else if cli.latest_hash {
            UpdateMode::LatestHash
        } else {
            match file.update.mode {
                Some(m) => m,
                None => UpdateMode::LatestTag,
            }
        };
        let latest_hash = update_mode == UpdateMode::LatestHash;
        let pin_style = match cli.pin_style {
            Some(p) => p,
            None => match file.update.pin_style {
                Some(p) => p,
                None => PinStyle::Preserve,
            },
        };
        if latest_hash && cli.pin_style.is_some() && pin_style != PinStyle::Preserve {
            return Err(ConfigError::LatestHashWithPinStyle(pin_style));
        }

        let github_token = first_string(
            &first_string(&first_string(&cli.github_token, &env.ghau_github_token), &env.github_token),
            &env.gh_token,
        );
        let github_token_present = github_token.is_some();
        let format = match cli.format {
            Some(f) => f,
            None => match file.output.format {
                Some(f) => f,
                None => OutputFormat::Human,
            },
        };
        let color = match cli.color {
            Some(c) => c,
            None => match file.output.color {
                Some(c) => c,
                None => ColorChoice::Auto,
            },
        };
        let cache_enabled = !cli.no_cache && file.cache.enabled != Some(false);
        let cache_ttl = match parse_ttl(ttl_text.as_str()) {
            Ok(t) => t,
            Err(e) => return Err(e),
        };
        let update_exclude = match &file.update.exclude {
            Some(v) => clone_strings(v),
            None => Vec::new(),
        };
        proof {
            if file.update.exclude is None {
                assert(string_views(update_exclude@) =~= Seq::<Seq<char>>::empty());
            }
        }
        let missing_ref = match cli.missing_ref {
            Some(m) => m,
            None => match file.update.missing_ref {
                Some(m) => m,
                None => MissingRefPolicy::Warn,
            },
        };
        let github_api_url = match first_string(&cli.github_api_url, &file.github.api_url) {
            Some(u) => u,
            None => lit("https://api.github.com"),
        };
        Ok(Settings {
            paths,
            include_globs,
            exclude,
            recursive,
            threads,
            cache_dir,
            cache_ttl,
            cache_enabled,
            refresh_cache: cli.refresh_cache,
            update: cli.update,
            update_mode,
            latest_hash,
            pin_style,
            update_exclude,
            missing_ref,
            include_prereleases: file.update.include_prereleases == Some(true),
            preserve_major: file.update.preserve_major != Some(false),
            check: cli.check,
            dry_run: cli.dry_run || cli.check || !cli.update,
            diff: cli.diff,
            format,
            quiet: cli.quiet,
            verbose: cli.verbose,
            color,
            github_token_present,
            github_token,
            github_api_url,
            strict_schema: cli.strict_schema,
            schema_validation: !cli.no_schema_validation,
            validate: cli.validate,
            pin_floating_to_sha: cli.pin_floating_to_sha,
        })
    }
}

/// The Rust name of a pin style, as `{:?}` prints it.
pub open spec fn pin_style_name(p: PinStyle) -> Seq<char> {
    match p {
        PinStyle::Preserve => "Preserve"@,
        PinStyle::Major => "Major"@,
        PinStyle::Minor => "Minor"@,
        PinStyle::Full => "Full"@,
    }
}

/// The message of a configuration error.
pub open spec fn config_message(e: ConfigError) -> Seq<char> {
    match e {
        ConfigError::InvalidTtl(t) => "invalid cache ttl: "@ + t@,
        ConfigError::InvalidTtlUnit(t) => "invalid cache ttl unit in "@ + t@ + "; use s, m, h, d, or never"@,
        ConfigError::ZeroThreads => "threads must be greater than 0"@,
        ConfigError::LatestHashWithPinStyle(p) => "--latest-hash cannot be combined with --pin-style "@ + pin_style_name(p),
    }
}

impl ConfigError {
    /// The message shown for this error.
    pub fn message(&self) -> (m: String)
        ensures
            m@ == config_message(*self),
    {
        match self {
            ConfigError::InvalidTtl(t) => {
                let mut out = chars_of("invalid cache ttl: ");
                push_all(&mut out, &chars_of(t.as_str()));
                string_of(&out)
            },
            ConfigError::InvalidTtlUnit(t) => {
                let mut out = chars_of("invalid cache ttl unit in ");
                push_all(&mut out, &chars_of(t.as_str()));
                push_all(&mut out, &chars_of("; use s, m, h, d, or never"));
                string_of(&out)
            },
            ConfigError::ZeroThreads => lit("threads must be greater than 0"),
            ConfigError::LatestHashWithPinStyle(p) => {
                let mut out = chars_of("--latest-hash cannot be combined with --pin-style ");
                let name = match p {
                    PinStyle::Preserve => chars_of("Preserve"),
                    PinStyle::Major => chars_of("Major"),
                    PinStyle::Minor => chars_of("Minor"),
                    PinStyle::Full => chars_of("Full"),
                };
                push_all(&mut out, &name);
                string_of(&out)
            },
        }
    }
}

/// What one directory decides while looking upward for the project
/// configuration file.
#[derive(Debug, Clone, Copy, PartialEq, Eq, Structural)]
pub enum ConfigSearch {
    /// The directory holds the file: use it.
    Found,
    /// The directory is a repository root (it holds `.git`) without the file: there is none.
    NotFound,
    /// Look in the parent directory, if there is one.
    Parent,
}

/// The search stops at the first directory that holds the file, or at the
/// first repository root; otherwise it goes on to the parent.
pub fn config_search_step(has_config: bool, has_git: bool) -> (r: ConfigSearch)
    ensures
        r == (if has_config {
            ConfigSearch::Found
        } else if has_git {
            ConfigSearch::NotFound
        } else {
            ConfigSearch::Parent
        }),
{
    if has_config {
        ConfigSearch::Found
    } else if has_git {
        ConfigSearch::NotFound
    } else {
        ConfigSearch::Parent
    }
}

} // verus!
