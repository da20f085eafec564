use gh_actions_updater::cli::{Cli, ColorChoice, MissingRefPolicy, OutputFormat, PinStyle, UpdateMode};
use gh_actions_updater::config::{
    default_includes, parse_ttl, CacheConfig, CacheTtl, ConfigError, Environment, FileConfig, Settings,
};

fn no_env() -> Environment {
    Environment {
        cache_dir: None,
        cache_ttl: None,
        ghau_github_token: None,
        github_token: None,
        gh_token: None,
        platform_cache_dir: None,
    }
}

#[test]
fn parses_ttl_values() {
    assert_eq!(parse_ttl("0").unwrap(), CacheTtl::Seconds(0));
    assert_eq!(parse_ttl("15m").unwrap(), CacheTtl::Seconds(900));
    assert_eq!(parse_ttl("6h").unwrap(), CacheTtl::Seconds(21_600));
    assert_eq!(parse_ttl("7d").unwrap(), CacheTtl::Seconds(604_800));
    assert_eq!(parse_ttl("never").unwrap(), CacheTtl::Never);
}

#[test]
fn ttl_edge_cases() {
    assert_eq!(parse_ttl(" NEVER ").unwrap(), CacheTtl::Never);
    assert_eq!(parse_ttl("30s").unwrap(), CacheTtl::Seconds(30));
    assert_eq!(parse_ttl("99999999999999999999d").unwrap_err(), ConfigError::InvalidTtl("99999999999999999999d".to_string()));
    assert_eq!(parse_ttl("18446744073709551615d").unwrap(), CacheTtl::Seconds(u64::MAX));
    assert_eq!(parse_ttl("5w").unwrap_err(), ConfigError::InvalidTtlUnit("5w".to_string()));
    assert_eq!(parse_ttl("h").unwrap_err(), ConfigError::InvalidTtl("h".to_string()));
    assert_eq!(
        parse_ttl("5w").unwrap_err().message(),
        "invalid cache ttl unit in 5w; use s, m, h, d, or never"
    );
}

#[test]
fn cli_overrides_defaults() {
    let mut cli = Cli::default();
    cli.include_globs = vec![".github/workflows/*.yml".to_string()];
    cli.exclude = vec!["**/skip.yml".to_string()];
    cli.recursive = true;
    cli.threads = Some(2);
    cli.no_cache = true;
    cli.cache_ttl = Some("0".to_string());
    cli.missing_ref = Some(MissingRefPolicy::Error);
    cli.format = Some(OutputFormat::Json);
    cli.color = Some(ColorChoice::Never);
    let settings = Settings::resolve(&cli, &FileConfig::default(), &no_env()).unwrap();
    assert!(settings.include_globs.contains(&".github/workflows/*.yml".to_string()));
    assert_eq!(settings.exclude, vec!["**/skip.yml"]);
    assert!(settings.recursive);
    assert_eq!(settings.threads, Some(2));
    assert_eq!(settings.cache_ttl, CacheTtl::Seconds(0));
    assert!(!settings.cache_enabled);
    assert_eq!(settings.missing_ref, MissingRefPolicy::Error);
    assert_eq!(settings.pin_style, PinStyle::Preserve);
    assert_eq!(settings.format, OutputFormat::Json);
    assert_eq!(settings.color, ColorChoice::Never);
}

#[test]
fn cli_output_options_override_config() {
    let mut file = FileConfig::default();
    file.output.format = Some(OutputFormat::Json);
    file.output.color = Some(ColorChoice::Always);
    let mut cli = Cli::default();
    cli.format = Some(OutputFormat::Human);
    cli.color = Some(ColorChoice::Never);
    let settings = Settings::resolve(&cli, &file, &no_env()).unwrap();
    assert_eq!(settings.format, OutputFormat::Human);
    assert_eq!(settings.color, ColorChoice::Never);
}

#[test]
fn cli_pin_style_overrides_config() {
    let mut file = FileConfig::default();
    file.update.pin_style = Some(PinStyle::Major);
    let mut cli = Cli::default();
    cli.pin_style = Some(PinStyle::Full);
    let settings = Settings::resolve(&cli, &file, &no_env()).unwrap();
    assert_eq!(settings.pin_style, PinStyle::Full);
}

#[test]
fn latest_hash_rejects_pin_style_conversion() {
    let mut cli = Cli::default();
    cli.latest_hash = true;
    cli.pin_style = Some(PinStyle::Full);
    let error = Settings::resolve(&cli, &FileConfig::default(), &no_env()).unwrap_err();
    assert!(error.message().contains("--latest-hash cannot be combined"));
    assert_eq!(error, ConfigError::LatestHashWithPinStyle(PinStyle::Full));
}

#[test]
fn cli_excludes_are_added_to_config_excludes() {
    let mut file = FileConfig::default();
    file.scan.exclude = Some(vec!["vendor/**".to_string()]);
    let mut cli = Cli::default();
    cli.exclude = vec!["generated/**".to_string()];
    let settings = Settings::resolve(&cli, &file, &no_env()).unwrap();
    assert_eq!(settings.exclude, vec!["vendor/**", "generated/**"]);
}

#[test]
fn defaults_without_any_configuration() {
    let settings = Settings::resolve(&Cli::default(), &FileConfig::default(), &no_env()).unwrap();
    assert_eq!(settings.include_globs, default_includes());
    assert_eq!(settings.include_globs.len(), 6);
    assert_eq!(settings.cache_ttl, CacheTtl::Seconds(21_600));
    assert_eq!(settings.cache_dir, ".gh-actions-updater-cache");
    assert!(settings.cache_enabled);
    assert_eq!(settings.update_mode, UpdateMode::LatestTag);
    assert!(!settings.latest_hash);
    assert_eq!(settings.github_api_url, "https://api.github.com");
    assert!(settings.dry_run);
    assert!(settings.preserve_major);
    assert!(!settings.include_prereleases);
    assert_eq!(settings.missing_ref, MissingRefPolicy::Warn);
}

#[test]
fn environment_fills_in_after_the_command_line() {
    let mut env = no_env();
    env.cache_dir = Some("/env/cache".to_string());
    env.github_token = Some("from-github".to_string());
    env.gh_token = Some("from-gh".to_string());
    env.platform_cache_dir = Some("/home/u/.cache".to_string());
    let settings = Settings::resolve(&Cli::default(), &FileConfig::default(), &env).unwrap();
    assert_eq!(settings.cache_dir, "/env/cache");
    assert_eq!(settings.github_token.as_deref(), Some("from-github"));
    assert!(settings.github_token_present);

    let mut env = no_env();
    env.platform_cache_dir = Some("/home/u/.cache".to_string());
    let mut file = FileConfig::default();
    file.cache = CacheConfig { enabled: Some(false), ttl: Some("1m".to_string()), dir: None };
    let settings = Settings::resolve(&Cli::default(), &file, &env).unwrap();
    assert_eq!(settings.cache_dir, "/home/u/.cache/gh-actions-updater");
    assert_eq!(settings.cache_ttl, CacheTtl::Seconds(60));
    assert!(!settings.cache_enabled);
}

#[test]
fn zero_threads_and_bad_ttl_are_rejected() {
    let mut cli = Cli::default();
    cli.threads = Some(0);
    assert_eq!(Settings::resolve(&cli, &FileConfig::default(), &no_env()).unwrap_err(), ConfigError::ZeroThreads);
    let mut file = FileConfig::default();
    file.cache.ttl = Some("soon".to_string());
    let err = Settings::resolve(&Cli::default(), &file, &no_env()).unwrap_err();
    assert_eq!(err, ConfigError::InvalidTtl("soon".to_string()));
    assert_eq!(err.message(), "invalid cache ttl: soon");
}

#[test]
fn first_mode_flag_wins_and_latest_hash_allows_preserve() {
    let mut cli = Cli::default();
    cli.latest_tag = true;
    cli.latest_hash = true;
    let settings = Settings::resolve(&cli, &FileConfig::default(), &no_env()).unwrap();
    assert_eq!(settings.update_mode, UpdateMode::LatestTag);

    let mut cli = Cli::default();
    cli.latest_hash = true;
    cli.pin_style = Some(PinStyle::Preserve);
    let settings = Settings::resolve(&cli, &FileConfig::default(), &no_env()).unwrap();
    assert!(settings.latest_hash);

    let mut file = FileConfig::default();
    file.update.pin_style = Some(PinStyle::Full);
    let mut cli = Cli::default();
    cli.latest_hash = true;
    let settings = Settings::resolve(&cli, &file, &no_env()).unwrap();
    assert_eq!(settings.pin_style, PinStyle::Full);
}

#[test]
fn configured_modes_are_all_accepted() {
    for mode in [UpdateMode::LatestTag, UpdateMode::LatestHash, UpdateMode::Latest] {
        let mut file = FileConfig::default();
        file.update.mode = Some(mode);
        let s = Settings::resolve(&Cli::default(), &file, &no_env()).unwrap();
        assert_eq!(s.update_mode, mode);
        assert_eq!(s.latest_hash, mode == UpdateMode::LatestHash);
    }
}

#[test]
fn command_line_mode_overrides_configured_mode_and_pin_style() {
    let mut file = FileConfig::default();
    file.update.mode = Some(UpdateMode::LatestTag);
    file.update.pin_style = Some(PinStyle::Major);
    let cli = Cli { latest_hash: true, ..Cli::default() };
    let s = Settings::resolve(&cli, &file, &no_env()).unwrap();
    assert_eq!(s.update_mode, UpdateMode::LatestHash);
    assert_eq!(s.pin_style, PinStyle::Major);

    let mut file = FileConfig::default();
    file.update.mode = Some(UpdateMode::LatestHash);
    let cli = Cli { latest_tag: true, pin_style: Some(PinStyle::Full), ..Cli::default() };
    let s = Settings::resolve(&cli, &file, &no_env()).unwrap();
    assert_eq!(s.update_mode, UpdateMode::LatestTag);
    assert!(!s.latest_hash);
    assert_eq!(s.pin_style, PinStyle::Full);
}
