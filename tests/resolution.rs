use qlty_config::config::{
    compose, Coverage, ConfigError, EnabledRuntimes, Language, PluginsConfig, QltyConfig,
};
use qlty_config::platform::{select, Cpu, DownloadFileType, OperatingSystem, Platform, System};
use qlty_config::plugin::{
    resolve_plugin, DriverBatchBy, DriverDef, DriverType, EnabledPlugin, OutputFormat, PluginDef,
    PluginError,
};
use qlty_config::source::{CachedSource, Library, SourceDef, SourceError, SourceKind};
use qlty_config::version::{check_versions, is_version_compatible, CompatibilityVerdict, SemVer};

fn v(major: u64, minor: u64, patch: u64) -> SemVer {
    SemVer { major, minor, patch }
}

fn row(os: Option<OperatingSystem>, cpu: Option<Cpu>, url: &str) -> System {
    System {
        platform: Platform { os, cpu },
        url: url.to_string(),
        file_type: DownloadFileType::Targz,
        package_files: vec![],
    }
}

fn dir(name: Option<&str>, path: &str) -> SourceDef {
    SourceDef {
        name: name.map(|n| n.to_string()),
        kind: SourceKind::Directory { path: path.to_string() },
    }
}

fn plugin_def(name: &str, version: Option<&str>, downloads: Vec<System>, extra: Vec<&str>) -> PluginDef {
    PluginDef {
        name: name.to_string(),
        version: version.map(|s| s.to_string()),
        runtime: None,
        drivers: vec![DriverDef {
            name: "lint".to_string(),
            script: format!("{} check", name),
            driver_type: DriverType::Linter,
            batch_by: DriverBatchBy::PerFile,
            output_format: OutputFormat::Sarif,
        }],
        downloads,
        extra_packages: extra.into_iter().map(|s| s.to_string()).collect(),
    }
}

fn enabled(name: &str, version: Option<&str>, extra: Vec<&str>) -> EnabledPlugin {
    EnabledPlugin {
        name: name.to_string(),
        version: version.map(|s| s.to_string()),
        extra_packages: extra.into_iter().map(|s| s.to_string()).collect(),
    }
}

fn any_row(url: &str) -> System {
    row(None, None, url)
}

fn empty_config() -> QltyConfig {
    QltyConfig {
        config_version: None,
        cli_version: None,
        project_id: None,
        ignore: vec![],
        overrides: vec![],
        file_types: vec![],
        test_patterns: vec!["**/*_test.rs".to_string()],
        coverage: Coverage { paths: vec![], ignores: vec![] },
        runtimes: EnabledRuntimes { enabled: vec![] },
        plugins: PluginsConfig { downloads: vec![] },
        sources: vec![],
        language: vec![],
        exclude_patterns: vec!["target/**".to_string()],
        ignore_patterns: vec![],
        plugin: vec![],
        smells: None,
        source: vec![],
    }
}

fn library() -> Library {
    Library {
        root: "/cache".to_string(),
        cached: vec![
            CachedSource {
                location: "/local".to_string(),
                plugins: vec![plugin_def("eslint", Some("8.0.0"), vec![any_row("local-eslint")], vec![])],
            },
            CachedSource {
                location: "/defaults".to_string(),
                plugins: vec![
                    plugin_def("eslint", Some("9.0.0"), vec![any_row("default-eslint")], vec![]),
                    plugin_def(
                        "ruff",
                        Some("0.5.0"),
                        vec![row(Some(OperatingSystem::Linux), Some(Cpu::X86_64), "ruff-linux")],
                        vec!["base"],
                    ),
                    plugin_def("shellcheck", None, vec![any_row("shellcheck")], vec![]),
                ],
            },
        ],
    }
}

#[test]
fn version_gate_boundaries() {
    assert!(!is_version_compatible(&v(0, 9, 0), &v(0, 8, 0)));
    assert!(is_version_compatible(&v(0, 8, 0), &v(0, 9, 0)));
    assert!(!is_version_compatible(&v(1, 3, 0), &v(2, 0, 0)));
    assert!(is_version_compatible(&v(1, 0, 0), &v(1, 9, 9)));
    assert_eq!(check_versions(None, v(0, 1, 0)), CompatibilityVerdict::Compatible);
    assert_eq!(
        check_versions(Some(v(0, 9, 0)), v(0, 8, 0)),
        CompatibilityVerdict::Incompatible { declared: v(0, 9, 0), running: v(0, 8, 0) }
    );
    assert_eq!(check_versions(Some(v(2, 0, 0)), v(1, 0, 0)), CompatibilityVerdict::Incompatible {
        declared: v(2, 0, 0),
        running: v(1, 0, 0)
    });
}

#[test]
fn validate_cli_version_parses_and_gates() {
    let mut config = empty_config();
    assert!(config.validate_cli_version(&"not a version".to_string(), false).is_ok());

    config.cli_version = Some("0.9.0".to_string());
    match config.validate_cli_version(&"0.8.0".to_string(), false) {
        Err(ConfigError::IncompatibleVersion { declared, running }) => {
            assert_eq!(declared, v(0, 9, 0));
            assert_eq!(running, v(0, 8, 0));
        }
        other => panic!("unexpected {:?}", other),
    }
    assert!(config.validate_cli_version(&"0.8.0".to_string(), true).is_ok());
    assert!(config.validate_cli_version(&"0.9.3".to_string(), false).is_ok());
    assert!(config.validate_cli_version(&"0.10.0-beta.1+build".to_string(), false).is_ok());

    match config.validate_cli_version(&"".to_string(), false) {
        Err(ConfigError::InvalidVersion { text }) => assert_eq!(text, ""),
        other => panic!("unexpected {:?}", other),
    }
    config.cli_version = Some("1.0".to_string());
    match config.validate_cli_version(&"1.0.0".to_string(), false) {
        Err(ConfigError::InvalidVersion { text }) => assert_eq!(text, "1.0"),
        other => panic!("unexpected {:?}", other),
    }
    config.cli_version = Some("1.3.0".to_string());
    assert!(matches!(
        config.validate_cli_version(&"2.0.0".to_string(), false),
        Err(ConfigError::IncompatibleVersion { .. })
    ));
    assert!(config.validate_cli_version(&"1.0.1".to_string(), false).is_ok());
}

#[test]
fn platform_match_prefers_the_most_specific_row() {
    let matrix = vec![
        any_row("any"),
        row(Some(OperatingSystem::Linux), None, "linux-any"),
        row(Some(OperatingSystem::Linux), Some(Cpu::X86_64), "linux-x86"),
    ];
    assert_eq!(select(&matrix, OperatingSystem::Linux, Cpu::X86_64).unwrap(), 2);
    assert_eq!(select(&matrix, OperatingSystem::Linux, Cpu::Aarch64).unwrap(), 1);
    assert_eq!(select(&matrix, OperatingSystem::MacOS, Cpu::Aarch64).unwrap(), 0);
}

#[test]
fn platform_any_os_exact_cpu_beats_any_any_and_first_wins() {
    let matrix = vec![
        any_row("any"),
        row(None, Some(Cpu::Aarch64), "arm-1"),
        row(None, Some(Cpu::Aarch64), "arm-2"),
    ];
    assert_eq!(select(&matrix, OperatingSystem::Windows, Cpu::Aarch64).unwrap(), 1);
    assert_eq!(select(&matrix, OperatingSystem::Windows, Cpu::X86_64).unwrap(), 0);
}

#[test]
fn platform_no_match_is_fatal() {
    let matrix = vec![row(Some(OperatingSystem::Windows), Some(Cpu::X86_64), "win")];
    let err = select(&matrix, OperatingSystem::Linux, Cpu::X86_64).unwrap_err();
    assert_eq!(err.os, OperatingSystem::Linux);
    assert_eq!(err.cpu, Cpu::X86_64);
    assert_eq!(
        err.available,
        vec![Platform { os: Some(OperatingSystem::Windows), cpu: Some(Cpu::X86_64) }]
    );
    assert!(select(&vec![], OperatingSystem::Linux, Cpu::X86_64).is_err());
}

#[test]
fn default_source_prefers_the_list() {
    let mut config = empty_config();
    config.source = vec![dir(Some("other"), "/other"), dir(Some("default"), "/local")];
    config.sources = vec![("default".to_string(), dir(None, "/defaults"))];
    let source = config.default_source(&library()).unwrap();
    match source.kind {
        SourceKind::Directory { path } => assert_eq!(path, "/local"),
        other => panic!("unexpected {:?}", other),
    }
    assert_eq!(source.cached, Some(0));
}

#[test]
fn default_source_falls_back_to_the_mapping() {
    let mut config = empty_config();
    config.source = vec![dir(Some("other"), "/other")];
    config.sources = vec![
        ("extra".to_string(), dir(None, "/other")),
        ("default".to_string(), dir(None, "/defaults")),
    ];
    let source = config.default_source(&library()).unwrap();
    assert_eq!(source.cached, Some(1));
}

#[test]
fn default_source_missing() {
    let mut config = empty_config();
    config.source = vec![dir(None, "/local")];
    config.sources = vec![("defaults".to_string(), dir(None, "/defaults"))];
    assert!(matches!(config.default_source(&library()), Err(ConfigError::MissingDefaultSource)));
}

#[test]
fn default_source_that_does_not_resolve() {
    let mut config = empty_config();
    config.source = vec![SourceDef {
        name: Some("default".to_string()),
        kind: SourceKind::Registry { name: "".to_string() },
    }];
    assert!(matches!(
        config.default_source(&library()),
        Err(ConfigError::Source(SourceError::EmptyRegistryName))
    ));
}

#[test]
fn sources_list_puts_the_list_before_the_mapping() {
    let mut config = empty_config();
    config.source = vec![dir(None, "/defaults"), dir(None, "/nowhere")];
    config.sources = vec![("default".to_string(), dir(None, "/local"))];
    let list = config.sources_list(&library()).unwrap();
    let cached: Vec<Option<usize>> = list.sources.iter().map(|s| s.cached).collect();
    assert_eq!(cached, vec![Some(1), None, Some(0)]);
}

#[test]
fn sources_list_fails_on_a_repository_without_ref() {
    let mut config = empty_config();
    config.source = vec![dir(None, "/local")];
    config.sources = vec![(
        "default".to_string(),
        SourceDef {
            name: None,
            kind: SourceKind::Repository { url: "https://example.com/plugins".to_string(), reference: None },
        },
    )];
    match config.sources_list(&library()) {
        Err(SourceError::MissingReference { url }) => assert_eq!(url, "https://example.com/plugins"),
        other => panic!("unexpected {:?}", other),
    }
    let ok = SourceDef {
        name: None,
        kind: SourceKind::Repository {
            url: "https://example.com/plugins".to_string(),
            reference: Some("v1".to_string()),
        },
    };
    assert!(ok.source(&library()).is_ok());
}

#[test]
fn language_map_keeps_names_and_applies_the_function() {
    let mut config = empty_config();
    config.language = vec![
        ("rust".to_string(), Language { globs: vec!["*.rs".to_string()], test_patterns: vec![] }),
        (
            "python".to_string(),
            Language { globs: vec!["*.py".to_string(), "*.pyi".to_string()], test_patterns: vec![] },
        ),
    ];
    let map = config.language_map(|l| l.globs.len());
    assert_eq!(map, vec![("rust".to_string(), 1), ("python".to_string(), 2)]);
}

#[test]
fn find_plugin_takes_the_first_source_in_order() {
    let mut config = empty_config();
    config.source = vec![dir(None, "/local"), dir(Some("default"), "/defaults")];
    let lib = library();
    let list = config.sources_list(&lib).unwrap();
    assert_eq!(list.find_plugin(&lib, &"eslint".to_string()), Some((0, 0)));
    assert_eq!(list.find_plugin(&lib, &"ruff".to_string()), Some((1, 1)));
    assert_eq!(list.find_plugin(&lib, &"black".to_string()), None);
}

#[test]
fn resolve_plugin_outcomes() {
    let mut config = empty_config();
    config.source = vec![dir(Some("default"), "/defaults")];
    let lib = library();
    let list = config.sources_list(&lib).unwrap();
    let os = OperatingSystem::Linux;
    let cpu = Cpu::X86_64;

    let r = resolve_plugin(&enabled("ruff", Some("0.5.0"), vec!["extra"]), &list, &lib, os, cpu).unwrap();
    assert_eq!(r.name, "ruff");
    assert_eq!((r.source, r.plugin, r.download), (0, 1, 0));
    assert_eq!(r.extra_packages, vec!["base".to_string(), "extra".to_string()]);

    match resolve_plugin(&enabled("black", None, vec![]), &list, &lib, os, cpu) {
        Err(PluginError::UnknownPlugin { name }) => assert_eq!(name, "black"),
        other => panic!("unexpected {:?}", other),
    }
    match resolve_plugin(&enabled("ruff", Some("0.4.0"), vec![]), &list, &lib, os, cpu) {
        Err(PluginError::VersionNotAvailable { name, requested }) => {
            assert_eq!(name, "ruff");
            assert_eq!(requested, "0.4.0");
        }
        other => panic!("unexpected {:?}", other),
    }
    assert!(matches!(
        resolve_plugin(&enabled("shellcheck", Some("1.0.0"), vec![]), &list, &lib, os, cpu),
        Err(PluginError::VersionNotAvailable { .. })
    ));
    match resolve_plugin(&enabled("ruff", None, vec![]), &list, &lib, OperatingSystem::MacOS, Cpu::Aarch64) {
        Err(PluginError::NoMatchingArtifact { name, artifact }) => {
            assert_eq!(name, "ruff");
            assert_eq!(artifact.os, OperatingSystem::MacOS);
            assert_eq!(artifact.available.len(), 1);
        }
        other => panic!("unexpected {:?}", other),
    }
}

fn composed_config() -> QltyConfig {
    let mut config = empty_config();
    config.cli_version = Some("0.5.0".to_string());
    config.source = vec![dir(None, "/local")];
    config.sources = vec![("default".to_string(), dir(None, "/defaults"))];
    config.plugin = vec![
        enabled("eslint", None, vec![]),
        enabled("ruff", None, vec!["plugin-a"]),
        enabled("shellcheck", None, vec![]),
    ];
    config
}

#[test]
fn compose_resolves_every_plugin() {
    let config = composed_config();
    let plan = compose(&config, &"0.5.2".to_string(), false, &library(), OperatingSystem::Linux, Cpu::X86_64)
        .unwrap();
    assert_eq!(plan.plugins.len(), 3);
    assert_eq!((plan.plugins[0].source, plan.plugins[0].plugin), (0, 0));
    assert_eq!((plan.plugins[1].source, plan.plugins[1].plugin), (1, 1));
    assert_eq!(plan.plugins[1].extra_packages, vec!["base".to_string(), "plugin-a".to_string()]);
    assert_eq!(plan.default_source.cached, Some(1));
    assert_eq!(plan.exclude_patterns, config.exclude_patterns);
    assert_eq!(plan.test_patterns, config.test_patterns);
}

#[test]
fn compose_is_all_or_nothing() {
    let mut config = composed_config();
    config.plugin[1] = enabled("black", None, vec![]);
    match compose(&config, &"0.5.2".to_string(), false, &library(), OperatingSystem::Linux, Cpu::X86_64) {
        Err(ConfigError::Plugin { name, cause }) => {
            assert_eq!(name, "black");
            assert!(matches!(cause, PluginError::UnknownPlugin { .. }));
        }
        other => panic!("unexpected {:?}", other),
    }
}

#[test]
fn compose_stops_at_the_version_gate_and_missing_default() {
    let config = composed_config();
    assert!(matches!(
        compose(&config, &"0.4.0".to_string(), false, &library(), OperatingSystem::Linux, Cpu::X86_64),
        Err(ConfigError::IncompatibleVersion { .. })
    ));
    assert!(compose(&config, &"0.4.0".to_string(), true, &library(), OperatingSystem::Linux, Cpu::X86_64).is_ok());
    let mut no_default = composed_config();
    no_default.sources = vec![];
    no_default.source = vec![dir(None, "/defaults")];
    assert!(matches!(
        compose(&no_default, &"0.5.0".to_string(), false, &library(), OperatingSystem::Linux, Cpu::X86_64),
        Err(ConfigError::MissingDefaultSource)
    ));
}

#[test]
fn compose_twice_gives_equal_plans() {
    let config = composed_config();
    let a = compose(&config, &"0.5.0".to_string(), false, &library(), OperatingSystem::Linux, Cpu::X86_64);
    let b = compose(&config, &"0.5.0".to_string(), false, &library(), OperatingSystem::Linux, Cpu::X86_64);
    assert!(a.is_ok());
    assert_eq!(format!("{:?}", a), format!("{:?}", b));
}
