use meriadoc::config::{
    AuditConfig, AuditSinkConfig, CacheConfig, ConfigLoader, DiscoveryConfig, DiscoveryRoot, MeriadocConfig,
    MeriadocError,
};
use meriadoc::task_spec::AuditSpec;

#[test]
fn test_default_is_empty() {
    let spec = AuditSpec::default();
    assert!(spec.log_env.is_empty());
}

#[test]
fn discovery_defaults() {
    let d = DiscoveryConfig::default();
    assert!(d.roots.is_empty());
    assert_eq!(d.max_depth, 3);
    assert!(d.validate_on_discovery);
    assert_eq!(d.spec_files, vec!["meriadoc.yaml", "meriadoc.yml", "merry.yaml", "merry.yml"]);
}

#[test]
fn cache_and_audit_defaults() {
    let c = CacheConfig::default();
    assert!(c.enabled);
    assert_eq!(c.dir, "");
    let a = AuditConfig::default();
    assert!(!a.enabled);
    assert_eq!(a.sinks.len(), 1);
    assert!(matches!(&a.sinks[0], AuditSinkConfig::File { path } if path.is_empty()));
}

fn config_with(dir: &str, sinks: Vec<AuditSinkConfig>) -> MeriadocConfig {
    MeriadocConfig {
        discovery: DiscoveryConfig {
            roots: vec![DiscoveryRoot { path: "/tmp/example".to_string(), name: None, enabled: true }],
            ..DiscoveryConfig::default()
        },
        cache: CacheConfig { enabled: true, dir: dir.to_string() },
        audit: AuditConfig { enabled: true, sinks },
    }
}

#[test]
fn normalize_with_replaces_only_relative_paths() {
    let config = config_with(
        ".meriadoc/cache",
        vec![
            AuditSinkConfig::File { path: "audit.log".to_string() },
            AuditSinkConfig::Stderr,
            AuditSinkConfig::File { path: "/var/log/audit.log".to_string() },
            AuditSinkConfig::File { path: String::new() },
        ],
    );
    let c = ConfigLoader::normalize_with(config, "/home/u/.config/meriadoc/cache", "/home/u/.config/meriadoc/audit.log");
    assert_eq!(c.cache.dir, "/home/u/.config/meriadoc/cache");
    assert!(matches!(&c.audit.sinks[0], AuditSinkConfig::File { path } if path == "/home/u/.config/meriadoc/audit.log"));
    assert!(matches!(&c.audit.sinks[1], AuditSinkConfig::Stderr));
    assert!(matches!(&c.audit.sinks[2], AuditSinkConfig::File { path } if path == "/var/log/audit.log"));
    assert!(matches!(&c.audit.sinks[3], AuditSinkConfig::File { path } if path == "/home/u/.config/meriadoc/audit.log"));
    assert_eq!(c.discovery.roots.len(), 1);
    assert_eq!(c.discovery.max_depth, 3);
}

#[test]
fn normalize_with_keeps_absolute_cache_dir() {
    let config = config_with("/srv/cache", vec![]);
    let c = ConfigLoader::normalize_with(config, "/default/cache", "/default/audit.log");
    assert_eq!(c.cache.dir, "/srv/cache");
}

#[test]
fn normalize_with_is_idempotent() {
    let config = config_with("rel", vec![AuditSinkConfig::File { path: "x".to_string() }]);
    let once = ConfigLoader::normalize_with(config, "/d/cache", "/d/audit.log");
    let twice = ConfigLoader::normalize_with(
        config_with(&once.cache.dir, vec![AuditSinkConfig::File { path: "/d/audit.log".to_string() }]),
        "/other/cache",
        "/other/audit.log",
    );
    assert_eq!(twice.cache.dir, once.cache.dir);
    assert!(matches!(&twice.audit.sinks[0], AuditSinkConfig::File { path } if path == "/d/audit.log"));
}

#[test]
fn default_config_paths_become_absolute() {
    let config = MeriadocConfig::default();
    match ConfigLoader::normalize(config) {
        Ok(c) => {
            assert!(std::path::Path::new(&c.cache.dir).is_absolute());
            assert!(c.cache.dir.ends_with("meriadoc/cache"));
            match &c.audit.sinks[0] {
                AuditSinkConfig::File { path } => {
                    assert!(std::path::Path::new(path).is_absolute());
                    assert!(path.ends_with("meriadoc/audit.log"));
                }
                AuditSinkConfig::Stderr => panic!("expected default file sink"),
            }
        }
        Err(e) => assert_eq!(e, MeriadocError::ConfigDirUnavailable),
    }
}

#[test]
fn normalize_needs_nothing_for_absolute_config() {
    let config = config_with("/abs/cache", vec![AuditSinkConfig::Stderr]);
    let c = ConfigLoader::normalize(config).unwrap();
    assert_eq!(c.cache.dir, "/abs/cache");
}

#[test]
fn resolve_config_path_prefers_the_override() {
    let p = ConfigLoader::resolve_config_path(Some("/etc/meriadoc.yaml".to_string())).unwrap();
    assert_eq!(p, "/etc/meriadoc.yaml");
    if let Ok(p) = ConfigLoader::resolve_config_path(None) {
        assert!(p.ends_with("meriadoc/config.yaml"));
    }
}

#[test]
fn default_paths_live_under_meriadoc() {
    if let Ok(p) = ConfigLoader::default_cache_base() {
        assert!(p.ends_with("/meriadoc/cache"));
    }
    if let Ok(p) = ConfigLoader::default_audit_log() {
        assert!(p.ends_with("/meriadoc/audit.log"));
    }
}

#[test]
fn enabled_sinks_follow_the_switch() {
    let disabled = AuditConfig {
        enabled: false,
        sinks: vec![AuditSinkConfig::Stderr, AuditSinkConfig::File { path: "/a".to_string() }],
    };
    assert!(disabled.enabled_sinks().is_empty());
    let enabled = AuditConfig { enabled: true, ..disabled };
    let sinks = enabled.enabled_sinks();
    assert_eq!(sinks.len(), 2);
    assert!(matches!(&sinks[0], AuditSinkConfig::Stderr));
    assert!(matches!(&sinks[1], AuditSinkConfig::File { path } if path == "/a"));
}

#[test]
fn error_message() {
    assert_eq!(MeriadocError::ConfigDirUnavailable.message(), "Could not resolve config directory");
}

#[test]
fn meriadoc_file_in_joins_or_fails() {
    assert_eq!(
        ConfigLoader::meriadoc_file_in(Some("/home/u/.config".to_string()), "cache"),
        Ok("/home/u/.config/meriadoc/cache".to_string())
    );
    assert_eq!(
        ConfigLoader::meriadoc_file_in(None, "audit.log"),
        Err(MeriadocError::ConfigDirUnavailable)
    );
}

#[test]
fn normalize_in_uses_the_given_config_dir() {
    let config = config_with(
        "",
        vec![AuditSinkConfig::File { path: "audit.log".to_string() }, AuditSinkConfig::Stderr],
    );
    let c = ConfigLoader::normalize_in(config, Some("/home/u/.config".to_string())).unwrap();
    assert_eq!(c.cache.dir, "/home/u/.config/meriadoc/cache");
    assert!(matches!(&c.audit.sinks[0], AuditSinkConfig::File { path } if path == "/home/u/.config/meriadoc/audit.log"));
    assert!(matches!(&c.audit.sinks[1], AuditSinkConfig::Stderr));
}

#[test]
fn normalize_in_without_config_dir_fails_only_when_needed() {
    let needs = config_with("~/.config/meriadoc/cache", vec![]);
    assert_eq!(ConfigLoader::normalize_in(needs, None).err(), Some(MeriadocError::ConfigDirUnavailable));
    let absolute = config_with("/srv/cache", vec![AuditSinkConfig::File { path: "/var/log/a.log".to_string() }]);
    let c = ConfigLoader::normalize_in(absolute, None).unwrap();
    assert_eq!(c.cache.dir, "/srv/cache");
}

#[test]
fn normalize_in_completes_a_partial_audit_section() {
    // `audit:\n  enabled: true\n` with every other field at its default.
    let config = MeriadocConfig {
        audit: AuditConfig { enabled: true, ..AuditConfig::default() },
        ..MeriadocConfig::default()
    };
    let c = ConfigLoader::normalize_in(config, Some("/home/u/.config".to_string())).unwrap();
    assert!(c.audit.enabled);
    assert_eq!(c.audit.sinks.len(), 1);
    assert!(matches!(&c.audit.sinks[0], AuditSinkConfig::File { path } if path == "/home/u/.config/meriadoc/audit.log"));
    assert_eq!(c.cache.dir, "/home/u/.config/meriadoc/cache");
}

#[test]
fn normalize_in_completes_the_readme_example() {
    let config = MeriadocConfig {
        discovery: DiscoveryConfig {
            roots: vec![DiscoveryRoot { path: "/home/user/projects".to_string(), name: None, enabled: true }],
            ..DiscoveryConfig::default()
        },
        cache: CacheConfig { enabled: true, dir: "~/.config/meriadoc/cache".to_string() },
        audit: AuditConfig {
            enabled: false,
            sinks: vec![
                AuditSinkConfig::File { path: "~/.config/meriadoc/audit.log".to_string() },
                AuditSinkConfig::Stderr,
            ],
        },
    };
    let c = ConfigLoader::normalize_in(config, Some("/home/user/.config".to_string())).unwrap();
    assert!(!c.discovery.roots.is_empty());
    assert!(!c.audit.enabled);
    assert_eq!(c.audit.sinks.len(), 2);
    assert_eq!(c.cache.dir, "/home/user/.config/meriadoc/cache");
    assert!(matches!(&c.audit.sinks[0], AuditSinkConfig::File { path } if path == "/home/user/.config/meriadoc/audit.log"));
    assert!(matches!(&c.audit.sinks[1], AuditSinkConfig::Stderr));
}
