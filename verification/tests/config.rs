//! Per-repo configuration.

use scaffold_ai::config::{RepoConfig, RepoConfigFile, DEFAULT_THRESHOLD_BITS};
use scaffold_ai::error::TriageError;
use scaffold_ai::score::Score;

/// Reads a file's text into the fields that it sets.
fn read(raw: &str) -> Result<RepoConfigFile, String> {
    let table: toml::Table = raw.parse().map_err(|e: toml::de::Error| e.to_string())?;
    let texts = |key: &str| {
        table.get(key).map(|v| {
            v.as_array()
                .unwrap()
                .iter()
                .map(|t| t.as_str().unwrap().to_string())
                .collect::<Vec<String>>()
        })
    };
    Ok(RepoConfigFile {
        maintainers: texts("maintainers"),
        escalation_label: table.get("escalation_label").map(|v| v.as_str().unwrap().to_string()),
        test_globs: texts("test_globs"),
        source_globs: texts("source_globs"),
        confidence_threshold: table.get("confidence_threshold").map(|v| {
            let f = v.as_float().unwrap();
            Score::new(f.to_bits(), format!("{f}"))
        }),
        cooldown_minutes: table.get("cooldown_minutes").map(|v| v.as_integer().unwrap() as u64),
        triage_on_synchronize: table.get("triage_on_synchronize").map(|v| v.as_bool().unwrap()),
        min_description_chars: table
            .get("min_description_chars")
            .map(|v| v.as_integer().unwrap() as usize),
        skip_drafts: table.get("skip_drafts").map(|v| v.as_bool().unwrap()),
    })
}

#[test]
fn partial_toml_fills_defaults() {
    let cfg =
        RepoConfig::from_toml_str(read("maintainers = [\"alice\"]\ncooldown_minutes = 30\n"))
            .unwrap();
    assert_eq!(cfg.maintainers, vec!["alice"]);
    assert_eq!(cfg.cooldown_minutes, 30);
    assert_eq!(cfg.escalation_label, "needs-maintainer-review");
    assert!(cfg.triage_on_synchronize);
}

#[test]
fn empty_toml_is_default() {
    let cfg = RepoConfig::from_toml_str(read("")).unwrap();
    assert_eq!(f64::from_bits(cfg.confidence_threshold.bits), 0.7);
}

#[test]
fn the_default_is_what_the_docs_say() {
    let cfg = RepoConfig::default();
    assert_eq!(DEFAULT_THRESHOLD_BITS, 0.7f64.to_bits());
    assert_eq!(cfg.confidence_threshold.shown, "0.7");
    assert!(cfg.maintainers.is_empty());
    assert_eq!(cfg.cooldown_minutes, 10);
    assert_eq!(cfg.min_description_chars, 40);
    assert!(cfg.skip_drafts);
    assert_eq!(cfg.source_globs, vec!["src/**", "lib/**", "app/**"]);
    assert_eq!(cfg.test_globs.len(), 6);
}

#[test]
fn a_full_file_overrides_everything() {
    let raw = "maintainers = [\"a\", \"b\"]\nescalation_label = \"help\"\ntest_globs = [\"t/**\"]\n\
source_globs = [\"s/**\"]\nconfidence_threshold = 0.25\ncooldown_minutes = 0\n\
triage_on_synchronize = false\nmin_description_chars = 5\nskip_drafts = false\n";
    let cfg = RepoConfig::from_toml_str(read(raw)).unwrap();
    assert_eq!(cfg.maintainers, vec!["a", "b"]);
    assert_eq!(cfg.escalation_label, "help");
    assert_eq!(cfg.test_globs, vec!["t/**"]);
    assert_eq!(cfg.source_globs, vec!["s/**"]);
    assert_eq!(cfg.confidence_threshold.bits, 0.25f64.to_bits());
    assert_eq!(cfg.cooldown_minutes, 0);
    assert!(!cfg.triage_on_synchronize);
    assert_eq!(cfg.min_description_chars, 5);
    assert!(!cfg.skip_drafts);
}

#[test]
fn unreadable_files_are_config_errors() {
    let e = RepoConfig::from_toml_str(read("maintainers = [")).unwrap_err();
    assert!(matches!(&e, TriageError::Config(_)));
    assert!(e.message().starts_with("invalid repo config: "));
}

#[test]
fn missing_and_broken_files_are_the_default() {
    assert_eq!(RepoConfig::or_default(None).cooldown_minutes, 10);
    assert_eq!(RepoConfig::or_default(Some(read("x ="))).cooldown_minutes, 10);
    assert_eq!(RepoConfig::or_default(Some(read("cooldown_minutes = 1"))).cooldown_minutes, 1);
}
