//! Per-repo configuration.

use vstd::prelude::*;

use crate::error::{TriageError, TriageErrorView};
use crate::score::{Score, ScoreView};
use crate::text::{clone_texts, views};

verus! {

/// The bits of the default confidence threshold, 0.7.
pub const DEFAULT_THRESHOLD_BITS: u64 = 0x3fe6_6666_6666_6666;

/// Per-repo configuration, read from `.scaffold.toml` on the default branch.
/// Every field has a default so an absent or partial file still works.
#[derive(Debug)]
pub struct RepoConfig {
    /// GitHub logins @-mentioned and asked for a review on escalation.
    pub maintainers: Vec<String>,
    /// Label applied when the agent routes a PR to a human.
    pub escalation_label: String,
    /// Globs identifying test files (used by the missing-tests check).
    pub test_globs: Vec<String>,
    /// Globs identifying source files whose changes should come with tests.
    pub source_globs: Vec<String>,
    /// Below this model confidence, the agent escalates instead of deciding.
    pub confidence_threshold: Score,
    /// Minimum minutes between re-triages of the same PR on `synchronized`.
    pub cooldown_minutes: u64,
    /// Whether pushes to an open PR re-trigger triage at all.
    pub triage_on_synchronize: bool,
    /// Descriptions shorter than this raise an `unclear_description` finding.
    pub min_description_chars: usize,
    /// Skip draft PRs entirely.
    pub skip_drafts: bool,
}

/// A configuration's model.
pub struct RepoConfigView {
    pub maintainers: Seq<Seq<char>>,
    pub escalation_label: Seq<char>,
    pub test_globs: Seq<Seq<char>>,
    pub source_globs: Seq<Seq<char>>,
    pub confidence_threshold: ScoreView,
    pub cooldown_minutes: u64,
    pub triage_on_synchronize: bool,
    pub min_description_chars: usize,
    pub skip_drafts: bool,
}

impl View for RepoConfig {
    type V = RepoConfigView;

    open spec fn view(&self) -> RepoConfigView {
        RepoConfigView {
            maintainers: views(self.maintainers@),
            escalation_label: self.escalation_label@,
            test_globs: views(self.test_globs@),
            source_globs: views(self.source_globs@),
            confidence_threshold: self.confidence_threshold@,
            cooldown_minutes: self.cooldown_minutes,
            triage_on_synchronize: self.triage_on_synchronize,
            min_description_chars: self.min_description_chars,
            skip_drafts: self.skip_drafts,
        }
    }
}

/// The configuration of a repository that has none.
pub open spec fn default_config() -> RepoConfigView {
    RepoConfigView {
        maintainers: Seq::empty(),
        escalation_label: "needs-maintainer-review"@,
        test_globs: seq![
            "tests/**"@,
            "test/**"@,
            "**/*_test.*"@,
            "**/*.test.*"@,
            "**/*.spec.*"@,
            "**/test_*.py"@,
        ],
        source_globs: seq!["src/**"@, "lib/**"@, "app/**"@],
        confidence_threshold: ScoreView { bits: DEFAULT_THRESHOLD_BITS, shown: "0.7"@ },
        cooldown_minutes: 10,
        triage_on_synchronize: true,
        min_description_chars: 40,
        skip_drafts: true,
    }
}

impl Default for RepoConfig {
    fn default() -> (config: Self)
        ensures
            config@ == default_config(),
    {
        let maintainers: Vec<String> = Vec::new();
        let test_globs: Vec<String> = vec![
            String::from_str("tests/**"),
            String::from_str("test/**"),
            String::from_str("**/*_test.*"),
            String::from_str("**/*.test.*"),
            String::from_str("**/*.spec.*"),
            String::from_str("**/test_*.py"),
        ];
        let source_globs: Vec<String> = vec![
            String::from_str("src/**"),
            String::from_str("lib/**"),
            String::from_str("app/**"),
        ];
        proof {
            assert(views(maintainers@) =~= Seq::<Seq<char>>::empty());
            assert(views(test_globs@) =~= default_config().test_globs);
            assert(views(source_globs@) =~= default_config().source_globs);
        }
        RepoConfig {
            maintainers,
            escalation_label: String::from_str("needs-maintainer-review"),
            test_globs,
            source_globs,
            confidence_threshold: Score::new(DEFAULT_THRESHOLD_BITS, String::from_str("0.7")),
            cooldown_minutes: 10,
            triage_on_synchronize: true,
            min_description_chars: 40,
            skip_drafts: true,
        }
    }
}

/// The fields that a configuration file sets.
#[derive(Debug)]
pub struct RepoConfigFile {
    pub maintainers: Option<Vec<String>>,
    pub escalation_label: Option<String>,
    pub test_globs: Option<Vec<String>>,
    pub source_globs: Option<Vec<String>>,
    pub confidence_threshold: Option<Score>,
    pub cooldown_minutes: Option<u64>,
    pub triage_on_synchronize: Option<bool>,
    pub min_description_chars: Option<usize>,
    pub skip_drafts: Option<bool>,
}

/// The value that a file sets, or the default.
pub open spec fn set_or<T>(set: Option<T>, default: T) -> T {
    match set {
        Some(value) => value,
        None => default,
    }
}

/// The texts that a file sets, or the default.
pub open spec fn set_texts_or(set: Option<Vec<String>>, default: Seq<Seq<char>>) -> Seq<Seq<char>> {
    match set {
        Some(list) => views(list@),
        None => default,
    }
}

/// A file's configuration: what it sets, and the default of every other field.
pub open spec fn file_config(file: RepoConfigFile) -> RepoConfigView {
    let d = default_config();
    RepoConfigView {
        maintainers: set_texts_or(file.maintainers, d.maintainers),
        escalation_label: match file.escalation_label {
            Some(label) => label@,
            None => d.escalation_label,
        },
        test_globs: set_texts_or(file.test_globs, d.test_globs),
        source_globs: set_texts_or(file.source_globs, d.source_globs),
        confidence_threshold: match file.confidence_threshold {
            Some(score) => score@,
            None => d.confidence_threshold,
        },
        cooldown_minutes: set_or(file.cooldown_minutes, d.cooldown_minutes),
        triage_on_synchronize: set_or(file.triage_on_synchronize, d.triage_on_synchronize),
        min_description_chars: set_or(file.min_description_chars, d.min_description_chars),
        skip_drafts: set_or(file.skip_drafts, d.skip_drafts),
    }
}

impl RepoConfig {
    /// The configuration that a file's text was read as, or the reader's error.
    pub fn from_toml_str(read: Result<RepoConfigFile, String>) -> (config: Result<Self, TriageError>)
        ensures
            match read {
                Ok(file) => config matches Ok(c) && c@ == file_config(file),
                Err(e) => config matches Err(err) && err@ == TriageErrorView::Config(e@),
            },
    {
        match read {
            Ok(file) => Ok(RepoConfig::from_file(file)),
            Err(e) => Err(TriageError::Config(e)),
        }
    }

    /// Fills the fields that a file leaves out with their defaults.
    pub fn from_file(file: RepoConfigFile) -> (config: Self)
        ensures
            config@ == file_config(file),
    {
        let mut config = RepoConfig::default();
        if let Some(list) = file.maintainers {
            config.maintainers = list;
        }
        if let Some(label) = file.escalation_label {
            config.escalation_label = label;
        }
        if let Some(list) = file.test_globs {
            config.test_globs = list;
        }
        if let Some(list) = file.source_globs {
            config.source_globs = list;
        }
        if let Some(score) = file.confidence_threshold {
            config.confidence_threshold = score;
        }
        if let Some(minutes) = file.cooldown_minutes {
            config.cooldown_minutes = minutes;
        }
        if let Some(flag) = file.triage_on_synchronize {
            config.triage_on_synchronize = flag;
        }
        if let Some(chars) = file.min_description_chars {
            config.min_description_chars = chars;
        }
        if let Some(flag) = file.skip_drafts {
            config.skip_drafts = flag;
        }
        config
    }

    /// The configuration to triage with, from what the host had: a file that
    /// cannot be read must not silence triage, so it counts as none.
    pub fn or_default(fetched: Option<Result<RepoConfigFile, String>>) -> (config: Self)
        ensures
            config@ == effective_config(fetched),
    {
        match fetched {
            Some(read) => match RepoConfig::from_toml_str(read) {
                Ok(config) => config,
                Err(_) => RepoConfig::default(),
            },
            None => RepoConfig::default(),
        }
    }
}

/// The configuration of a readable file, the default otherwise.
pub open spec fn effective_config(fetched: Option<Result<RepoConfigFile, String>>) -> RepoConfigView {
    match fetched {
        Some(Ok(file)) => file_config(file),
        _ => default_config(),
    }
}

impl Clone for RepoConfig {
    fn clone(&self) -> (copy: Self)
        ensures
            copy@ == self@,
    {
        RepoConfig {
            maintainers: clone_texts(&self.maintainers),
            escalation_label: self.escalation_label.clone(),
            test_globs: clone_texts(&self.test_globs),
            source_globs: clone_texts(&self.source_globs),
            confidence_threshold: self.confidence_threshold.clone(),
            cooldown_minutes: self.cooldown_minutes,
            triage_on_synchronize: self.triage_on_synchronize,
            min_description_chars: self.min_description_chars,
            skip_drafts: self.skip_drafts,
        }
    }
}

/// A file that sets nothing is the default configuration.
pub proof fn law_empty_file_is_default(file: RepoConfigFile)
    requires
        file.maintainers is None,
        file.escalation_label is None,
        file.test_globs is None,
        file.source_globs is None,
        file.confidence_threshold is None,
        file.cooldown_minutes is None,
        file.triage_on_synchronize is None,
        file.min_description_chars is None,
        file.skip_drafts is None,
    ensures
        file_config(file) == default_config(),
{
}

/// A file that cannot be read counts as none.
pub proof fn law_broken_file_is_default(e: String)
    ensures
        effective_config(Some(Err(e))) == default_config(),
        effective_config(None) == default_config(),
{
}

/// A file's settings are taken as they are written, each for its own field.
pub proof fn law_what_a_file_sets_is_taken(file: RepoConfigFile)
    ensures
        file.maintainers matches Some(list) ==> file_config(file).maintainers == views(list@),
        file.escalation_label matches Some(label) ==> file_config(file).escalation_label == label@,
        file.test_globs matches Some(list) ==> file_config(file).test_globs == views(list@),
        file.source_globs matches Some(list) ==> file_config(file).source_globs == views(list@),
        file.confidence_threshold matches Some(score) ==> file_config(file).confidence_threshold
            == score@,
        file.cooldown_minutes matches Some(n) ==> file_config(file).cooldown_minutes == n,
        file.triage_on_synchronize matches Some(b) ==> file_config(file).triage_on_synchronize == b,
        file.min_description_chars matches Some(n) ==> file_config(file).min_description_chars == n,
        file.skip_drafts matches Some(b) ==> file_config(file).skip_drafts == b,
{
}

/// What a file leaves out has its default, whatever else it sets: nobody to call
/// on, a threshold of 0.7, ten minutes between triages, descriptions of forty
/// characters, pushes triaged and drafts not.
pub proof fn law_what_a_file_leaves_out_is_the_default(file: RepoConfigFile)
    ensures
        file.maintainers is None ==> file_config(file).maintainers.len() == 0,
        file.escalation_label is None ==> file_config(file).escalation_label
            == "needs-maintainer-review"@,
        file.test_globs is None ==> file_config(file).test_globs == default_config().test_globs,
        file.source_globs is None ==> file_config(file).source_globs == seq![
            "src/**"@,
            "lib/**"@,
            "app/**"@,
        ],
        file.confidence_threshold is None ==> file_config(file).confidence_threshold.shown
            == "0.7"@,
        file.cooldown_minutes is None ==> file_config(file).cooldown_minutes == 10,
        file.triage_on_synchronize is None ==> file_config(file).triage_on_synchronize,
        file.min_description_chars is None ==> file_config(file).min_description_chars == 40,
        file.skip_drafts is None ==> file_config(file).skip_drafts,
        default_config().test_globs.len() == 6,
        default_config().test_globs.contains("tests/**"@),
        default_config().test_globs.contains("test/**"@),
        default_config().test_globs.contains("**/*_test.*"@),
        default_config().test_globs.contains("**/*.test.*"@),
        default_config().test_globs.contains("**/*.spec.*"@),
        default_config().test_globs.contains("**/test_*.py"@),
{
    let globs = default_config().test_globs;
    assert(globs[0] == "tests/**"@);
    assert(globs[1] == "test/**"@);
    assert(globs[2] == "**/*_test.*"@);
    assert(globs[3] == "**/*.test.*"@);
    assert(globs[4] == "**/*.spec.*"@);
    assert(globs[5] == "**/test_*.py"@);
}

/// A file that can be read is the configuration.
pub proof fn law_a_readable_file_is_the_configuration(file: RepoConfigFile)
    ensures
        effective_config(Some(Ok(file))) == file_config(file),
{
}

} // verus!
