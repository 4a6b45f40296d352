//! Deterministic policy checks. These never call the model: they are cheaper,
//! faster, and more trustworthy as plain code. The model only interprets
//! findings downstream; it never detects them.

use globset::{Glob, GlobSet, GlobSetBuilder};
use vstd::prelude::*;

use crate::config::{RepoConfig, RepoConfigView};
use crate::pr::{
    ChangedFile, ChangedFileView, CheckConclusion, CheckRun, CheckRunView, PullRequestSnapshot,
    PullRequestSnapshotView,
};
use crate::text::{
    decimal, holds_text, join, joined, law_joining_separates, lemma_holds_in_more,
    lemma_joined_shows, lemma_views_push, push_count, trim, trimmed, views,
};
use crate::triage::{PolicyFinding, PolicyFindingKind, PolicyFindingView};

verus! {

/// A parsed glob pattern.
#[verifier::external_type_specification]
#[verifier::external_body]
pub struct ExGlob(Glob);

/// Patterns that are to become a set.
#[verifier::external_type_specification]
#[verifier::external_body]
pub struct ExGlobSetBuilder(GlobSetBuilder);

/// Patterns that are matched together.
#[verifier::external_type_specification]
#[verifier::external_body]
pub struct ExGlobSet(GlobSet);

/// Why a pattern or a set was refused.
#[verifier::external_type_specification]
#[verifier::external_body]
pub struct ExGlobError(globset::Error);

/// The characters of the pattern that a glob was parsed from.
pub uninterp spec fn glob_pattern(glob: Glob) -> Seq<char>;

/// The patterns of a builder's globs, in the order in which they were added.
pub uninterp spec fn builder_patterns(builder: GlobSetBuilder) -> Seq<Seq<char>>;

/// The patterns of a set's globs.
pub uninterp spec fn set_patterns(set: GlobSet) -> Seq<Seq<char>>;

/// Whether a text parses as a glob pattern.
pub uninterp spec fn glob_parses(pattern: Seq<char>) -> bool;

/// Whether globs of these patterns compile to a set.
pub uninterp spec fn globs_compile(patterns: Seq<Seq<char>>) -> bool;

/// Whether the glob of a pattern matches a path.
pub uninterp spec fn glob_matches(pattern: Seq<char>, path: Seq<char>) -> bool;

/// `Glob::new`: parses a pattern, and keeps its text. Which patterns parse is
/// named only; it depends on nothing but the pattern, for one target platform.
#[verifier::external_body]
fn parse_glob(pattern: &str) -> (glob: Result<Glob, globset::Error>)
    ensures
        glob is Ok <==> glob_parses(pattern@),
        glob matches Ok(g) ==> glob_pattern(g) == pattern@,
{
    Glob::new(pattern)
}

/// `GlobSetBuilder::new`: no globs yet.
#[verifier::external_body]
fn new_builder() -> (builder: GlobSetBuilder)
    ensures
        builder_patterns(builder) == Seq::<Seq<char>>::empty(),
{
    GlobSetBuilder::new()
}

/// `GlobSetBuilder::add`: one more glob, behind the others.
#[verifier::external_body]
fn add_glob(builder: &mut GlobSetBuilder, glob: Glob)
    ensures
        builder_patterns(*final(builder)) == builder_patterns(*old(builder)).push(
            glob_pattern(glob),
        ),
{
    builder.add(glob);
}

/// `GlobSetBuilder::build`: a set of the globs added so far. It fails where
/// they do not compile together, which is named only.
#[verifier::external_body]
fn build_set(builder: &GlobSetBuilder) -> (set: Result<GlobSet, globset::Error>)
    ensures
        set is Ok <==> globs_compile(builder_patterns(*builder)),
        set matches Ok(s) ==> set_patterns(s) == builder_patterns(*builder),
{
    builder.build()
}

/// `GlobSet::is_match`: whether any glob of the set matches the path.
#[verifier::external_body]
fn set_matches(set: &GlobSet, path: &str) -> (found: bool)
    ensures
        found == (exists|i: int|
            0 <= i < set_patterns(*set).len() && #[trigger] glob_matches(
                set_patterns(*set)[i],
                path@,
            )),
{
    set.is_match(path)
}

/// Whether some of the patterns matches the path.
pub open spec fn any_glob_matches(patterns: Seq<Seq<char>>, path: Seq<char>) -> bool {
    exists|i: int| 0 <= i < patterns.len() && #[trigger] glob_matches(patterns[i], path)
}

/// The patterns that parse, in their order.
pub open spec fn valid_globs(patterns: Seq<Seq<char>>) -> Seq<Seq<char>> {
    patterns.filter(|p: Seq<char>| glob_parses(p))
}

/// The patterns of the set that a list of patterns makes: those that parse,
/// where there is one and they compile.
pub open spec fn usable_globs(patterns: Seq<Seq<char>>) -> Option<Seq<Seq<char>>> {
    let valid = valid_globs(patterns);
    if valid.len() > 0 && globs_compile(valid) {
        Some(valid)
    } else {
        None
    }
}

/// Invalid globs are skipped rather than failing the triage: a typo in
/// `.scaffold.toml` should degrade a check, not the whole run.
pub fn build_globset(patterns: &Vec<String>) -> (set: Option<GlobSet>)
    ensures
        set is Some <==> usable_globs(views(patterns@)) is Some,
        set matches Some(s) ==> usable_globs(views(patterns@)) == Some(set_patterns(s)),
{
    let mut builder = new_builder();
    let mut any = false;
    let ghost all = views(patterns@);
    let ghost parses = |p: Seq<char>| glob_parses(p);
    let mut i: usize = 0;
    proof {
        assert(all.take(0) =~= Seq::<Seq<char>>::empty());
        reveal(Seq::filter);
    }
    while i < patterns.len()
        invariant
            all == views(patterns@),
            parses == (|p: Seq<char>| glob_parses(p)),
            i <= patterns@.len(),
            builder_patterns(builder) == all.take(i as int).filter(parses),
            any == (builder_patterns(builder).len() > 0),
        decreases patterns.len() - i,
    {
        proof {
            reveal(Seq::filter);
            assert(all.take(i + 1).drop_last() =~= all.take(i as int));
            assert(all.take(i + 1).last() == patterns@[i as int]@);
        }
        match parse_glob(patterns[i].as_str()) {
            Ok(glob) => {
                add_glob(&mut builder, glob);
                any = true;
            },
            Err(_) => {},
        }
        i = i + 1;
    }
    proof {
        assert(all.take(all.len() as int) =~= all);
    }
    if !any {
        return None;
    }
    match build_set(&builder) {
        Ok(set) => Some(set),
        Err(_) => None,
    }
}

/// The patterns that do not parse, in their order.
pub open spec fn invalid_globs(patterns: Seq<Seq<char>>) -> Seq<Seq<char>> {
    patterns.filter(|p: Seq<char>| !glob_parses(p))
}

/// Appends the patterns of a list that do not parse.
fn push_invalid(skipped: &mut Vec<String>, patterns: &Vec<String>)
    ensures
        views(final(skipped)@) == views(old(skipped)@) + invalid_globs(views(patterns@)),
{
    let ghost start = views(skipped@);
    let ghost all = views(patterns@);
    let ghost fails = |p: Seq<char>| !glob_parses(p);
    let mut i: usize = 0;
    proof {
        reveal(Seq::filter);
        assert(start + all.take(0).filter(fails) =~= start);
    }
    while i < patterns.len()
        invariant
            all == views(patterns@),
            fails == (|p: Seq<char>| !glob_parses(p)),
            i <= patterns@.len(),
            views(skipped@) == start + all.take(i as int).filter(fails),
        decreases patterns.len() - i,
    {
        proof {
            reveal(Seq::filter);
            assert(all.take(i + 1).drop_last() =~= all.take(i as int));
            assert(all.take(i + 1).last() == patterns@[i as int]@);
        }
        if parse_glob(patterns[i].as_str()).is_err() {
            let item = patterns[i].clone();
            proof {
                lemma_views_push(skipped@, item);
                assert(start + all.take(i + 1).filter(fails) =~= (start + all.take(i as int).filter(
                    fails,
                )).push(item@));
            }
            skipped.push(item);
        }
        i = i + 1;
    }
    proof {
        assert(all.take(all.len() as int) =~= all);
    }
}

/// The globs of a configuration that the missing-tests check skips, so that
/// they can be reported: those of the source files, then those of the tests.
pub fn skipped_globs(config: &RepoConfig) -> (skipped: Vec<String>)
    ensures
        views(skipped@) == invalid_globs(config@.source_globs) + invalid_globs(config@.test_globs),
{
    let mut skipped: Vec<String> = Vec::new();
    proof {
        assert(views(skipped@) =~= Seq::<Seq<char>>::empty());
    }
    push_invalid(&mut skipped, &config.source_globs);
    proof {
        assert(views(skipped@) =~= invalid_globs(config@.source_globs));
    }
    push_invalid(&mut skipped, &config.test_globs);
    skipped
}

/// Whether one of the files has a path that some pattern matches.
pub open spec fn touches(files: Seq<ChangedFileView>, patterns: Seq<Seq<char>>) -> bool {
    exists|i: int| 0 <= i < files.len() && any_glob_matches(patterns, #[trigger] files[i].path)
}

/// Whether a set matches the path of one of the files.
fn touches_any(files: &Vec<ChangedFile>, set: &GlobSet) -> (found: bool)
    ensures
        found == touches(views(files@), set_patterns(*set)),
{
    let ghost all = views(files@);
    let mut i: usize = 0;
    while i < files.len()
        invariant
            all == views(files@),
            i <= files@.len(),
            forall|k: int|
                0 <= k < i ==> !any_glob_matches(set_patterns(*set), #[trigger] all[k].path),
        decreases files.len() - i,
    {
        proof {
            assert(all[i as int].path == files@[i as int].path@);
        }
        if set_matches(set, files[i].path.as_str()) {
            return true;
        }
        i = i + 1;
    }
    false
}

/// The detail of a missing-tests finding.
pub open spec fn missing_tests_detail() -> Seq<char> {
    "Source files changed but no test files were added or modified."@
}

/// The missing-tests finding: source changed, no test did.
pub open spec fn missing_tests_finding(
    touches_source: bool,
    touches_tests: bool,
) -> Option<PolicyFindingView> {
    if touches_source && !touches_tests {
        Some(
            PolicyFindingView {
                kind: PolicyFindingKind::MissingTests,
                detail: missing_tests_detail(),
            },
        )
    } else {
        None
    }
}

/// The missing-tests finding for what the changed files touch.
pub fn untested_change(touches_source: bool, touches_tests: bool) -> (finding: Option<PolicyFinding>)
    ensures
        finding is Some <==> touches_source && !touches_tests,
        finding matches Some(f) ==> Some(f@) == missing_tests_finding(touches_source, touches_tests),
{
    if touches_source && !touches_tests {
        Some(
            PolicyFinding {
                kind: PolicyFindingKind::MissingTests,
                detail: String::from_str(
                    "Source files changed but no test files were added or modified.",
                ),
            },
        )
    } else {
        None
    }
}

/// The missing-tests finding of a change. Without a usable set of source globs
/// and one of test globs the check says nothing.
pub open spec fn missing_tests_of(
    files: Seq<ChangedFileView>,
    config: RepoConfigView,
) -> Option<PolicyFindingView> {
    match (usable_globs(config.source_globs), usable_globs(config.test_globs)) {
        (Some(source), Some(test)) => missing_tests_finding(
            touches(files, source),
            touches(files, test),
        ),
        _ => None,
    }
}

/// Source files changed without accompanying tests.
pub fn missing_tests(snapshot: &PullRequestSnapshot, config: &RepoConfig) -> (finding: Option<
    PolicyFinding,
>)
    ensures
        finding is Some <==> missing_tests_of(snapshot@.changed_files, config@) is Some,
        finding matches Some(f) ==> missing_tests_of(snapshot@.changed_files, config@) == Some(f@),
{
    let source_set = match build_globset(&config.source_globs) {
        Some(set) => set,
        None => {
            return None;
        },
    };
    let test_set = match build_globset(&config.test_globs) {
        Some(set) => set,
        None => {
            return None;
        },
    };
    let touches_source = touches_any(&snapshot.changed_files, &source_set);
    let touches_tests = touches_any(&snapshot.changed_files, &test_set);
    untested_change(touches_source, touches_tests)
}

/// Whether a check run counts as failing.
pub open spec fn is_failing(conclusion: CheckConclusion) -> bool {
    conclusion is Failure || conclusion is TimedOut || conclusion is ActionRequired
}

/// The names of the failing checks, in their order.
pub open spec fn failing_names(checks: Seq<CheckRunView>) -> Seq<Seq<char>> {
    checks.filter(|c: CheckRunView| is_failing(c.conclusion)).map_values(|c: CheckRunView| c.name)
}

/// Collects the names of the failing checks.
pub fn failing_checks(checks: &Vec<CheckRun>) -> (names: Vec<String>)
    ensures
        views(names@) == failing_names(views(checks@)),
{
    let mut names: Vec<String> = Vec::new();
    let ghost all = views(checks@);
    let ghost failing = |c: CheckRunView| is_failing(c.conclusion);
    let ghost name = |c: CheckRunView| c.name;
    let mut i: usize = 0;
    proof {
        reveal(Seq::filter);
        assert(all.take(0) =~= Seq::<CheckRunView>::empty());
        assert(views(names@) =~= all.take(0).filter(failing).map_values(name));
    }
    while i < checks.len()
        invariant
            all == views(checks@),
            failing == (|c: CheckRunView| is_failing(c.conclusion)),
            name == (|c: CheckRunView| c.name),
            i <= checks@.len(),
            views(names@) == all.take(i as int).filter(failing).map_values(name),
        decreases checks.len() - i,
    {
        let ghost before = names@;
        let ghost kept = all.take(i as int).filter(failing);
        proof {
            reveal(Seq::filter);
            assert(all.take(i + 1).drop_last() =~= all.take(i as int));
            assert(all.take(i + 1).last() == checks@[i as int]@);
        }
        let fails = match checks[i].conclusion {
            CheckConclusion::Failure => true,
            CheckConclusion::TimedOut => true,
            CheckConclusion::ActionRequired => true,
            _ => false,
        };
        if fails {
            let item = checks[i].name.clone();
            proof {
                lemma_views_push(before, item);
                assert(kept.push(all[i as int]).map_values(name) =~= kept.map_values(name).push(
                    item@,
                ));
            }
            names.push(item);
        }
        i = i + 1;
    }
    proof {
        assert(all.take(all.len() as int) =~= all);
    }
    names
}

/// The merge-conflict finding.
pub open spec fn conflict_finding(s: PullRequestSnapshotView) -> PolicyFindingView {
    PolicyFindingView {
        kind: PolicyFindingKind::MergeConflict,
        detail: "Branch `"@ + s.head_branch + "` has merge conflicts with `"@ + s.base_branch
            + "`."@,
    }
}

/// The failing-CI finding.
pub open spec fn failing_ci_finding(s: PullRequestSnapshotView) -> PolicyFindingView {
    PolicyFindingView {
        kind: PolicyFindingKind::FailingCi,
        detail: "Failing checks: "@ + joined(failing_names(s.checks), ", "@) + "."@,
    }
}

/// The unclear-description finding.
pub open spec fn unclear_finding(min_chars: usize) -> PolicyFindingView {
    PolicyFindingView {
        kind: PolicyFindingKind::UnclearDescription,
        detail: "PR description is under "@ + decimal(min_chars as nat)
            + " characters; intent and context are hard to review."@,
    }
}

/// A finding where it applies, nothing where it does not.
pub open spec fn finding_if(applies: bool, finding: PolicyFindingView) -> Seq<PolicyFindingView> {
    if applies {
        seq![finding]
    } else {
        Seq::empty()
    }
}

/// What the checks other than the missing-tests check find, in order.
pub open spec fn plain_findings(
    s: PullRequestSnapshotView,
    min_chars: usize,
) -> Seq<PolicyFindingView> {
    finding_if(s.mergeable == Some(false), conflict_finding(s)) + finding_if(
        failing_names(s.checks).len() > 0,
        failing_ci_finding(s),
    ) + finding_if(trimmed(s.body).len() < min_chars, unclear_finding(min_chars))
}

/// Everything that the policy checks find, in order: merge conflict, failing
/// CI, unclear description, missing tests.
pub open spec fn policy_findings(
    s: PullRequestSnapshotView,
    config: RepoConfigView,
) -> Seq<PolicyFindingView> {
    plain_findings(s, config.min_description_chars) + match missing_tests_of(
        s.changed_files,
        config,
    ) {
        Some(finding) => seq![finding],
        None => Seq::empty(),
    }
}

/// Runs the checks that look at the snapshot alone.
pub fn check_snapshot(snapshot: &PullRequestSnapshot, min_chars: usize) -> (findings: Vec<
    PolicyFinding,
>)
    ensures
        views(findings@) == plain_findings(snapshot@, min_chars),
{
    let mut findings: Vec<PolicyFinding> = Vec::new();
    let ghost s = snapshot@;
    proof {
        assert(views(findings@) =~= Seq::<PolicyFindingView>::empty());
    }
    let conflict = match snapshot.mergeable {
        Some(mergeable) => !mergeable,
        None => false,
    };
    if conflict {
        let mut detail = String::from_str("Branch `");
        detail.append(snapshot.head_branch.as_str());
        detail.append("` has merge conflicts with `");
        detail.append(snapshot.base_branch.as_str());
        detail.append("`.");
        let finding = PolicyFinding { kind: PolicyFindingKind::MergeConflict, detail };
        proof {
            lemma_views_push(findings@, finding);
        }
        findings.push(finding);
    }
    let ghost first = finding_if(s.mergeable == Some(false), conflict_finding(s));
    proof {
        assert(views(findings@) =~= first);
    }
    let failing = failing_checks(&snapshot.checks);
    if !failing.is_empty() {
        let names = join(&failing, ", ");
        let mut detail = String::from_str("Failing checks: ");
        detail.append(names.as_str());
        detail.append(".");
        let finding = PolicyFinding { kind: PolicyFindingKind::FailingCi, detail };
        proof {
            lemma_views_push(findings@, finding);
        }
        findings.push(finding);
    }
    let ghost second = finding_if(failing_names(s.checks).len() > 0, failing_ci_finding(s));
    proof {
        assert(views(failing@).len() == failing@.len());
        assert(views(findings@) =~= first + second);
    }
    let body = trim(snapshot.body.as_str());
    if body.as_str().unicode_len() < min_chars {
        let mut detail = String::from_str("PR description is under ");
        push_count(&mut detail, min_chars);
        detail.append(" characters; intent and context are hard to review.");
        let finding = PolicyFinding { kind: PolicyFindingKind::UnclearDescription, detail };
        proof {
            lemma_views_push(findings@, finding);
        }
        findings.push(finding);
    }
    proof {
        assert(views(findings@) =~= plain_findings(s, min_chars));
    }
    findings
}

/// Run all deterministic policy checks.
pub fn check(snapshot: &PullRequestSnapshot, config: &RepoConfig) -> (findings: Vec<PolicyFinding>)
    ensures
        views(findings@) == policy_findings(snapshot@, config@),
{
    let mut findings = check_snapshot(snapshot, config.min_description_chars);
    if let Some(finding) = missing_tests(snapshot, config) {
        proof {
            lemma_views_push(findings@, finding);
        }
        findings.push(finding);
    }
    proof {
        assert(views(findings@) =~= policy_findings(snapshot@, config@));
    }
    findings
}

/// Each kind of finding is raised exactly under its own condition.
pub proof fn law_findings_match_their_conditions(s: PullRequestSnapshotView, config: RepoConfigView)
    ensures
        ({
            let findings = policy_findings(s, config);
            let raised = |kind: PolicyFindingKind|
                exists|i: int| 0 <= i < findings.len() && #[trigger] findings[i].kind == kind;
            &&& raised(PolicyFindingKind::MergeConflict) <==> s.mergeable == Some(false)
            &&& raised(PolicyFindingKind::FailingCi) <==> failing_names(s.checks).len() > 0
            &&& raised(PolicyFindingKind::UnclearDescription) <==> trimmed(s.body).len()
                < config.min_description_chars
            &&& raised(PolicyFindingKind::MissingTests) <==> missing_tests_of(
                s.changed_files,
                config,
            ) is Some
        }),
{
    let findings = policy_findings(s, config);
    let conflict = s.mergeable == Some(false);
    let failing = failing_names(s.checks).len() > 0;
    let unclear = trimmed(s.body).len() < config.min_description_chars;
    let a = finding_if(conflict, conflict_finding(s));
    let b = finding_if(failing, failing_ci_finding(s));
    let c = finding_if(unclear, unclear_finding(config.min_description_chars));
    if conflict {
        assert(findings[0].kind == PolicyFindingKind::MergeConflict);
    }
    if failing {
        assert(findings[a.len() as int].kind == PolicyFindingKind::FailingCi);
    }
    if unclear {
        assert(findings[(a + b).len() as int].kind == PolicyFindingKind::UnclearDescription);
    }
    if missing_tests_of(s.changed_files, config) is Some {
        assert(findings[(a + b + c).len() as int].kind == PolicyFindingKind::MissingTests);
    }
}

/// The checks see nothing of the diff, the title, the author or the commit.
pub proof fn law_findings_ignore_the_diff(
    s: PullRequestSnapshotView,
    t: PullRequestSnapshotView,
    config: RepoConfigView,
)
    requires
        s.mergeable == t.mergeable,
        s.head_branch == t.head_branch,
        s.base_branch == t.base_branch,
        s.checks == t.checks,
        s.body == t.body,
        s.changed_files == t.changed_files,
    ensures
        policy_findings(s, config) == policy_findings(t, config),
{
}

/// A pattern that does not parse can be left out of a list of globs without any
/// difference to the check.
pub proof fn law_invalid_globs_are_skipped(before: Seq<Seq<char>>, typo: Seq<char>, after: Seq<Seq<char>>)
    requires
        !glob_parses(typo),
    ensures
        usable_globs(before + seq![typo] + after) == usable_globs(before + after),
{
    let parses = |p: Seq<char>| glob_parses(p);
    Seq::filter_distributes_over_add(before + seq![typo], after, parses);
    Seq::filter_distributes_over_add(before, seq![typo], parses);
    Seq::filter_distributes_over_add(before, after, parses);
    reveal(Seq::filter);
    assert(seq![typo].drop_last() =~= Seq::<Seq<char>>::empty());
    assert(Seq::<Seq<char>>::empty().filter(parses) =~= Seq::<Seq<char>>::empty());
    assert(seq![typo].last() == typo);
    assert(seq![typo].filter(parses) =~= Seq::<Seq<char>>::empty());
    assert(before.filter(parses) + Seq::<Seq<char>>::empty() =~= before.filter(parses));
}

/// Whether a pattern is one of a list, parses, and matches a path.
pub open spec fn matched_by(patterns: Seq<Seq<char>>, g: int, path: Seq<char>) -> bool {
    0 <= g < patterns.len() && glob_parses(patterns[g]) && glob_matches(patterns[g], path)
}

proof fn lemma_usable(patterns: Seq<Seq<char>>, path: Seq<char>)
    ensures
        usable_globs(patterns) matches Some(valid) ==> (any_glob_matches(valid, path) <==> exists|
            g: int,
        | #[trigger] matched_by(patterns, g, path)),
        usable_globs(patterns) is Some <==> globs_compile(
            patterns.filter(|p: Seq<char>| glob_parses(p)),
        ) && exists|g: int| 0 <= g < patterns.len() && glob_parses(#[trigger] patterns[g]),
{
    let parses = |p: Seq<char>| glob_parses(p);
    let valid = patterns.filter(parses);
    if any_glob_matches(valid, path) {
        let i = choose|i: int| 0 <= i < valid.len() && #[trigger] glob_matches(valid[i], path);
        patterns.lemma_filter_pred(parses, i);
        assert(valid.contains(valid[i]));
        patterns.lemma_filter_contains_rev(parses, valid[i]);
        let g = choose|g: int| 0 <= g < patterns.len() && patterns[g] == valid[i];
        assert(matched_by(patterns, g, path));
    }
    if exists|g: int| #[trigger] matched_by(patterns, g, path) {
        let g = choose|g: int| #[trigger] matched_by(patterns, g, path);
        patterns.lemma_filter_contains(parses, g);
        let i = choose|i: int| 0 <= i < valid.len() && valid[i] == patterns[g];
        assert(glob_matches(valid[i], path));
    }
    if valid.len() > 0 {
        patterns.lemma_filter_pred(parses, 0);
        assert(valid.contains(valid[0]));
        patterns.lemma_filter_contains_rev(parses, valid[0]);
        let g = choose|g: int| 0 <= g < patterns.len() && patterns[g] == valid[0];
        assert(glob_parses(patterns[g]));
    }
    if exists|g: int| 0 <= g < patterns.len() && glob_parses(#[trigger] patterns[g]) {
        let g = choose|g: int| 0 <= g < patterns.len() && glob_parses(#[trigger] patterns[g]);
        patterns.lemma_filter_contains(parses, g);
    }
}

proof fn lemma_touches(files: Seq<ChangedFileView>, patterns: Seq<Seq<char>>)
    requires
        usable_globs(patterns) is Some,
    ensures
        touches(files, usable_globs(patterns)->0) <==> exists|i: int, g: int|
            0 <= i < files.len() && #[trigger] matched_by(patterns, g, files[i].path),
{
    let valid = usable_globs(patterns)->0;
    if touches(files, valid) {
        let i = choose|i: int| 0 <= i < files.len() && any_glob_matches(valid, #[trigger] files[i].path);
        lemma_usable(patterns, files[i].path);
        let g = choose|g: int| #[trigger] matched_by(patterns, g, files[i].path);
        assert(0 <= i < files.len() && matched_by(patterns, g, files[i].path));
    }
    if exists|i: int, g: int|
        0 <= i < files.len() && #[trigger] matched_by(patterns, g, files[i].path) {
        let (i, g) = choose|i: int, g: int|
            0 <= i < files.len() && #[trigger] matched_by(patterns, g, files[i].path);
        lemma_usable(patterns, files[i].path);
        assert(any_glob_matches(valid, files[i].path));
    }
}

/// The places of the findings among all: each kind stands behind those of the
/// kinds before it.
proof fn lemma_places(s: PullRequestSnapshotView, config: RepoConfigView)
    ensures
        ({
            let all = policy_findings(s, config);
            let a = finding_if(s.mergeable == Some(false), conflict_finding(s)).len() as int;
            let b = a + finding_if(
                failing_names(s.checks).len() > 0,
                failing_ci_finding(s),
            ).len();
            let c = b + finding_if(
                trimmed(s.body).len() < config.min_description_chars,
                unclear_finding(config.min_description_chars),
            ).len();
            &&& all.len() == c + (if missing_tests_of(s.changed_files, config) is Some {
                1int
            } else {
                0
            })
            &&& forall|i: int| 0 <= i < a ==> #[trigger] all[i] == conflict_finding(s)
            &&& forall|i: int| a <= i < b ==> #[trigger] all[i] == failing_ci_finding(s)
            &&& forall|i: int|
                b <= i < c ==> #[trigger] all[i] == unclear_finding(config.min_description_chars)
            &&& forall|i: int|
                c <= i < all.len() ==> #[trigger] all[i] == missing_tests_of(
                    s.changed_files,
                    config,
                )->0
        }),
{
}

/// A change of source without tests is found: where both lists of globs can be
/// used, some changed file, at whatever place, is matched by a source glob, and
/// no changed file is matched by a test glob, the findings hold one of missing
/// tests.
pub proof fn law_untested_changes_are_found(
    s: PullRequestSnapshotView,
    config: RepoConfigView,
    i: int,
    g: int,
    t: int,
)
    requires
        globs_compile(config.source_globs.filter(|p: Seq<char>| glob_parses(p))),
        globs_compile(config.test_globs.filter(|p: Seq<char>| glob_parses(p))),
        0 <= i < s.changed_files.len(),
        0 <= g < config.source_globs.len(),
        glob_parses(config.source_globs[g]),
        glob_matches(config.source_globs[g], s.changed_files[i].path),
        0 <= t < config.test_globs.len(),
        glob_parses(config.test_globs[t]),
        forall|j: int, k: int|
            0 <= j < s.changed_files.len() && 0 <= k < config.test_globs.len() && glob_parses(
                config.test_globs[k],
            ) ==> !#[trigger] glob_matches(config.test_globs[k], s.changed_files[j].path),
    ensures
        exists|n: int|
            0 <= n < policy_findings(s, config).len() && (#[trigger] policy_findings(
                s,
                config,
            )[n]).kind == PolicyFindingKind::MissingTests && policy_findings(s, config)[n].detail
                == "Source files changed but no test files were added or modified."@,
{
    lemma_usable(config.source_globs, s.changed_files[i].path);
    lemma_usable(config.test_globs, s.changed_files[i].path);
    lemma_touches(s.changed_files, config.source_globs);
    lemma_touches(s.changed_files, config.test_globs);
    assert(matched_by(config.source_globs, g, s.changed_files[i].path));
    lemma_places(s, config);
    let n = policy_findings(s, config).len() - 1;
    assert(policy_findings(s, config)[n].kind == PolicyFindingKind::MissingTests);
}

/// No other change lacks tests: where no changed file is matched by a source
/// glob, or some is matched by a test glob, or either list of globs cannot be
/// used, there is no finding of missing tests.
pub proof fn law_other_changes_lack_no_tests(
    s: PullRequestSnapshotView,
    config: RepoConfigView,
    n: int,
)
    requires
        ({
            ||| forall|j: int, k: int|
                0 <= j < s.changed_files.len() && 0 <= k < config.source_globs.len() && glob_parses(
                    config.source_globs[k],
                ) ==> !#[trigger] glob_matches(config.source_globs[k], s.changed_files[j].path)
            ||| exists|j: int, k: int|
                0 <= j < s.changed_files.len() && 0 <= k < config.test_globs.len() && glob_parses(
                    config.test_globs[k],
                ) && #[trigger] glob_matches(config.test_globs[k], s.changed_files[j].path)
            ||| !globs_compile(config.source_globs.filter(|p: Seq<char>| glob_parses(p)))
            ||| !globs_compile(config.test_globs.filter(|p: Seq<char>| glob_parses(p)))
            ||| forall|k: int|
                0 <= k < config.test_globs.len() ==> !glob_parses(#[trigger] config.test_globs[k])
        }),
        0 <= n < policy_findings(s, config).len(),
    ensures
        policy_findings(s, config)[n].kind != PolicyFindingKind::MissingTests,
{
    lemma_places(s, config);
    lemma_usable(config.source_globs, Seq::empty());
    lemma_usable(config.test_globs, Seq::empty());
    if usable_globs(config.source_globs) is Some && usable_globs(config.test_globs) is Some {
        lemma_touches(s.changed_files, config.source_globs);
        lemma_touches(s.changed_files, config.test_globs);
        if exists|j: int, k: int|
            0 <= j < s.changed_files.len() && 0 <= k < config.test_globs.len() && glob_parses(
                config.test_globs[k],
            ) && #[trigger] glob_matches(config.test_globs[k], s.changed_files[j].path) {
            let (j, k) = choose|j: int, k: int|
                0 <= j < s.changed_files.len() && 0 <= k < config.test_globs.len() && glob_parses(
                    config.test_globs[k],
                ) && #[trigger] glob_matches(config.test_globs[k], s.changed_files[j].path);
            assert(matched_by(config.test_globs, k, s.changed_files[j].path));
        }
        if touches(s.changed_files, usable_globs(config.source_globs)->0) {
            let (j, k) = choose|j: int, k: int|
                0 <= j < s.changed_files.len() && #[trigger] matched_by(
                    config.source_globs,
                    k,
                    s.changed_files[j].path,
                );
            assert(glob_matches(config.source_globs[k], s.changed_files[j].path));
        }
    }
}

/// A file that no glob matches, wherever it stands among the changed files,
/// makes no difference to the findings.
pub proof fn law_unmatched_files_change_nothing(
    s: PullRequestSnapshotView,
    config: RepoConfigView,
    at: int,
    file: ChangedFileView,
)
    requires
        0 <= at <= s.changed_files.len(),
        forall|g: int|
            0 <= g < config.source_globs.len() ==> !#[trigger] glob_matches(
                config.source_globs[g],
                file.path,
            ),
        forall|g: int|
            0 <= g < config.test_globs.len() ==> !#[trigger] glob_matches(
                config.test_globs[g],
                file.path,
            ),
    ensures
        policy_findings(
            PullRequestSnapshotView { changed_files: s.changed_files.insert(at, file), ..s },
            config,
        ) == policy_findings(s, config),
        policy_findings(
            PullRequestSnapshotView { changed_files: s.changed_files.push(file), ..s },
            config,
        ) == policy_findings(s, config),
{
    if usable_globs(config.source_globs) is Some && usable_globs(config.test_globs) is Some {
        lemma_touches_without(s.changed_files, config.source_globs, at, file);
        lemma_touches_without(s.changed_files, config.test_globs, at, file);
        let end = s.changed_files.len() as int;
        lemma_touches_without(s.changed_files, config.source_globs, end, file);
        lemma_touches_without(s.changed_files, config.test_globs, end, file);
        assert(s.changed_files.insert(end, file) =~= s.changed_files.push(file));
    }
}

proof fn lemma_touches_without(
    files: Seq<ChangedFileView>,
    patterns: Seq<Seq<char>>,
    at: int,
    file: ChangedFileView,
)
    requires
        0 <= at <= files.len(),
        usable_globs(patterns) is Some,
        forall|g: int|
            0 <= g < patterns.len() ==> !#[trigger] glob_matches(patterns[g], file.path),
    ensures
        touches(files.insert(at, file), usable_globs(patterns)->0) == touches(
            files,
            usable_globs(patterns)->0,
        ),
{
    let more = files.insert(at, file);
    lemma_touches(files, patterns);
    lemma_touches(more, patterns);
    if exists|i: int, g: int|
        0 <= i < files.len() && #[trigger] matched_by(patterns, g, files[i].path) {
        let (i, g) = choose|i: int, g: int|
            0 <= i < files.len() && #[trigger] matched_by(patterns, g, files[i].path);
        let j = if i < at {
            i
        } else {
            i + 1
        };
        assert(more[j] == files[i]);
        assert(matched_by(patterns, g, more[j].path));
    }
    if exists|i: int, g: int|
        0 <= i < more.len() && #[trigger] matched_by(patterns, g, more[i].path) {
        let (i, g) = choose|i: int, g: int|
            0 <= i < more.len() && #[trigger] matched_by(patterns, g, more[i].path);
        if i == at {
            assert(glob_matches(patterns[g], file.path));
        }
        let j = if i < at {
            i
        } else {
            i - 1
        };
        assert(more[i] == files[j]);
        assert(matched_by(patterns, g, files[j].path));
    }
}

/// Whether a check failed, timed out or asks for an action.
pub open spec fn check_fails(c: CheckRunView) -> bool {
    c.conclusion == CheckConclusion::Failure || c.conclusion == CheckConclusion::TimedOut
        || c.conclusion == CheckConclusion::ActionRequired
}

proof fn lemma_failing(checks: Seq<CheckRunView>, c: CheckRunView)
    ensures
        failing_names(checks.push(c)) == if check_fails(c) {
            failing_names(checks).push(c.name)
        } else {
            failing_names(checks)
        },
        failing_names(checks).len() > 0 <==> exists|i: int|
            0 <= i < checks.len() && check_fails(#[trigger] checks[i]),
        forall|i: int|
            0 <= i < checks.len() && check_fails(#[trigger] checks[i]) ==> failing_names(
                checks,
            ).contains(checks[i].name),
    decreases checks.len(),
{
    let fails = |c: CheckRunView| is_failing(c.conclusion);
    let name = |c: CheckRunView| c.name;
    reveal(Seq::filter);
    assert(checks.push(c).drop_last() =~= checks);
    let kept = checks.filter(fails);
    assert(kept.push(c).map_values(name) =~= kept.map_values(name).push(c.name));
    assert forall|i: int| 0 <= i < checks.len() && check_fails(#[trigger] checks[i]) implies
        failing_names(checks).contains(checks[i].name) by {
        checks.lemma_filter_contains(fails, i);
        let k = choose|k: int| 0 <= k < kept.len() && kept[k] == checks[i];
        assert(failing_names(checks)[k] == checks[i].name);
    }
    if kept.len() > 0 {
        checks.lemma_filter_pred(fails, 0);
        assert(kept.contains(kept[0]));
        checks.lemma_filter_contains_rev(fails, kept[0]);
        let i = choose|i: int| 0 <= i < checks.len() && checks[i] == kept[0];
        assert(check_fails(checks[i]));
    }
}

/// Failing checks are found: there is a finding of failing CI exactly where some
/// check, at whatever place, failed, timed out or asks for an action, and it
/// names every one of these.
pub proof fn law_failing_checks_are_named(s: PullRequestSnapshotView, config: RepoConfigView)
    ensures
        (exists|n: int|
            0 <= n < policy_findings(s, config).len() && (#[trigger] policy_findings(
                s,
                config,
            )[n]).kind == PolicyFindingKind::FailingCi) <==> exists|i: int|
            0 <= i < s.checks.len() && check_fails(#[trigger] s.checks[i]),
        forall|n: int, i: int|
            0 <= n < policy_findings(s, config).len() && (#[trigger] policy_findings(
                s,
                config,
            )[n]).kind == PolicyFindingKind::FailingCi && 0 <= i < s.checks.len() && check_fails(
                #[trigger] s.checks[i],
            ) ==> holds_text(policy_findings(s, config)[n].detail, s.checks[i].name),
{
    let all = policy_findings(s, config);
    lemma_places(s, config);
    lemma_failing(s.checks, CheckRunView { name: Seq::empty(), conclusion: CheckConclusion::Pending });
    let names = failing_names(s.checks);
    if names.len() > 0 {
        let a = finding_if(s.mergeable == Some(false), conflict_finding(s)).len() as int;
        assert(all[a].kind == PolicyFindingKind::FailingCi);
    }
    assert forall|n: int, i: int|
        0 <= n < all.len() && (#[trigger] all[n]).kind == PolicyFindingKind::FailingCi && 0 <= i
            < s.checks.len() && check_fails(#[trigger] s.checks[i]) implies holds_text(
        all[n].detail,
        s.checks[i].name,
    ) by {
        let k = choose|k: int| 0 <= k < names.len() && names[k] == s.checks[i].name;
        lemma_joined_shows(names, ", "@, k);
        lemma_holds_in_more("Failing checks: "@, joined(names, ", "@), "."@, names[k]);
    }
}

/// One check more: if it does not fail, the findings stay as they are. If it
/// does, it is the one that is named, or its name is put behind those that were,
/// after a comma; and no other finding changes.
pub proof fn law_a_check_more(
    s: PullRequestSnapshotView,
    config: RepoConfigView,
    c: CheckRunView,
    n: int,
    m: int,
)
    ensures
        ({
            let before = policy_findings(s, config);
            let after = policy_findings(
                PullRequestSnapshotView { checks: s.checks.push(c), ..s },
                config,
            );
            let none_failed = forall|i: int|
                0 <= i < s.checks.len() ==> !check_fails(#[trigger] s.checks[i]);
            &&& !check_fails(c) ==> after == before
            &&& check_fails(c) && none_failed ==> after.len() == before.len() + 1 && (0 <= m
                < after.len() && after[m].kind == PolicyFindingKind::FailingCi ==> after[m].detail
                == "Failing checks: "@ + c.name + "."@ && after.remove(m) == before)
            &&& check_fails(c) && !none_failed && 0 <= n < before.len() && before[n].kind
                == PolicyFindingKind::FailingCi ==> after.len() == before.len() && (forall|i: int|
                0 <= i < before.len() && i != n ==> #[trigger] after[i] == before[i])
                && after[n].kind == PolicyFindingKind::FailingCi && exists|names: Seq<char>|
                before[n].detail == #[trigger] (names + "."@) && after[n].detail == names + ", "@
                    + c.name + "."@
        }),
{
    let t = PullRequestSnapshotView { checks: s.checks.push(c), ..s };
    let before = policy_findings(s, config);
    let after = policy_findings(t, config);
    lemma_places(s, config);
    lemma_places(t, config);
    lemma_failing(s.checks, c);
    let names = failing_names(s.checks);
    if check_fails(c) {
        if names.len() == 0 {
            law_joining_separates(names, c.name, ", "@);
            assert(names.push(c.name) =~= seq![c.name]);
            if 0 <= m < after.len() && after[m].kind == PolicyFindingKind::FailingCi {
                assert(after.remove(m) =~= before);
            }
        } else {
            law_joining_separates(names, c.name, ", "@);
            let head = "Failing checks: "@ + joined(names, ", "@);
            if 0 <= n < before.len() && before[n].kind == PolicyFindingKind::FailingCi {
                assert(before[n].detail =~= head + "."@);
                assert(after[n].detail =~= head + ", "@ + c.name + "."@);
            }
        }
    }
}

/// The order in which kinds of findings are listed.
pub open spec fn finding_rank(kind: PolicyFindingKind) -> int {
    match kind {
        PolicyFindingKind::MergeConflict => 0,
        PolicyFindingKind::FailingCi => 1,
        PolicyFindingKind::UnclearDescription => 2,
        PolicyFindingKind::MissingTests => 3,
    }
}

/// No kind of finding is listed twice, and they come in one order; a conflict
/// names both branches, and an unclear description the length that is asked for.
pub proof fn law_findings_come_in_order(
    s: PullRequestSnapshotView,
    config: RepoConfigView,
    i: int,
    j: int,
)
    requires
        0 <= i < policy_findings(s, config).len(),
    ensures
        i < j < policy_findings(s, config).len() ==> finding_rank(policy_findings(s, config)[i].kind)
            < finding_rank(policy_findings(s, config)[j].kind),
        policy_findings(s, config)[i].kind == PolicyFindingKind::MergeConflict ==> s.mergeable
            == Some(false) && policy_findings(s, config)[i].detail == "Branch `"@ + s.head_branch
            + "` has merge conflicts with `"@ + s.base_branch + "`."@,
        policy_findings(s, config)[i].kind == PolicyFindingKind::UnclearDescription
            ==> policy_findings(s, config)[i].detail == "PR description is under "@ + decimal(
            config.min_description_chars as nat,
        ) + " characters; intent and context are hard to review."@,
{
    lemma_places(s, config);
}

/// The globs that are reported as skipped are exactly those of the list that do
/// not parse.
pub proof fn law_skipped_globs_do_not_parse(patterns: Seq<Seq<char>>, p: Seq<char>)
    ensures
        invalid_globs(patterns).contains(p) <==> patterns.contains(p) && !glob_parses(p),
{
    let fails = |p: Seq<char>| !glob_parses(p);
    if invalid_globs(patterns).contains(p) {
        patterns.lemma_filter_contains_rev(fails, p);
        let k = choose|k: int| 0 <= k < invalid_globs(patterns).len() && invalid_globs(patterns)[k] == p;
        patterns.lemma_filter_pred(fails, k);
    }
    if patterns.contains(p) && !glob_parses(p) {
        let k = choose|k: int| 0 <= k < patterns.len() && patterns[k] == p;
        patterns.lemma_filter_contains(fails, k);
    }
}

} // verus!
