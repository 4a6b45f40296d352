//! Pull requests and what is gathered of them.

use vstd::prelude::*;

use crate::text::{begins_with, decimal, law_numbers_read_back, parsed_u64, push_decimal, views};

verus! {

/// Identifies one pull request under one GitHub App installation.
#[derive(Debug)]
pub struct PullRequestRef {
    pub installation_id: u64,
    pub owner: String,
    pub repo: String,
    pub number: u64,
}

/// The model of a pull request's identity.
pub struct PullRequestRefView {
    pub installation_id: u64,
    pub owner: Seq<char>,
    pub repo: Seq<char>,
    pub number: u64,
}

impl View for PullRequestRef {
    type V = PullRequestRefView;

    open spec fn view(&self) -> PullRequestRefView {
        PullRequestRefView {
            installation_id: self.installation_id,
            owner: self.owner@,
            repo: self.repo@,
            number: self.number,
        }
    }
}

impl Clone for PullRequestRef {
    fn clone(&self) -> (copy: Self)
        ensures
            copy@ == self@,
    {
        PullRequestRef {
            installation_id: self.installation_id,
            owner: self.owner.clone(),
            repo: self.repo.clone(),
            number: self.number,
        }
    }
}

impl vstd::std_specs::cmp::PartialEqSpecImpl for PullRequestRef {
    open spec fn obeys_eq_spec() -> bool {
        true
    }

    open spec fn eq_spec(&self, other: &Self) -> bool {
        self@ == other@
    }
}

impl PartialEq for PullRequestRef {
    fn eq(&self, other: &Self) -> (same: bool) {
        self.installation_id == other.installation_id && self.owner == other.owner && self.repo
            == other.repo && self.number == other.number
    }
}

impl Eq for PullRequestRef {

}

/// How a pull request is written: `owner/repo#number`.
pub open spec fn pr_text(pr: PullRequestRefView) -> Seq<char> {
    pr.owner + "/"@ + pr.repo + "#"@ + decimal(pr.number as nat)
}

impl PullRequestRef {
    /// The pull request as `owner/repo#number`.
    pub fn to_text(&self) -> (s: String)
        ensures
            s@ == pr_text(self@),
    {
        let mut s = self.owner.clone();
        s.append("/");
        s.append(self.repo.as_str());
        s.append("#");
        push_decimal(&mut s, self.number);
        s
    }
}

#[derive(Debug)]
pub struct ChangedFile {
    pub path: String,
    pub additions: u64,
    pub deletions: u64,
    /// GitHub's file status: "added", "modified", "removed", "renamed", ...
    pub status: String,
}

/// A changed file's model.
pub struct ChangedFileView {
    pub path: Seq<char>,
    pub additions: u64,
    pub deletions: u64,
    pub status: Seq<char>,
}

impl View for ChangedFile {
    type V = ChangedFileView;

    open spec fn view(&self) -> ChangedFileView {
        ChangedFileView {
            path: self.path@,
            additions: self.additions,
            deletions: self.deletions,
            status: self.status@,
        }
    }
}

#[derive(Debug, Clone, Copy, PartialEq, Eq, Structural)]
pub enum CheckConclusion {
    Success,
    Failure,
    Neutral,
    Cancelled,
    TimedOut,
    ActionRequired,
    Skipped,
    /// Check run exists but has not finished.
    Pending,
}

#[derive(Debug)]
pub struct CheckRun {
    pub name: String,
    pub conclusion: CheckConclusion,
}

/// A check run's model.
pub struct CheckRunView {
    pub name: Seq<char>,
    pub conclusion: CheckConclusion,
}

impl View for CheckRun {
    type V = CheckRunView;

    open spec fn view(&self) -> CheckRunView {
        CheckRunView { name: self.name@, conclusion: self.conclusion }
    }
}

/// Everything the agent needs to triage a PR, gathered up front in one step
/// so the rest of the loop is pure with respect to GitHub.
#[derive(Debug)]
pub struct PullRequestSnapshot {
    pub pr: PullRequestRef,
    pub title: String,
    pub body: String,
    pub author: String,
    pub base_branch: String,
    pub head_branch: String,
    pub head_sha: String,
    pub draft: bool,
    /// None while GitHub is still computing mergeability.
    pub mergeable: Option<bool>,
    /// Unified diff, capped at a byte budget by the host adapter.
    pub diff: String,
    pub diff_truncated: bool,
    pub changed_files: Vec<ChangedFile>,
    pub checks: Vec<CheckRun>,
}

/// A snapshot's model.
pub struct PullRequestSnapshotView {
    pub pr: PullRequestRefView,
    pub title: Seq<char>,
    pub body: Seq<char>,
    pub author: Seq<char>,
    pub base_branch: Seq<char>,
    pub head_branch: Seq<char>,
    pub head_sha: Seq<char>,
    pub draft: bool,
    pub mergeable: Option<bool>,
    pub diff: Seq<char>,
    pub diff_truncated: bool,
    pub changed_files: Seq<ChangedFileView>,
    pub checks: Seq<CheckRunView>,
}

impl View for PullRequestSnapshot {
    type V = PullRequestSnapshotView;

    open spec fn view(&self) -> PullRequestSnapshotView {
        PullRequestSnapshotView {
            pr: self.pr@,
            title: self.title@,
            body: self.body@,
            author: self.author@,
            base_branch: self.base_branch@,
            head_branch: self.head_branch@,
            head_sha: self.head_sha@,
            draft: self.draft,
            mergeable: self.mergeable,
            diff: self.diff@,
            diff_truncated: self.diff_truncated,
            changed_files: views(self.changed_files@),
            checks: views(self.checks@),
        }
    }
}

/// A pull request is written with its owner first, then its repo, each before its
/// own sign; what follows reads back as its number.
pub proof fn law_a_pull_request_is_written_by_its_parts(pr: PullRequestRefView)
    ensures
        ({
            let head = pr.owner + "/"@ + pr.repo + "#"@;
            &&& begins_with(pr_text(pr), head)
            &&& parsed_u64(pr_text(pr).skip(head.len() as int)) == Some(pr.number)
        }),
{
    let head = pr.owner + "/"@ + pr.repo + "#"@;
    law_numbers_read_back(pr.number);
    assert(pr_text(pr).take(head.len() as int) =~= head);
    assert(pr_text(pr).skip(head.len() as int) =~= decimal(pr.number as nat));
}

} // verus!
