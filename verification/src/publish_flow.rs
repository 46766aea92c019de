//! The order of a publish run, as a state machine: the caller performs each
//! action (calls to GitHub, artifact checks) and reports what happened; the
//! machine says what to do next. A failing action ends the run with its error
//! on the caller's side.

use vstd::prelude::*;

use crate::config::DATA_PR_BRANCH;
use crate::error::{bot_err, BotError};

verus! {

/// Which suite is published. Every suite commits onto the shared data branch
/// and refreshes the one shared data pull request.
#[derive(Clone, Copy, Debug, PartialEq, Eq, Structural)]
pub enum PublishKind {
    Proxy,
    Hnsw,
    WritePipeline,
}

/// What the run waits for.
#[derive(Clone, Copy, Debug, PartialEq, Eq, Structural)]
pub enum PublishStage {
    AwaitVerify,
    AwaitReplayCheck,
    AwaitOpenPr,
    AwaitHeadCheck,
    AwaitArtifact,
    AwaitBranch,
    AwaitCommit,
    AwaitPr,
    Finished,
}

/// What the caller reports.
#[derive(Clone, Copy, Debug, PartialEq, Eq, Structural)]
pub enum PublishEvent {
    /// The dispatch was verified against the Actions API.
    Verified,
    /// The dispatch replays nothing published on `main`.
    ReplayChecked,
    /// Whether a publish pull request is already open.
    OpenPrFound(bool),
    /// Whether the shared branch already carries the head SHA.
    HeadOnBranch(bool),
    /// The artifact was extracted, validated and bound to the verified run.
    ArtifactChecked,
    /// The target branch exists.
    BranchReady,
    /// The data files were committed.
    Committed,
    /// The pull request was opened or refreshed.
    PrPublished,
}

/// What the caller does next.
#[derive(Clone, Copy, Debug, PartialEq, Eq, Structural)]
pub enum PublishAction {
    CheckReplay,
    FindOpenPr,
    CheckHeadOnBranch,
    FetchArtifact,
    PrepareBranch,
    CommitFiles,
    PublishPr,
    /// Stop: the head is already being published.
    FinishSkipped,
    /// Stop: a dry run ends once the artifact is checked.
    FinishDryRun,
    /// Stop: published.
    FinishPublished,
}

#[derive(Clone, Copy, Debug, PartialEq, Eq, Structural)]
pub struct PublishState {
    pub kind: PublishKind,
    pub dry_run: bool,
    pub stage: PublishStage,
    pub replay_checked: bool,
    pub artifact_checked: bool,
}

/// The event that answers each waiting stage.
pub open spec fn answers(stage: PublishStage, e: PublishEvent) -> bool {
    match (stage, e) {
        (PublishStage::AwaitVerify, PublishEvent::Verified) => true,
        (PublishStage::AwaitReplayCheck, PublishEvent::ReplayChecked) => true,
        (PublishStage::AwaitOpenPr, PublishEvent::OpenPrFound(_)) => true,
        (PublishStage::AwaitHeadCheck, PublishEvent::HeadOnBranch(_)) => true,
        (PublishStage::AwaitArtifact, PublishEvent::ArtifactChecked) => true,
        (PublishStage::AwaitBranch, PublishEvent::BranchReady) => true,
        (PublishStage::AwaitCommit, PublishEvent::Committed) => true,
        (PublishStage::AwaitPr, PublishEvent::PrPublished) => true,
        _ => false,
    }
}

/// The order of a run that goes all the way: verify, replay check, open-PR
/// lookup, head check, artifact, branch, commit, pull request.
pub open spec fn following(stage: PublishStage) -> PublishStage {
    match stage {
        PublishStage::AwaitVerify => PublishStage::AwaitReplayCheck,
        PublishStage::AwaitReplayCheck => PublishStage::AwaitOpenPr,
        PublishStage::AwaitOpenPr => PublishStage::AwaitHeadCheck,
        PublishStage::AwaitHeadCheck => PublishStage::AwaitArtifact,
        PublishStage::AwaitArtifact => PublishStage::AwaitBranch,
        PublishStage::AwaitBranch => PublishStage::AwaitCommit,
        PublishStage::AwaitCommit => PublishStage::AwaitPr,
        _ => PublishStage::Finished,
    }
}

/// The action a stage is entered with.
pub open spec fn action_for(stage: PublishStage) -> PublishAction {
    match stage {
        PublishStage::AwaitReplayCheck => PublishAction::CheckReplay,
        PublishStage::AwaitOpenPr => PublishAction::FindOpenPr,
        PublishStage::AwaitHeadCheck => PublishAction::CheckHeadOnBranch,
        PublishStage::AwaitArtifact => PublishAction::FetchArtifact,
        PublishStage::AwaitBranch => PublishAction::PrepareBranch,
        PublishStage::AwaitCommit => PublishAction::CommitFiles,
        PublishStage::AwaitPr => PublishAction::PublishPr,
        _ => PublishAction::FinishPublished,
    }
}

/// The next stage and action, or `None` when the event does not answer the
/// stage. A run follows the stage order, except that with no open data PR the
/// head check is skipped, a head already on the branch ends the run as
/// skipped, and a dry run ends once the artifact is checked. Every suite
/// takes the same path.
pub open spec fn transition(s: PublishState, e: PublishEvent) -> Option<(PublishStage, PublishAction)> {
    if !answers(s.stage, e) {
        None
    } else if e == PublishEvent::OpenPrFound(false) {
        Some((PublishStage::AwaitArtifact, PublishAction::FetchArtifact))
    } else if e == PublishEvent::HeadOnBranch(true) {
        Some((PublishStage::Finished, PublishAction::FinishSkipped))
    } else if e == PublishEvent::ArtifactChecked && s.dry_run {
        Some((PublishStage::Finished, PublishAction::FinishDryRun))
    } else {
        Some((following(s.stage), action_for(following(s.stage))))
    }
}

/// The state after an accepted event: the stage moves on, and the replay
/// and artifact checks are recorded when they are reported.
pub open spec fn after(s: PublishState, e: PublishEvent, stage: PublishStage) -> PublishState {
    PublishState {
        kind: s.kind,
        dry_run: s.dry_run,
        stage,
        replay_checked: s.replay_checked || e == PublishEvent::ReplayChecked,
        artifact_checked: s.artifact_checked || e == PublishEvent::ArtifactChecked,
    }
}

/// Writes to the harness repository happen only after both checks, and
/// never in a dry run.
pub open spec fn writes_allowed(s: PublishState) -> bool {
    s.replay_checked && s.artifact_checked && !s.dry_run
}

/// What each stage has behind it.
pub open spec fn publish_inv(s: PublishState) -> bool {
    &&& (s.stage == PublishStage::AwaitVerify ==> !s.replay_checked && !s.artifact_checked)
    &&& (s.stage == PublishStage::AwaitReplayCheck ==> !s.replay_checked && !s.artifact_checked)
    &&& (s.stage == PublishStage::AwaitOpenPr ==> s.replay_checked && !s.artifact_checked)
    &&& (s.stage == PublishStage::AwaitHeadCheck ==> s.replay_checked && !s.artifact_checked)
    &&& (s.stage == PublishStage::AwaitArtifact ==> s.replay_checked && !s.artifact_checked)
    &&& (s.stage == PublishStage::AwaitBranch ==> writes_allowed(s))
    &&& (s.stage == PublishStage::AwaitCommit ==> writes_allowed(s))
    &&& (s.stage == PublishStage::AwaitPr ==> writes_allowed(s))
}

pub open spec fn writes(a: PublishAction) -> bool {
    a == PublishAction::PrepareBranch || a == PublishAction::CommitFiles || a
        == PublishAction::PublishPr
}

impl PublishState {
    /// A run that has not verified its dispatch yet.
    pub fn start(kind: PublishKind, dry_run: bool) -> (s: PublishState)
        ensures
            s.kind == kind,
            s.dry_run == dry_run,
            s.stage == PublishStage::AwaitVerify,
            publish_inv(s),
    {
        PublishState {
            kind,
            dry_run,
            stage: PublishStage::AwaitVerify,
            replay_checked: false,
            artifact_checked: false,
        }
    }

    /// Takes the caller's report and says what to do next; a report that
    /// does not fit the current stage is refused.
    pub fn step(&self, e: PublishEvent) -> (r: Result<(PublishState, PublishAction), BotError>)
        ensures
            match transition(*self, e) {
                Some((stage, action)) => r matches Ok((s, a)) && s == after(*self, e, stage) && a
                    == action,
                None => r matches Err(err) && err@ == "publish step out of order"@,
            },
    {
        let next: Option<(PublishStage, PublishAction)> = match (self.stage, e) {
            (PublishStage::AwaitVerify, PublishEvent::Verified) => Some(
                (PublishStage::AwaitReplayCheck, PublishAction::CheckReplay),
            ),
            (PublishStage::AwaitReplayCheck, PublishEvent::ReplayChecked) => Some(
                (PublishStage::AwaitOpenPr, PublishAction::FindOpenPr),
            ),
            (PublishStage::AwaitOpenPr, PublishEvent::OpenPrFound(found)) => if found {
                Some((PublishStage::AwaitHeadCheck, PublishAction::CheckHeadOnBranch))
            } else {
                Some((PublishStage::AwaitArtifact, PublishAction::FetchArtifact))
            },
            (PublishStage::AwaitHeadCheck, PublishEvent::HeadOnBranch(on_branch)) => if on_branch {
                Some((PublishStage::Finished, PublishAction::FinishSkipped))
            } else {
                Some((PublishStage::AwaitArtifact, PublishAction::FetchArtifact))
            },
            (PublishStage::AwaitArtifact, PublishEvent::ArtifactChecked) => if self.dry_run {
                Some((PublishStage::Finished, PublishAction::FinishDryRun))
            } else {
                Some((PublishStage::AwaitBranch, PublishAction::PrepareBranch))
            },
            (PublishStage::AwaitBranch, PublishEvent::BranchReady) => Some(
                (PublishStage::AwaitCommit, PublishAction::CommitFiles),
            ),
            (PublishStage::AwaitCommit, PublishEvent::Committed) => Some(
                (PublishStage::AwaitPr, PublishAction::PublishPr),
            ),
            (PublishStage::AwaitPr, PublishEvent::PrPublished) => Some(
                (PublishStage::Finished, PublishAction::FinishPublished),
            ),
            _ => None,
        };
        match next {
            None => Err(bot_err(String::from_str("publish step out of order"))),
            Some((stage, action)) => {
                let replay_checked = self.replay_checked || match e {
                    PublishEvent::ReplayChecked => true,
                    _ => false,
                };
                let artifact_checked = self.artifact_checked || match e {
                    PublishEvent::ArtifactChecked => true,
                    _ => false,
                };
                Ok(
                    (
                        PublishState {
                            kind: self.kind,
                            dry_run: self.dry_run,
                            stage,
                            replay_checked,
                            artifact_checked,
                        },
                        action,
                    ),
                )
            },
        }
    }
}

/// Every accepted report keeps the stage invariant, and an action that
/// writes to the harness repository comes only after the dispatch passed the
/// replay check and the artifact was checked, and never in a dry run.
pub proof fn lemma_publish_step_safe(s: PublishState, e: PublishEvent)
    requires
        publish_inv(s),
    ensures
        transition(s, e) matches Some((stage, action)) ==> {
            &&& publish_inv(after(s, e, stage))
            &&& (writes(action) ==> writes_allowed(after(s, e, stage)))
        },
{
}

/// Whatever the reports, a run publishes only once it has verified the
/// dispatch: from the start, no single report other than `Verified` is
/// accepted.
pub proof fn lemma_publish_starts_with_verification(kind: PublishKind, dry_run: bool, e: PublishEvent)
    ensures
        transition(
            PublishState {
                kind,
                dry_run,
                stage: PublishStage::AwaitVerify,
                replay_checked: false,
                artifact_checked: false,
            },
            e,
        ) is Some <==> e == PublishEvent::Verified,
{
}

/// The branch a publish run commits onto: the shared data branch, for every
/// suite.
pub fn publish_branch(kind: PublishKind) -> (r: &'static str)
    ensures
        r@ == DATA_PR_BRANCH@,
{
    DATA_PR_BRANCH
}

} // verus!
