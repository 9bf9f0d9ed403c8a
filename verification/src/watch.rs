//! Watch-mode orchestration: a filesystem change event is classified by
//! a pure rule into one of four outcomes, and the orchestrator's step
//! maps each incoming event to the action the surrounding loop performs.
//! The side-effecting rebuild work stays out of the classification.

use vstd::prelude::*;
use crate::arguments::SaaruArguments;
use crate::paths::content_path;
use crate::paths::is_md_file;
use crate::paths::is_under_dir;
use crate::paths::is_under_slashed_dir;
use crate::paths::lemma_content_path_from_parts;
use crate::paths::under_dir;
use crate::paths::under_slashed_dir;
use crate::saaru::SaaruInstance;

verus! {

/// The kind of a filesystem change notification, reduced to what the
/// classification reads: whether the change marks content as finalized
/// (a completed write) or is some transient signal.
#[derive(Clone, Copy, Debug, PartialEq, Eq, Structural)]
pub enum FsEventKind {
    ContentFinalized,
    Other,
}

/// One filesystem change notification: the paths it concerns and its
/// kind.
pub struct FsEvent {
    pub paths: Vec<String>,
    pub kind: FsEventKind,
}

/// What flows over the orchestrator's event channel: a change report
/// from a watcher (or the watcher's error, carried as its message), or
/// the completion signal of a finished rebuild cycle.
pub enum SaaruEvent {
    FileChanged(Result<FsEvent, String>),
    FileReRenderCompleted,
}

/// The classification of one change event.
#[derive(Clone, Copy, Debug, PartialEq, Eq, Structural)]
pub enum WatchDecision {
    Ignored,
    StaticCopy,
    IncrementalRebuild,
    FullRebuild,
}

/// What the watch loop is told to do for one event.
#[derive(Debug, PartialEq)]
pub enum OrchestratorAction {
    DoNothing,
    RecopyStatic,
    RerenderFile(String),
    RunFullRebuild,
    EmitReload,
}

/// The classification rule, in priority order: a transient event or a
/// path outside every watched root is ignored; a path under the static
/// root means a re-copy; a content file under the content root means an
/// incremental rebuild; anything else (a template, or a non-content file
/// under the content root) is structural and means a full rebuild.
pub open spec fn spec_classify(
    source_dir: Seq<char>,
    static_dir: Seq<char>,
    template_dir: Seq<char>,
    path: Seq<char>,
    finalized: bool,
) -> WatchDecision {
    if !finalized || !(under_dir(path, source_dir) || under_dir(path, static_dir)
        || under_slashed_dir(path, template_dir)) {
        WatchDecision::Ignored
    } else if under_dir(path, static_dir) {
        WatchDecision::StaticCopy
    } else if content_path(path, source_dir) {
        WatchDecision::IncrementalRebuild
    } else {
        WatchDecision::FullRebuild
    }
}

/// Classify one change event against the configured roots.
pub fn classify_event(args: &SaaruArguments, path: &str, finalized: bool) -> (d: WatchDecision)
    ensures
        d == spec_classify(
            args.source_dir@,
            args.static_dir@,
            args.template_dir@,
            path@,
            finalized,
        ),
{
    if !finalized {
        return WatchDecision::Ignored;
    }
    let under_src = is_under_dir(path, args.source_dir.as_str());
    let under_static = is_under_dir(path, args.static_dir.as_str());
    let under_templates = is_under_slashed_dir(path, args.template_dir.as_str());
    if !under_src && !under_static && !under_templates {
        return WatchDecision::Ignored;
    }
    if under_static {
        return WatchDecision::StaticCopy;
    }
    if under_src && is_md_file(path) {
        proof {
            lemma_content_path_from_parts(path@, args.source_dir@);
        }
        return WatchDecision::IncrementalRebuild;
    }
    WatchDecision::FullRebuild
}

impl SaaruInstance {
    /// Whether a path is a content file of this instance.
    pub fn is_content_file(&self, path: &str) -> (r: bool)
        ensures
            r == content_path(path@, self.arguments.source_dir@),
    {
        if is_under_dir(path, self.arguments.source_dir.as_str()) && is_md_file(path) {
            proof {
                lemma_content_path_from_parts(path@, self.arguments.source_dir@);
            }
            true
        } else {
            false
        }
    }

    /// One step of the watch orchestrator: map an event to the action
    /// the loop performs next. A completion signal asks for one reload
    /// notification; a watcher error and a transient or unwatched change
    /// ask for nothing; otherwise the classification decides, and for an
    /// incremental rebuild the action carries the changed path.
    pub fn orchestrator_step(&self, event: &SaaruEvent) -> (a: OrchestratorAction)
        ensures
            match event {
                SaaruEvent::FileReRenderCompleted => a is EmitReload,
                SaaruEvent::FileChanged(res) => match res {
                    Err(_) => a is DoNothing,
                    Ok(ev) => if ev.paths@.len() == 0 {
                        a is DoNothing
                    } else {
                        match spec_classify(
                            self.arguments.source_dir@,
                            self.arguments.static_dir@,
                            self.arguments.template_dir@,
                            ev.paths@[0]@,
                            ev.kind is ContentFinalized,
                        ) {
                            WatchDecision::Ignored => a is DoNothing,
                            WatchDecision::StaticCopy => a is RecopyStatic,
                            WatchDecision::IncrementalRebuild => (a matches
                                OrchestratorAction::RerenderFile(p) && p@ == ev.paths@[0]@),
                            WatchDecision::FullRebuild => a is RunFullRebuild,
                        }
                    },
                },
            },
    {
        match event {
            SaaruEvent::FileReRenderCompleted => OrchestratorAction::EmitReload,
            SaaruEvent::FileChanged(res) => match res {
                Err(_) => OrchestratorAction::DoNothing,
                Ok(ev) => {
                    if ev.paths.len() == 0 {
                        return OrchestratorAction::DoNothing;
                    }
                    let finalized = match ev.kind {
                        FsEventKind::ContentFinalized => true,
                        FsEventKind::Other => false,
                    };
                    let d = classify_event(&self.arguments, ev.paths[0].as_str(), finalized);
                    match d {
                        WatchDecision::Ignored => OrchestratorAction::DoNothing,
                        WatchDecision::StaticCopy => OrchestratorAction::RecopyStatic,
                        WatchDecision::IncrementalRebuild => OrchestratorAction::RerenderFile(
                            ev.paths[0].clone(),
                        ),
                        WatchDecision::FullRebuild => OrchestratorAction::RunFullRebuild,
                    }
                },
            },
        }
    }
}

} // verus!
