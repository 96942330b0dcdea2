//! The run itself, as a state machine. The caller performs each [`Action`]
//! (printing a line, probing or creating a directory, starting a
//! collaborator) and reports the outcome back as the next [`Event`].

use vstd::prelude::*;
use crate::config::{concat3, join, join_path, Config, RunError};
use crate::decimal::decimal_text;
use crate::text::{nat_text, u32_text};

verus! {

/// File name of the metadata-preparation collaborator.
pub const METADATA_TOOL: &'static str = "make_metadata_dir";

/// File name of the analysis collaborator.
pub const ANALYSIS_TOOL: &'static str = "sna";

/// Name of the metadata directory under the output directory.
pub const META_DIR_NAME: &'static str = "meta";

/// The two outside programs that a run starts.
#[derive(Clone, Copy, Debug, PartialEq, Eq, Structural)]
pub enum Collaborator {
    Metadata,
    Analysis,
}

/// A program to start, with its arguments.
#[derive(Clone, Debug)]
pub struct Invocation {
    pub program: String,
    pub args: Vec<String>,
}

pub open spec fn texts(v: Seq<String>) -> Seq<Seq<char>> {
    v.map_values(|a: String| a@)
}

impl Invocation {
    /// This invocation starts `program` with the arguments `args`.
    pub open spec fn is(self, program: Seq<char>, args: Seq<Seq<char>>) -> bool {
        self.program@ == program && texts(self.args@) == args
    }
}

/// Where a collaborator is found: under `bin_dir` when it is given, else by
/// its bare name, which the system looks up on its search path.
pub open spec fn program_path(bin_dir: Option<String>, name: Seq<char>) -> Seq<char> {
    match bin_dir {
        Some(d) => join_path(d@, name),
        None => name,
    }
}

pub open spec fn metadata_program(c: Config) -> Seq<char> {
    program_path(c.bin_dir, METADATA_TOOL@)
}

pub open spec fn analysis_program(c: Config) -> Seq<char> {
    program_path(c.bin_dir, ANALYSIS_TOOL@)
}

/// `-f <metadata> -o <out_dir>/meta`, then `-s <distance>` if the distance is
/// positive, then `-e <fraction>` if the fraction is positive.
pub open spec fn metadata_args(c: Config, metadata: Seq<char>) -> Seq<Seq<char>> {
    let base = seq!["-f"@, metadata, "-o"@, join_path(c.out_dir@, META_DIR_NAME@)];
    let dist = if c.distance > 0 {
        seq!["-s"@, nat_text(c.distance as nat)]
    } else {
        seq![]
    };
    let euc = if c.euc_dist_percent.spec_is_positive() {
        seq!["-e"@, decimal_text(c.euc_dist_percent)]
    } else {
        seq![]
    };
    base + dist + euc
}

/// `-f <matrix> -o <out_dir> -n <scans>`.
pub open spec fn analysis_args(c: Config) -> Seq<Seq<char>> {
    seq!["-f"@, c.matrix@, "-o"@, c.out_dir@, "-n"@, nat_text(c.num_scans as nat)]
}

/// Where the collaborator `name` is found.
pub fn collaborator_path(bin_dir: &Option<String>, name: &str) -> (r: String)
    ensures
        r@ == program_path(*bin_dir, name@),
{
    match bin_dir {
        Some(d) => join(d.as_str(), name),
        None => name.to_owned(),
    }
}

/// The command line of the metadata step for the metadata file `metadata`.
pub fn metadata_invocation(c: &Config, metadata: &str) -> (r: Invocation)
    requires
        c.wf(),
    ensures
        r.is(metadata_program(*c), metadata_args(*c, metadata@)),
{
    let program = collaborator_path(&c.bin_dir, METADATA_TOOL);
    let mut args: Vec<String> = Vec::new();
    args.push("-f".to_owned());
    args.push(metadata.to_owned());
    args.push("-o".to_owned());
    args.push(join(c.out_dir.as_str(), META_DIR_NAME));
    let ghost base = texts(args@);
    if c.distance > 0 {
        args.push("-s".to_owned());
        args.push(u32_text(c.distance));
    }
    let ghost with_dist = texts(args@);
    if c.euc_dist_percent.is_positive() {
        args.push("-e".to_owned());
        args.push(c.euc_dist_percent.to_text());
    }
    assert(texts(args@) =~= metadata_args(*c, metadata@));
    Invocation { program, args }
}

/// The command line of the analysis step.
pub fn analysis_invocation(c: &Config) -> (r: Invocation)
    ensures
        r.is(analysis_program(*c), analysis_args(*c)),
{
    let program = collaborator_path(&c.bin_dir, ANALYSIS_TOOL);
    let mut args: Vec<String> = Vec::new();
    args.push("-f".to_owned());
    args.push(c.matrix.clone());
    args.push("-o".to_owned());
    args.push(c.out_dir.clone());
    args.push("-n".to_owned());
    args.push(u32_text(c.num_scans));
    assert(texts(args@) =~= analysis_args(*c));
    Invocation { program, args }
}

/// How starting a collaborator went.
#[derive(Clone, Debug)]
pub enum Launch {
    /// It could not be started.
    Failed { reason: String },
    /// It ran and ended, successfully or not.
    Exited { success: bool },
}

/// What the caller reports back after an [`Action`].
#[derive(Clone, Debug)]
pub enum Event {
    /// The run starts.
    Begin,
    /// A line was announced.
    Acknowledged,
    /// Whether the output directory already exists as a directory.
    OutDirProbed { is_dir: bool },
    /// The output directory was created, or the reason it could not be.
    OutDirCreated { failure: Option<String> },
    /// Whether the matrix is a regular file.
    MatrixProbed { is_file: bool },
    /// A collaborator was started.
    Finished { launch: Launch },
}

/// What the caller is to do next.
#[derive(Clone, Debug)]
pub enum Action {
    /// Print this status line.
    Announce { line: String },
    /// Find out whether this path is a directory.
    ProbeOutDir { path: String },
    /// Create this directory, with its missing parents.
    CreateOutDir { path: String },
    /// Find out whether this path is a regular file.
    ProbeMatrix { path: String },
    /// Start this collaborator and wait for it to end.
    Invoke { collaborator: Collaborator, invocation: Invocation },
    /// The run succeeded; its results are in this directory.
    Complete { out_dir: String },
    /// The run failed.
    Fail { error: RunError },
    /// The event does not belong to this stage: nothing to do.
    Nothing,
}

impl Action {
    /// The collaborator that this action starts, if any.
    pub open spec fn invoked(self) -> Option<Collaborator> {
        match self {
            Action::Invoke { collaborator, .. } => Some(collaborator),
            _ => None,
        }
    }
}

/// Where a run stands.
#[derive(Clone, Copy, Debug, PartialEq, Eq, Structural)]
pub enum Stage {
    Start,
    Announced,
    OutDirChecking,
    OutDirCreating,
    MatrixChecking,
    MetadataAnnounced,
    MetadataRunning,
    AnalysisRunning,
    Done,
}

/// The stage that follows `s` on the event `e`. An event that does not belong
/// to `s` leaves it unchanged.
pub open spec fn next_stage(c: Config, s: Stage, e: Event) -> Stage {
    match (s, e) {
        (Stage::Start, Event::Begin) => Stage::Announced,
        (Stage::Announced, Event::Acknowledged) => Stage::OutDirChecking,
        (Stage::OutDirChecking, Event::OutDirProbed { is_dir }) => if is_dir {
            Stage::MatrixChecking
        } else {
            Stage::OutDirCreating
        },
        (Stage::OutDirCreating, Event::OutDirCreated { failure }) => if failure is None {
            Stage::MatrixChecking
        } else {
            Stage::Done
        },
        (Stage::MatrixChecking, Event::MatrixProbed { is_file }) => if !is_file {
            Stage::Done
        } else if c.metadata is Some {
            Stage::MetadataAnnounced
        } else {
            Stage::AnalysisRunning
        },
        (Stage::MetadataAnnounced, Event::Acknowledged) => Stage::MetadataRunning,
        (Stage::MetadataRunning, Event::Finished { launch }) => match launch {
            Launch::Failed { .. } => Stage::Done,
            Launch::Exited { .. } => Stage::AnalysisRunning,
        },
        (Stage::AnalysisRunning, Event::Finished { .. }) => Stage::Done,
        _ => s,
    }
}

pub open spec fn is_probe_matrix(c: Config, a: Action) -> bool {
    a matches Action::ProbeMatrix { path } && path@ == c.matrix@
}

pub open spec fn is_analysis_start(c: Config, a: Action) -> bool {
    a matches Action::Invoke { collaborator, invocation } && collaborator == Collaborator::Analysis
        && invocation.is(analysis_program(c), analysis_args(c))
}

pub open spec fn is_launch_failure(a: Action, program: Seq<char>, why: Seq<char>) -> bool {
    a matches Action::Fail { error: RunError::CollaboratorLaunchFailure { path, reason } }
        && path@ == program && reason@ == why
}

/// The action that comes with the step from `s` on the event `e`.
pub open spec fn step_action(c: Config, s: Stage, e: Event, a: Action) -> bool {
    match (s, e) {
        (Stage::Start, Event::Begin) => a matches Action::Announce { line } && line@
            == "Using input matrix \""@ + c.matrix@ + "\""@,
        (Stage::Announced, Event::Acknowledged) => a matches Action::ProbeOutDir { path }
            && path@ == c.out_dir@,
        (Stage::OutDirChecking, Event::OutDirProbed { is_dir }) => if is_dir {
            is_probe_matrix(c, a)
        } else {
            a matches Action::CreateOutDir { path } && path@ == c.out_dir@
        },
        (Stage::OutDirCreating, Event::OutDirCreated { failure }) => match failure {
            None => is_probe_matrix(c, a),
            Some(why) => a matches Action::Fail {
                error: RunError::DirectoryCreationFailure { path, reason },
            } && path@ == c.out_dir@ && reason@ == why@,
        },
        (Stage::MatrixChecking, Event::MatrixProbed { is_file }) => if !is_file {
            a matches Action::Fail { error: RunError::InvalidFileReference { path } } && path@
                == c.matrix@
        } else {
            match c.metadata {
                Some(m) => a matches Action::Announce { line } && line@ == "Processing metadata \""@
                    + m@ + "\""@,
                None => is_analysis_start(c, a),
            }
        },
        (Stage::MetadataAnnounced, Event::Acknowledged) => match c.metadata {
            Some(m) => a matches Action::Invoke { collaborator, invocation } && collaborator
                == Collaborator::Metadata && invocation.is(
                metadata_program(c),
                metadata_args(c, m@),
            ),
            None => a is Nothing,
        },
        (Stage::MetadataRunning, Event::Finished { launch }) => match launch {
            Launch::Failed { reason } => is_launch_failure(a, metadata_program(c), reason@),
            Launch::Exited { .. } => is_analysis_start(c, a),
        },
        (Stage::AnalysisRunning, Event::Finished { launch }) => match launch {
            Launch::Failed { reason } => is_launch_failure(a, analysis_program(c), reason@),
            Launch::Exited { success } => if success {
                a matches Action::Complete { out_dir } && out_dir@ == c.out_dir@
            } else {
                a matches Action::Fail { error: RunError::CollaboratorExecutionFailure { path } }
                    && path@ == analysis_program(c)
            },
        },
        _ => a is Nothing,
    }
}

/// One run of the collaborators for a configuration.
#[derive(Clone, Debug)]
pub struct Run {
    pub config: Config,
    pub stage: Stage,
}

impl Run {
    /// A run of `config`, not yet begun.
    pub fn new(config: Config) -> (r: Run)
        ensures
            r.config == config,
            r.stage == Stage::Start,
    {
        Run { config, stage: Stage::Start }
    }

    /// Takes the run one step on the event `event`, and says what to do next.
    ///
    /// The metadata step stops the run only when it cannot be started; how it
    /// ends does not matter, and the analysis follows. The analysis step fails
    /// the run both when it cannot be started and when it ends unsuccessfully.
    pub fn step(&mut self, event: Event) -> (r: Action)
        requires
            old(self).config.wf(),
        ensures
            final(self).config == old(self).config,
            final(self).stage == next_stage(old(self).config, old(self).stage, event),
            step_action(old(self).config, old(self).stage, event, r),
    {
        let c = &self.config;
        let (stage, action) = match (self.stage, event) {
            (Stage::Start, Event::Begin) => (
                Stage::Announced,
                Action::Announce { line: concat3("Using input matrix \"", c.matrix.as_str(), "\"") },
            ),
            (Stage::Announced, Event::Acknowledged) => (
                Stage::OutDirChecking,
                Action::ProbeOutDir { path: c.out_dir.clone() },
            ),
            (Stage::OutDirChecking, Event::OutDirProbed { is_dir }) => if is_dir {
                (Stage::MatrixChecking, Action::ProbeMatrix { path: c.matrix.clone() })
            } else {
                (Stage::OutDirCreating, Action::CreateOutDir { path: c.out_dir.clone() })
            },
            (Stage::OutDirCreating, Event::OutDirCreated { failure }) => match failure {
                None => (Stage::MatrixChecking, Action::ProbeMatrix { path: c.matrix.clone() }),
                Some(why) => (
                    Stage::Done,
                    Action::Fail {
                        error: RunError::DirectoryCreationFailure {
                            path: c.out_dir.clone(),
                            reason: why,
                        },
                    },
                ),
            },
            (Stage::MatrixChecking, Event::MatrixProbed { is_file }) => if !is_file {
                (
                    Stage::Done,
                    Action::Fail {
                        error: RunError::InvalidFileReference { path: c.matrix.clone() },
                    },
                )
            } else {
                match &c.metadata {
                    Some(m) => (
                        Stage::MetadataAnnounced,
                        Action::Announce {
                            line: concat3("Processing metadata \"", m.as_str(), "\""),
                        },
                    ),
                    None => (
                        Stage::AnalysisRunning,
                        Action::Invoke {
                            collaborator: Collaborator::Analysis,
                            invocation: analysis_invocation(c),
                        },
                    ),
                }
            },
            (Stage::MetadataAnnounced, Event::Acknowledged) => match &c.metadata {
                Some(m) => (
                    Stage::MetadataRunning,
                    Action::Invoke {
                        collaborator: Collaborator::Metadata,
                        invocation: metadata_invocation(c, m.as_str()),
                    },
                ),
                None => (Stage::MetadataRunning, Action::Nothing),
            },
            (Stage::MetadataRunning, Event::Finished { launch }) => match launch {
                Launch::Failed { reason } => (
                    Stage::Done,
                    Action::Fail {
                        error: RunError::CollaboratorLaunchFailure {
                            path: collaborator_path(&c.bin_dir, METADATA_TOOL),
                            reason,
                        },
                    },
                ),
                Launch::Exited { .. } => (
                    Stage::AnalysisRunning,
                    Action::Invoke {
                        collaborator: Collaborator::Analysis,
                        invocation: analysis_invocation(c),
                    },
                ),
            },
            (Stage::AnalysisRunning, Event::Finished { launch }) => match launch {
                Launch::Failed { reason } => (
                    Stage::Done,
                    Action::Fail {
                        error: RunError::CollaboratorLaunchFailure {
                            path: collaborator_path(&c.bin_dir, ANALYSIS_TOOL),
                            reason,
                        },
                    },
                ),
                Launch::Exited { success } => if success {
                    (Stage::Done, Action::Complete { out_dir: c.out_dir.clone() })
                } else {
                    (
                        Stage::Done,
                        Action::Fail {
                            error: RunError::CollaboratorExecutionFailure {
                                path: collaborator_path(&c.bin_dir, ANALYSIS_TOOL),
                            },
                        },
                    )
                },
            },
            (s, _) => (s, Action::Nothing),
        };
        self.stage = stage;
        action
    }
}

/// The stage reached from `s` after the events `evs`, in order.
pub open spec fn stage_after(c: Config, s: Stage, evs: Seq<Event>) -> Stage
    decreases evs.len(),
{
    if evs.len() == 0 {
        s
    } else {
        next_stage(c, stage_after(c, s, evs.drop_last()), evs.last())
    }
}

/// The collaborator that the step from `s` on `e` starts, if any.
pub open spec fn started(c: Config, s: Stage, e: Event) -> Option<Collaborator> {
    match (s, e) {
        (Stage::MatrixChecking, Event::MatrixProbed { is_file }) => if is_file && c.metadata is None {
            Some(Collaborator::Analysis)
        } else {
            None
        },
        (Stage::MetadataAnnounced, Event::Acknowledged) => if c.metadata is Some {
            Some(Collaborator::Metadata)
        } else {
            None
        },
        (Stage::MetadataRunning, Event::Finished { launch }) => if launch is Exited {
            Some(Collaborator::Analysis)
        } else {
            None
        },
        _ => None,
    }
}

/// The collaborator that the `i`-th step of a run on `evs` starts, if any.
pub open spec fn started_at(c: Config, evs: Seq<Event>, i: int) -> Option<Collaborator> {
    started(c, stage_after(c, Stage::Start, evs.take(i)), evs[i])
}

/// The event says that the matrix is a regular file.
pub open spec fn confirms_matrix(e: Event) -> bool {
    e matches Event::MatrixProbed { is_file: true }
}

/// The event says that the output directory is there: it existed or was made.
pub open spec fn confirms_out_dir(e: Event) -> bool {
    e matches Event::OutDirProbed { is_dir: true } || e matches Event::OutDirCreated {
        failure: None,
    }
}

pub open spec fn past_matrix_check(s: Stage) -> bool {
    s is MetadataAnnounced || s is MetadataRunning || s is AnalysisRunning
}

pub open spec fn past_out_dir(s: Stage) -> bool {
    s is MatrixChecking || past_matrix_check(s)
}

/// The action of a step starts exactly the collaborator that [`started`] names.
pub proof fn lemma_action_starts(c: Config, s: Stage, e: Event, a: Action)
    requires
        step_action(c, s, e, a),
    ensures
        a.invoked() == started(c, s, e),
{
}

proof fn lemma_stages_seen(c: Config, evs: Seq<Event>)
    ensures
        past_matrix_check(stage_after(c, Stage::Start, evs)) ==> exists|j: int|
            0 <= j < evs.len() && confirms_matrix(#[trigger] evs[j]),
        past_out_dir(stage_after(c, Stage::Start, evs)) ==> exists|j: int|
            0 <= j < evs.len() && confirms_out_dir(#[trigger] evs[j]),
        c.metadata is None ==> !(stage_after(c, Stage::Start, evs) is MetadataAnnounced),
        c.metadata is None ==> !(stage_after(c, Stage::Start, evs) is MetadataRunning),
    decreases evs.len(),
{
    if evs.len() > 0 {
        let p = evs.drop_last();
        lemma_stages_seen(c, p);
        let s = stage_after(c, Stage::Start, p);
        if past_matrix_check(s) {
            let j = choose|j: int| 0 <= j < p.len() && confirms_matrix(#[trigger] p[j]);
            assert(evs[j] == p[j]);
        } else if past_matrix_check(stage_after(c, Stage::Start, evs)) {
            assert(confirms_matrix(evs[evs.len() - 1]));
        }
        if past_out_dir(s) {
            let j = choose|j: int| 0 <= j < p.len() && confirms_out_dir(#[trigger] p[j]);
            assert(evs[j] == p[j]);
        } else if past_out_dir(stage_after(c, Stage::Start, evs)) {
            assert(confirms_out_dir(evs[evs.len() - 1]));
        }
    }
}

/// No collaborator starts until the matrix has been found to be a regular
/// file: a run whose matrix probe fails starts none.
pub proof fn lemma_matrix_checked_first(c: Config, evs: Seq<Event>, i: int)
    requires
        0 <= i < evs.len(),
        started_at(c, evs, i) is Some,
    ensures
        exists|j: int| 0 <= j <= i && confirms_matrix(#[trigger] evs[j]),
{
    let p = evs.take(i);
    lemma_stages_seen(c, p);
    if past_matrix_check(stage_after(c, Stage::Start, p)) {
        let j = choose|j: int| 0 <= j < p.len() && confirms_matrix(#[trigger] p[j]);
        assert(evs[j] == p[j]);
    } else {
        assert(confirms_matrix(evs[i]));
    }
}

/// No collaborator starts until the output directory has been found to exist
/// or has been created.
pub proof fn lemma_out_dir_ready_first(c: Config, evs: Seq<Event>, i: int)
    requires
        0 <= i < evs.len(),
        started_at(c, evs, i) is Some,
    ensures
        exists|j: int| 0 <= j < i && confirms_out_dir(#[trigger] evs[j]),
{
    let p = evs.take(i);
    lemma_stages_seen(c, p);
    let j = choose|j: int| 0 <= j < p.len() && confirms_out_dir(#[trigger] p[j]);
    assert(evs[j] == p[j]);
}

/// The output directory is created only when the probe found it missing: an
/// existing one is left as it is.
pub proof fn lemma_existing_out_dir_kept(c: Config, s: Stage, e: Event, a: Action)
    requires
        step_action(c, s, e, a),
        a is CreateOutDir,
    ensures
        s == Stage::OutDirChecking,
        e matches Event::OutDirProbed { is_dir: false },
{
}

/// Without a metadata file the metadata collaborator never starts.
pub proof fn lemma_no_metadata_step(c: Config, evs: Seq<Event>, i: int)
    requires
        c.metadata is None,
        0 <= i < evs.len(),
    ensures
        started_at(c, evs, i) != Some(Collaborator::Metadata),
{
    lemma_stages_seen(c, evs.take(i));
}

} // verus!
