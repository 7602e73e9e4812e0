//! One run of the fixture synchronizer, as a machine that never touches the
//! outside world itself.
//!
//! A run always has one pending step, which the caller performs: look whether
//! a directory exists, fetch the archive, copy a file. The caller then reports
//! what came of it, and the run moves on. A run with a local pattern goes
//! straight to expanding it; any other run first stages the release: it makes
//! sure that the staging directory is new, creates it, fetches the archive
//! and unpacks it. Staging that fails ends the run. A copy that fails does
//! not.

use vstd::prelude::*;
use crate::download::DlFileError;
use crate::plan::{
    lemma_plan_accounts,
    plan_copies,
    planned,
    CopyPlan,
    CopyPlanView,
    Match,
    MatchView,
    NamePolicy,
};
use crate::release::{
    archive_name,
    download_url,
    payload_pattern,
    staging_dir_name,
    ReleaseCoordinate,
};

verus! {

/// What a run works with.
#[derive(Clone, Debug)]
pub struct Config {
    /// The tag of the release to stage.
    pub tag: String,
    /// The site that serves the releases, ending in its separator.
    pub releases_url: String,
    /// The most that is kept of the archive, in bytes.
    pub archive_max_size: u64,
    /// The directory the files are copied into.
    pub destination_root: String,
    /// What becomes of a matched path that has no file name.
    pub on_missing_name: NamePolicy,
}

/// A configuration as contracts see it.
pub struct ConfigView {
    pub tag: Seq<char>,
    pub releases_url: Seq<char>,
    pub archive_max_size: u64,
    pub destination_root: Seq<char>,
    pub on_missing_name: NamePolicy,
}

impl View for Config {
    type V = ConfigView;

    open spec fn view(&self) -> ConfigView {
        ConfigView {
            tag: self.tag@,
            releases_url: self.releases_url@,
            archive_max_size: self.archive_max_size,
            destination_root: self.destination_root@,
            on_missing_name: self.on_missing_name,
        }
    }
}

/// The configuration of the reference deployment.
pub open spec fn reference_config() -> ConfigView {
    ConfigView {
        tag: "TEST.26.1"@,
        releases_url: "https://github.com/massalabs/massa-unit-tests-src/releases/download/"@,
        archive_max_size: 1048576,
        destination_root: "massa-execution-worker/src/tests/wasm/"@,
        on_missing_name: NamePolicy::Skip,
    }
}

impl Config {
    /// The configuration of the reference deployment: release `TEST.26.1`,
    /// an archive of at most 1 MiB, and paths without a file name passed
    /// over.
    pub fn reference() -> (cfg: Config)
        ensures
            cfg@ == reference_config(),
    {
        Config {
            tag: "TEST.26.1".to_owned(),
            releases_url: "https://github.com/massalabs/massa-unit-tests-src/releases/download/".to_owned(),
            archive_max_size: 1048576,
            destination_root: "massa-execution-worker/src/tests/wasm/".to_owned(),
            on_missing_name: NamePolicy::Skip,
        }
    }
}

/// Why staging failed.
#[derive(Clone, Copy, Debug, PartialEq, Eq, Structural)]
pub enum StageError {
    /// The staging directory is already there.
    AlreadyExists,
    /// The staging directory could not be created.
    CreateDir,
    /// The archive could not be fetched.
    Download(DlFileError),
    /// The archive could not be opened or unpacked.
    Extract,
}

/// How a run ended.
#[derive(Clone, Copy, Debug, PartialEq, Eq, Structural)]
pub enum Outcome {
    /// Every planned copy was tried; `failed` of them failed.
    Completed { failed: usize },
    /// Staging failed, and nothing was copied.
    Staging(StageError),
    /// A matched path had no file name and the policy was to stop there. The
    /// copies planned before it were tried.
    MissingFileName,
}

/// The status the process exits with.
pub open spec fn exit_status(outcome: Outcome) -> u8 {
    match outcome {
        Outcome::Completed { .. } => 0,
        Outcome::Staging(StageError::AlreadyExists) => 1,
        Outcome::Staging(StageError::CreateDir) => 1,
        Outcome::Staging(StageError::Download(_)) => 2,
        Outcome::Staging(StageError::Extract) => 2,
        Outcome::MissingFileName => 3,
    }
}

impl Outcome {
    /// The status the process exits with: 0 for a run that went through, 1
    /// where the staging directory could not be claimed, 2 where the archive
    /// could not be fetched or unpacked, 3 for a path without a file name.
    pub fn exit_status(&self) -> (status: u8)
        ensures
            status == exit_status(*self),
    {
        match self {
            Outcome::Completed { .. } => 0,
            Outcome::Staging(StageError::AlreadyExists) => 1,
            Outcome::Staging(StageError::CreateDir) => 1,
            Outcome::Staging(StageError::Download(_)) => 2,
            Outcome::Staging(StageError::Extract) => 2,
            Outcome::MissingFileName => 3,
        }
    }
}

/// What the caller is to do next.
#[derive(Clone, Debug)]
pub enum Step {
    /// Look whether `dir` exists.
    Probe { dir: String },
    /// Create `dir` and the directories above it.
    CreateDir { dir: String },
    /// Fetch `url` into `file`, keeping at most `max_size` bytes.
    Fetch { url: String, file: String, max_size: u64 },
    /// Unpack the gzip-compressed tar archive `archive` into `into`.
    Unpack { archive: String, into: String },
    /// List what `pattern` matches.
    Expand { pattern: String },
    /// Copy `source` to `destination`, over a file that may be there.
    Copy { source: String, destination: String },
    /// Leave with `status`.
    Exit { status: u8 },
}

/// A step as contracts see it.
pub enum StepView {
    Probe { dir: Seq<char> },
    CreateDir { dir: Seq<char> },
    Fetch { url: Seq<char>, file: Seq<char>, max_size: u64 },
    Unpack { archive: Seq<char>, into: Seq<char> },
    Expand { pattern: Seq<char> },
    Copy { source: Seq<char>, destination: Seq<char> },
    Exit { status: u8 },
}

impl View for Step {
    type V = StepView;

    open spec fn view(&self) -> StepView {
        match self {
            Step::Probe { dir } => StepView::Probe { dir: dir@ },
            Step::CreateDir { dir } => StepView::CreateDir { dir: dir@ },
            Step::Fetch { url, file, max_size } => StepView::Fetch {
                url: url@,
                file: file@,
                max_size: *max_size,
            },
            Step::Unpack { archive, into } => StepView::Unpack { archive: archive@, into: into@ },
            Step::Expand { pattern } => StepView::Expand { pattern: pattern@ },
            Step::Copy { source, destination } => StepView::Copy {
                source: source@,
                destination: destination@,
            },
            Step::Exit { status } => StepView::Exit { status: *status },
        }
    }
}

/// What came of a step.
#[derive(Debug)]
pub enum Event {
    /// Whether the directory exists.
    Probed { exists: bool },
    /// Whether the directory was created.
    DirCreated { ok: bool },
    /// How the download went.
    Fetched(Result<(), DlFileError>),
    /// Whether the archive was unpacked.
    Unpacked { ok: bool },
    /// What the pattern matched, in the order of the scan.
    Expanded(Vec<Match>),
    /// Whether the file was copied.
    Copied { ok: bool },
}

/// An event as contracts see it.
pub enum EventView {
    Probed { exists: bool },
    DirCreated { ok: bool },
    Fetched(Result<(), DlFileError>),
    Unpacked { ok: bool },
    Expanded(Seq<MatchView>),
    Copied { ok: bool },
}

impl View for Event {
    type V = EventView;

    open spec fn view(&self) -> EventView {
        match self {
            Event::Probed { exists } => EventView::Probed { exists: *exists },
            Event::DirCreated { ok } => EventView::DirCreated { ok: *ok },
            Event::Fetched(result) => EventView::Fetched(*result),
            Event::Unpacked { ok } => EventView::Unpacked { ok: *ok },
            Event::Expanded(matches) => EventView::Expanded(matches.deep_view()),
            Event::Copied { ok } => EventView::Copied { ok: *ok },
        }
    }
}

/// Where a run stands, as contracts see it.
#[verifier::ext_equal]
pub enum RunView {
    /// Waiting to hear whether the staging directory exists.
    Probing,
    /// Waiting for the staging directory to be created.
    Creating,
    /// Waiting for the archive.
    Fetching,
    /// Waiting for the archive to be unpacked.
    Unpacking,
    /// Waiting for the matches of `pattern`.
    Expanding { pattern: Seq<char> },
    /// Waiting for copy number `cursor` of the plan; `failed` of the copies
    /// before it failed.
    Copying { plan: CopyPlanView, cursor: usize, failed: usize },
    /// Over.
    Done { outcome: Outcome },
}

impl RunView {
    /// A run that is copying still has a copy to wait for, and no more
    /// copies have failed than were tried.
    pub open spec fn wf(self) -> bool {
        match self {
            RunView::Copying { plan, cursor, failed } => cursor < plan.job.len() <= usize::MAX
                && failed <= cursor,
            _ => true,
        }
    }
}

/// How a run begins: with a local pattern it expands that pattern, without
/// one it stages the release.
pub open spec fn initial(local: Option<Seq<char>>) -> RunView {
    match local {
        Some(pattern) => RunView::Expanding { pattern },
        None => RunView::Probing,
    }
}

/// How a run ends once every planned copy was tried.
pub open spec fn finished(plan: CopyPlanView, failed: usize) -> Outcome {
    if plan.stopped_at is Some {
        Outcome::MissingFileName
    } else {
        Outcome::Completed { failed }
    }
}

/// Where a run stands once `plan` is made: at its first copy, or at its end
/// where there is nothing to copy.
pub open spec fn copying(plan: CopyPlanView) -> RunView {
    if plan.job.len() == 0 {
        RunView::Done { outcome: finished(plan, 0) }
    } else {
        RunView::Copying { plan, cursor: 0, failed: 0 }
    }
}

/// Where the run `run` stands after `event`. An event that does not answer
/// the pending step changes nothing.
pub open spec fn next(cfg: ConfigView, run: RunView, event: EventView) -> RunView {
    match (run, event) {
        (RunView::Probing, EventView::Probed { exists }) => if exists {
            RunView::Done { outcome: Outcome::Staging(StageError::AlreadyExists) }
        } else {
            RunView::Creating
        },
        (RunView::Creating, EventView::DirCreated { ok }) => if ok {
            RunView::Fetching
        } else {
            RunView::Done { outcome: Outcome::Staging(StageError::CreateDir) }
        },
        (RunView::Fetching, EventView::Fetched(result)) => match result {
            Ok(_) => RunView::Unpacking,
            Err(e) => RunView::Done { outcome: Outcome::Staging(StageError::Download(e)) },
        },
        (RunView::Unpacking, EventView::Unpacked { ok }) => if ok {
            RunView::Expanding { pattern: payload_pattern(cfg.tag) }
        } else {
            RunView::Done { outcome: Outcome::Staging(StageError::Extract) }
        },
        (RunView::Expanding { .. }, EventView::Expanded(matches)) => copying(
            planned(matches, cfg.destination_root, cfg.on_missing_name),
        ),
        (RunView::Copying { plan, cursor, failed }, EventView::Copied { ok }) => {
            let failed = if ok {
                failed
            } else {
                (failed + 1) as usize
            };
            if cursor + 1 < plan.job.len() {
                RunView::Copying { plan, cursor: (cursor + 1) as usize, failed }
            } else {
                RunView::Done { outcome: finished(plan, failed) }
            }
        },
        _ => run,
    }
}

/// The step that `run` waits for.
pub open spec fn pending(cfg: ConfigView, run: RunView) -> StepView {
    match run {
        RunView::Probing => StepView::Probe { dir: staging_dir_name(cfg.tag) },
        RunView::Creating => StepView::CreateDir { dir: staging_dir_name(cfg.tag) },
        RunView::Fetching => StepView::Fetch {
            url: download_url(cfg.releases_url, cfg.tag),
            file: archive_name(cfg.tag),
            max_size: cfg.archive_max_size,
        },
        RunView::Unpacking => StepView::Unpack {
            archive: archive_name(cfg.tag),
            into: staging_dir_name(cfg.tag),
        },
        RunView::Expanding { pattern } => StepView::Expand { pattern },
        RunView::Copying { plan, cursor, .. } => StepView::Copy {
            source: plan.job[cursor as int].source,
            destination: plan.job[cursor as int].destination,
        },
        RunView::Done { outcome } => StepView::Exit { status: exit_status(outcome) },
    }
}

/// Where `run` stands after each of `events`, in order.
pub open spec fn after(cfg: ConfigView, run: RunView, events: Seq<EventView>) -> RunView
    decreases events.len(),
{
    if events.len() == 0 {
        run
    } else {
        next(cfg, after(cfg, run, events.drop_last()), events.last())
    }
}

enum State {
    Probing,
    Creating,
    Fetching,
    Unpacking,
    Expanding { pattern: String },
    Copying { plan: CopyPlan, cursor: usize, failed: usize },
    Done { outcome: Outcome },
}

impl View for State {
    type V = RunView;

    closed spec fn view(&self) -> RunView {
        match self {
            State::Probing => RunView::Probing,
            State::Creating => RunView::Creating,
            State::Fetching => RunView::Fetching,
            State::Unpacking => RunView::Unpacking,
            State::Expanding { pattern } => RunView::Expanding { pattern: pattern@ },
            State::Copying { plan, cursor, failed } => RunView::Copying {
                plan: plan@,
                cursor: *cursor,
                failed: *failed,
            },
            State::Done { outcome } => RunView::Done { outcome: *outcome },
        }
    }
}

/// One run.
pub struct Run {
    cfg: Config,
    release: ReleaseCoordinate,
    state: State,
}

impl View for Run {
    type V = RunView;

    closed spec fn view(&self) -> RunView {
        self.state@
    }
}

impl Run {
    #[verifier::type_invariant]
    spec fn sound(&self) -> bool {
        &&& self.state@.wf()
        &&& self.release.tag_text() == self.cfg.tag@
        &&& self.release.base_text() == self.cfg.releases_url@
    }

    /// What this run works with, as contracts see it.
    pub closed spec fn config(&self) -> ConfigView {
        self.cfg@
    }

    /// What this run works with.
    pub fn settings(&self) -> (cfg: &Config)
        ensures
            cfg@ == self.config(),
    {
        &self.cfg
    }

    /// Begins a run. With `local`, that pattern says which files to copy and
    /// no release is staged.
    pub fn begin(cfg: Config, local: Option<String>) -> (run: Run)
        ensures
            run.config() == cfg@,
            run@ == initial(local.deep_view()),
            run@.wf(),
    {
        let release = ReleaseCoordinate::new(cfg.releases_url.as_str(), cfg.tag.as_str());
        let state = match local {
            Some(pattern) => State::Expanding { pattern },
            None => State::Probing,
        };
        Run { cfg, release, state }
    }

    /// The step this run waits for.
    pub fn pending(&self) -> (step: Step)
        ensures
            step@ == pending(self.config(), self@),
    {
        proof {
            use_type_invariant(self);
        }
        match &self.state {
            State::Probing => Step::Probe { dir: self.release.staging_dir() },
            State::Creating => Step::CreateDir { dir: self.release.staging_dir() },
            State::Fetching => Step::Fetch {
                url: self.release.url().to_owned(),
                file: self.release.archive().to_owned(),
                max_size: self.cfg.archive_max_size,
            },
            State::Unpacking => Step::Unpack {
                archive: self.release.archive().to_owned(),
                into: self.release.staging_dir(),
            },
            State::Expanding { pattern } => Step::Expand { pattern: pattern.clone() },
            State::Copying { plan, cursor, .. } => {
                let pair = &plan.job[*cursor];
                Step::Copy { source: pair.source.clone(), destination: pair.destination.clone() }
            },
            State::Done { outcome } => Step::Exit { status: outcome.exit_status() },
        }
    }

    /// Takes in what came of the pending step.
    pub fn advance(self, event: Event) -> (run: Run)
        ensures
            run.config() == self.config(),
            run@ == next(self.config(), self@, event@),
            run@.wf(),
    {
        proof {
            use_type_invariant(&self);
        }
        let Run { cfg, release, state } = self;
        let state = match state {
            State::Probing => match event {
                Event::Probed { exists } => if exists {
                    State::Done { outcome: Outcome::Staging(StageError::AlreadyExists) }
                } else {
                    State::Creating
                },
                _ => State::Probing,
            },
            State::Creating => match event {
                Event::DirCreated { ok } => if ok {
                    State::Fetching
                } else {
                    State::Done { outcome: Outcome::Staging(StageError::CreateDir) }
                },
                _ => State::Creating,
            },
            State::Fetching => match event {
                Event::Fetched(Ok(_)) => State::Unpacking,
                Event::Fetched(Err(e)) => State::Done {
                    outcome: Outcome::Staging(StageError::Download(e)),
                },
                _ => State::Fetching,
            },
            State::Unpacking => match event {
                Event::Unpacked { ok } => if ok {
                    State::Expanding { pattern: release.pattern() }
                } else {
                    State::Done { outcome: Outcome::Staging(StageError::Extract) }
                },
                _ => State::Unpacking,
            },
            State::Expanding { pattern } => match event {
                Event::Expanded(matches) => {
                    let plan = plan_copies(
                        &matches,
                        cfg.destination_root.as_str(),
                        cfg.on_missing_name,
                    );
                    if plan.job.len() == 0 {
                        let outcome = if plan.stopped_at.is_some() {
                            Outcome::MissingFileName
                        } else {
                            Outcome::Completed { failed: 0 }
                        };
                        State::Done { outcome }
                    } else {
                        State::Copying { plan, cursor: 0, failed: 0 }
                    }
                },
                _ => State::Expanding { pattern },
            },
            State::Copying { plan, cursor, failed } => match event {
                Event::Copied { ok } => {
                    let total = plan.job.len();
                    let failed = if ok {
                        failed
                    } else {
                        failed + 1
                    };
                    if cursor + 1 < total {
                        State::Copying { plan, cursor: cursor + 1, failed }
                    } else {
                        let outcome = if plan.stopped_at.is_some() {
                            Outcome::MissingFileName
                        } else {
                            Outcome::Completed { failed }
                        };
                        State::Done { outcome }
                    }
                },
                _ => State::Copying { plan, cursor, failed },
            },
            State::Done { outcome } => State::Done { outcome },
        };
        Run { cfg, release, state }
    }

    /// How this run ended, once it is over.
    pub fn outcome(&self) -> (outcome: Option<Outcome>)
        ensures
            outcome == match self@ {
                RunView::Done { outcome } => Some(outcome),
                _ => None,
            },
    {
        match &self.state {
            State::Done { outcome } => Some(*outcome),
            _ => None,
        }
    }

    /// The plan of this run, while it is copying.
    pub fn plan(&self) -> (plan: Option<&CopyPlan>)
        ensures
            match self@ {
                RunView::Copying { plan: p, .. } => plan is Some && plan->Some_0@ == p,
                _ => plan is None,
            },
    {
        match &self.state {
            State::Copying { plan, .. } => Some(plan),
            _ => None,
        }
    }
}

/// The events that report how each of a row of copies went.
pub open spec fn copied(results: Seq<bool>) -> Seq<EventView> {
    Seq::new(results.len(), |i: int| EventView::Copied { ok: results[i] })
}

/// How many of `results` are failures.
pub open spec fn failures(results: Seq<bool>) -> nat
    decreases results.len(),
{
    if results.len() == 0 {
        0
    } else {
        failures(results.drop_last()) + if results.last() {
            0nat
        } else {
            1nat
        }
    }
}

/// Events taken in two rows lead where the same events lead in one.
pub proof fn lemma_after_both(
    cfg: ConfigView,
    run: RunView,
    first: Seq<EventView>,
    second: Seq<EventView>,
)
    ensures
        after(cfg, run, first + second) == after(cfg, after(cfg, run, first), second),
    decreases second.len(),
{
    if second.len() == 0 {
        assert(first + second =~= first);
    } else {
        assert((first + second).drop_last() =~= first + second.drop_last());
        lemma_after_both(cfg, run, first, second.drop_last());
    }
}

/// A run that is over stays as it is, whatever is reported to it.
pub proof fn lemma_done_is_final(cfg: ConfigView, outcome: Outcome, events: Seq<EventView>)
    ensures
        after(cfg, RunView::Done { outcome }, events) == (RunView::Done { outcome }),
    decreases events.len(),
{
    if events.len() > 0 {
        lemma_done_is_final(cfg, outcome, events.drop_last());
    }
}

/// Every event keeps a run well formed, as long as a scan reports no more
/// matches than a vector holds.
pub proof fn lemma_next_keeps_wf(cfg: ConfigView, run: RunView, event: EventView)
    requires
        run.wf(),
        event matches EventView::Expanded(matches) ==> matches.len() <= usize::MAX,
    ensures
        next(cfg, run, event).wf(),
{
    if let EventView::Expanded(matches) = event {
        lemma_plan_accounts(matches, cfg.destination_root, cfg.on_missing_name);
    }
}

/// Where the staging directory already exists, staging fails before anything
/// is created or fetched: the run asks whether the directory is there, then
/// leaves with status 1, and it asks for nothing else whatever it is told.
pub proof fn lemma_existing_staging_ends_the_run(cfg: ConfigView, events: Seq<EventView>)
    requires
        events.len() > 0,
        events[0] == (EventView::Probed { exists: true }),
    ensures
        pending(cfg, initial(None)) == (StepView::Probe { dir: staging_dir_name(cfg.tag) }),
        forall|k: int|
            1 <= k <= events.len() ==> #[trigger] after(cfg, initial(None), events.take(k)) == (
            RunView::Done { outcome: Outcome::Staging(StageError::AlreadyExists) }),
        forall|k: int|
            1 <= k <= events.len() ==> pending(
                cfg,
                #[trigger] after(cfg, initial(None), events.take(k)),
            ) == (StepView::Exit { status: 1 }),
{
    let over = RunView::Done { outcome: Outcome::Staging(StageError::AlreadyExists) };
    assert forall|k: int| 1 <= k <= events.len() implies #[trigger] after(
        cfg,
        initial(None),
        events.take(k),
    ) == over by {
        let first = events.take(1);
        let rest = events.take(k).skip(1);
        assert(events.take(k) =~= first + rest);
        lemma_after_both(cfg, initial(None), first, rest);
        assert(first.drop_last() =~= Seq::<EventView>::empty());
        assert(after(cfg, initial(None), first.drop_last()) == initial(None));
        assert(first.last() == events[0]);
        assert(after(cfg, initial(None), first) == over);
        lemma_done_is_final(cfg, Outcome::Staging(StageError::AlreadyExists), rest);
    }
}

/// Whether `run` has to do with staging: it waits for a step of staging, or
/// it ended because staging failed.
pub open spec fn stages(run: RunView) -> bool {
    match run {
        RunView::Probing | RunView::Creating | RunView::Fetching | RunView::Unpacking => true,
        RunView::Done { outcome: Outcome::Staging(_) } => true,
        _ => false,
    }
}

/// With a local pattern nothing is ever staged: whatever is reported to the
/// run, it asks only to expand a pattern, to copy a file, or to leave.
pub proof fn lemma_local_pattern_never_stages(
    cfg: ConfigView,
    pattern: Seq<char>,
    events: Seq<EventView>,
)
    ensures
        !stages(after(cfg, initial(Some(pattern)), events)),
        ({
            let step = pending(cfg, after(cfg, initial(Some(pattern)), events));
            step is Expand || step is Copy || step is Exit
        }),
        pending(cfg, initial(Some(pattern))) == (StepView::Expand { pattern }),
    decreases events.len(),
{
    if events.len() > 0 {
        lemma_local_pattern_never_stages(cfg, pattern, events.drop_last());
    }
}

/// Where a row of copies stands after the first `k` of them were reported.
proof fn lemma_copies_go_on(cfg: ConfigView, plan: CopyPlanView, results: Seq<bool>, k: int)
    requires
        0 < plan.job.len() <= usize::MAX,
        results.len() == plan.job.len(),
        0 <= k <= results.len(),
    ensures
        after(cfg, copying(plan), copied(results).take(k)) == if k < results.len() {
            RunView::Copying {
                plan,
                cursor: k as usize,
                failed: failures(results.take(k)) as usize,
            }
        } else {
            RunView::Done { outcome: finished(plan, failures(results) as usize) }
        },
        failures(results.take(k)) <= k,
    decreases k,
{
    if k == 0 {
        assert(results.take(0) =~= Seq::<bool>::empty());
    } else {
        lemma_copies_go_on(cfg, plan, results, k - 1);
        assert(copied(results).take(k).drop_last() =~= copied(results).take(k - 1));
        assert(copied(results).take(k).last() == (EventView::Copied { ok: results[k - 1] }));
        assert(results.take(k).drop_last() =~= results.take(k - 1));
        assert(results.take(k).last() == results[k - 1]);
        if k == results.len() {
            assert(results.take(k) =~= results);
        }
    }
}

/// A copy that fails does not stop the run. Whichever of the planned copies
/// fail, the run asks for each of them in turn and then ends; unless
/// planning stopped at a path without a file name, it ends with status 0.
pub proof fn lemma_failed_copies_do_not_stop_the_run(
    cfg: ConfigView,
    pattern: Seq<char>,
    matches: Seq<MatchView>,
    results: Seq<bool>,
)
    requires
        results.len() == planned(matches, cfg.destination_root, cfg.on_missing_name).job.len(),
        results.len() <= usize::MAX,
    ensures
        ({
            let plan = planned(matches, cfg.destination_root, cfg.on_missing_name);
            let events = seq![EventView::Expanded(matches)] + copied(results);
            let end = after(cfg, initial(Some(pattern)), events);
            &&& forall|k: int|
                0 <= k < results.len() ==> pending(
                    cfg,
                    #[trigger] after(cfg, initial(Some(pattern)), events.take(k + 1)),
                ) == (StepView::Copy {
                    source: plan.job[k].source,
                    destination: plan.job[k].destination,
                })
            &&& end == (RunView::Done { outcome: finished(plan, failures(results) as usize) })
            &&& plan.stopped_at is None ==> pending(cfg, end) == (StepView::Exit { status: 0 })
        }),
{
    let plan = planned(matches, cfg.destination_root, cfg.on_missing_name);
    let expanded = seq![EventView::Expanded(matches)];
    let events = expanded + copied(results);
    let start = initial(Some(pattern));
    assert(expanded.drop_last() =~= Seq::<EventView>::empty());
    assert(after(cfg, start, expanded.drop_last()) == start);
    assert(after(cfg, start, expanded) == copying(plan));
    if results.len() == 0 {
        assert(events =~= expanded);
    } else {
        assert forall|k: int| 0 <= k <= results.len() implies #[trigger] after(
            cfg,
            start,
            events.take(k + 1),
        ) == after(cfg, copying(plan), copied(results).take(k)) by {
            assert(events.take(k + 1) =~= expanded + copied(results).take(k));
            lemma_after_both(cfg, start, expanded, copied(results).take(k));
        }
        assert forall|k: int| 0 <= k < results.len() implies pending(
            cfg,
            #[trigger] after(cfg, start, events.take(k + 1)),
        ) == (StepView::Copy {
            source: plan.job[k].source,
            destination: plan.job[k].destination,
        }) by {
            lemma_copies_go_on(cfg, plan, results, k);
        }
        lemma_copies_go_on(cfg, plan, results, results.len() as int);
        assert(events.take(results.len() as int + 1) =~= events);
        assert(copied(results).take(results.len() as int) =~= copied(results));
    }
}

} // verus!
