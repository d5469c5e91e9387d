//! The single-instance guard around the worker: at most one run is in flight, and a request
//! that arrives meanwhile succeeds without starting another.
//!
//! The supervisor is an explicit value that its owner keeps behind a lock. A request is
//! answered in one step, so the lock is held for that step alone.
use crate::error::{Error, ErrorView, outcome_view};
use crate::manifest::{expected_path, root_view};
use crate::multiplexer::{RunOutcome, conclude, concluded};
use crate::path::joined;
use vstd::prelude::*;

verus! {

/// What the worker is started with.
#[derive(Clone, Debug, PartialEq, Eq)]
pub struct WorkerArgs {
    /// The folder whose files the worker groups.
    pub target_folder: String,
    /// Where the worker writes the manifest.
    pub manifest_path: String,
    /// Whether the worker treats each top-level folder as one unit, where it is told at all.
    pub toplevel_folders_as_one: Option<bool>,
}

/// The mathematical value of [`WorkerArgs`].
pub struct WorkerArgsView {
    pub target_folder: Seq<char>,
    pub manifest_path: Seq<char>,
    pub toplevel_folders_as_one: Option<bool>,
}

impl View for WorkerArgs {
    type V = WorkerArgsView;

    open spec fn view(&self) -> WorkerArgsView {
        WorkerArgsView {
            target_folder: self.target_folder@,
            manifest_path: self.manifest_path@,
            toplevel_folders_as_one: self.toplevel_folders_as_one,
        }
    }
}

/// The answer to a request to run the worker.
#[derive(Clone, Debug, PartialEq, Eq)]
pub enum RunDecision {
    /// A run is in flight: the request succeeds at once and nothing is started.
    AlreadyRunning,
    /// Start the worker with these positional arguments.
    Spawn(Vec<String>),
}

/// The mathematical value of a [`RunDecision`].
pub enum RunDecisionView {
    AlreadyRunning,
    Spawn(Seq<Seq<char>>),
}

/// The texts that `strings` holds, in order.
pub open spec fn texts(strings: Seq<String>) -> Seq<Seq<char>> {
    strings.map_values(|s: String| s@)
}

impl View for RunDecision {
    type V = RunDecisionView;

    open spec fn view(&self) -> RunDecisionView {
        match *self {
            RunDecision::AlreadyRunning => RunDecisionView::AlreadyRunning,
            RunDecision::Spawn(arguments) => RunDecisionView::Spawn(texts(arguments@)),
        }
    }
}

/// The guard: whether a worker is running.
#[derive(Clone, Copy, Debug, PartialEq, Eq)]
pub struct Supervisor {
    /// Whether a run is in flight.
    pub running: bool,
}

/// How a boolean flag is written on the worker's command line.
pub open spec fn flag_text(flag: bool) -> Seq<char> {
    if flag {
        "true"@
    } else {
        "false"@
    }
}

/// The positional arguments of the worker: the target folder, the manifest path, and the
/// flag where there is one.
pub open spec fn arguments_of(args: WorkerArgsView) -> Seq<Seq<char>> {
    match args.toplevel_folders_as_one {
        Some(flag) => seq![args.target_folder, args.manifest_path, flag_text(flag)],
        None => seq![args.target_folder, args.manifest_path],
    }
}

/// The guard after a request to run the worker with `args`, and the answer to the request.
pub open spec fn requested(state: Supervisor, args: WorkerArgsView) -> (
    Supervisor,
    RunDecisionView,
) {
    if state.running {
        (state, RunDecisionView::AlreadyRunning)
    } else {
        (Supervisor { running: true }, RunDecisionView::Spawn(arguments_of(args)))
    }
}

/// The guard once the run in flight is over, however it ended.
pub open spec fn cleared(state: Supervisor) -> Supervisor {
    Supervisor { running: false }
}

/// The name of the worker's program.
pub fn worker_program() -> (name: &'static str)
    ensures
        name@ == "Organize_Folder"@,
{
    "Organize_Folder"
}

/// The positional arguments of the worker, in the order in which it takes them.
pub fn worker_arguments(args: &WorkerArgs) -> (arguments: Vec<String>)
    ensures
        texts(arguments@) == arguments_of(args@),
{
    let mut arguments: Vec<String> = Vec::new();
    arguments.push(args.target_folder.clone());
    arguments.push(args.manifest_path.clone());
    match args.toplevel_folders_as_one {
        Some(flag) => {
            arguments.push(
                if flag {
                    "true".to_owned()
                } else {
                    "false".to_owned()
                },
            );
        },
        None => {},
    }
    arguments
}

impl Supervisor {
    /// A guard under which nothing runs.
    pub fn new() -> (state: Supervisor)
        ensures
            state == (Supervisor { running: false }),
    {
        Supervisor { running: false }
    }

    /// Answers a request to run the worker: while a run is in flight the request succeeds
    /// without a second start and the guard stays as it is; otherwise the guard is taken and
    /// the worker is to be started.
    pub fn request_run(&mut self, args: &WorkerArgs) -> (decision: RunDecision)
        ensures
            (*final(self), decision@) == requested(*old(self), args@),
    {
        if self.running {
            RunDecision::AlreadyRunning
        } else {
            self.running = true;
            RunDecision::Spawn(worker_arguments(args))
        }
    }

    /// Records that the worker could not be started: the guard is free again, and the
    /// failure is what the caller reports.
    pub fn spawn_failed(&mut self, detail: String) -> (error: Error)
        ensures
            *final(self) == cleared(*old(self)),
            error@ == ErrorView::WorkerSpawn(detail@),
    {
        self.running = false;
        Error::WorkerSpawn(detail)
    }

    /// Records that the run is over, with the outcome that was delivered if one was: the
    /// guard is free again, and the result is what the caller of the run is told.
    pub fn run_ended(&mut self, delivery: Option<RunOutcome>) -> (result: Result<(), Error>)
        ensures
            *final(self) == cleared(*old(self)),
            outcome_view(result) == concluded(delivery),
    {
        self.running = false;
        conclude(delivery)
    }
}

/// While a run is in flight, every further request is answered without a second start, and
/// leaves the guard as it is: a request that follows a request finds the worker running.
pub proof fn lemma_request_in_flight_is_deduplicated(
    state: Supervisor,
    first: WorkerArgsView,
    second: WorkerArgsView,
)
    ensures
        requested(state, first).0.running,
        requested(requested(state, first).0, second) == (
            requested(state, first).0,
            RunDecisionView::AlreadyRunning,
        ),
{
}

/// Once a run is over, the next request starts the worker again.
pub proof fn lemma_request_after_end_spawns(state: Supervisor, args: WorkerArgsView)
    ensures
        requested(cleared(state), args) == (
            Supervisor { running: true },
            RunDecisionView::Spawn(arguments_of(args)),
        ),
{
}

/// The guard after a request to group the files of `folder_path`, and the answer to the
/// request. While a run is in flight the request succeeds at once. Otherwise the manifest is
/// located under the application-data directory: where the host could not name that
/// directory the request fails and the guard stays free, and where it could the guard is
/// taken and the worker is to be started.
pub open spec fn run_requested(
    state: Supervisor,
    folder_path: Seq<char>,
    toplevel_folders_as_one: bool,
    app_data_root: Result<Seq<char>, Seq<char>>,
) -> (Supervisor, Result<RunDecisionView, ErrorView>) {
    if state.running {
        (state, Ok(RunDecisionView::AlreadyRunning))
    } else {
        match app_data_root {
            Err(detail) => (state, Err(ErrorView::Environment(detail))),
            Ok(root) => {
                let args = WorkerArgsView {
                    target_folder: folder_path,
                    manifest_path: joined(root, "Organization_Structure.json"@),
                    toplevel_folders_as_one: Some(toplevel_folders_as_one),
                };
                (requested(state, args).0, Ok(requested(state, args).1))
            },
        }
    }
}

/// The mathematical value of the answer to a request to group a folder.
pub open spec fn decision_view(answer: Result<RunDecision, Error>) -> Result<
    RunDecisionView,
    ErrorView,
> {
    match answer {
        Ok(decision) => Ok(decision@),
        Err(failure) => Err(failure@),
    }
}

/// Answers a request to group the files of `folder_path`, given the application-data
/// directory as the host resolved it or the reason for which it could not.
pub fn run_organize_model(
    supervisor: &mut Supervisor,
    folder_path: String,
    treat_toplevel_folders_as_one: bool,
    app_data_root: Result<String, String>,
) -> (answer: Result<RunDecision, Error>)
    ensures
        (*final(supervisor), decision_view(answer)) == run_requested(
            *old(supervisor),
            folder_path@,
            treat_toplevel_folders_as_one,
            root_view(app_data_root),
        ),
{
    if supervisor.running {
        return Ok(RunDecision::AlreadyRunning);
    }
    match app_data_root {
        Err(detail) => Err(Error::Environment(detail)),
        Ok(root) => {
            let args = WorkerArgs {
                target_folder: folder_path,
                manifest_path: expected_path(root.as_str()),
                toplevel_folders_as_one: Some(treat_toplevel_folders_as_one),
            };
            Ok(supervisor.request_run(&args))
        },
    }
}

/// A request to group a folder that arrives while a run is in flight succeeds without a
/// second start, whatever it asks for and whatever the host says, and leaves the guard as it
/// is.
pub proof fn lemma_run_in_flight_is_deduplicated(
    state: Supervisor,
    folder_path: Seq<char>,
    toplevel_folders_as_one: bool,
    app_data_root: Result<Seq<char>, Seq<char>>,
)
    requires
        state.running,
    ensures
        run_requested(state, folder_path, toplevel_folders_as_one, app_data_root) == (
            state,
            Ok::<RunDecisionView, ErrorView>(RunDecisionView::AlreadyRunning),
        ),
{
}

} // verus!
