use folder_organizer::error::{Error, WorkerFailure};
use folder_organizer::multiplexer::RunOutcome;
use folder_organizer::supervisor::{
    run_organize_model, worker_arguments, worker_program, RunDecision, Supervisor, WorkerArgs,
};

fn args(folder: &str, flag: Option<bool>) -> WorkerArgs {
    WorkerArgs {
        target_folder: folder.to_string(),
        manifest_path: "/data/Organization_Structure.json".to_string(),
        toplevel_folders_as_one: flag,
    }
}

fn strings(texts: &[&str]) -> Vec<String> {
    texts.iter().map(|t| t.to_string()).collect()
}

#[test]
fn arguments_come_in_order() {
    assert_eq!(
        worker_arguments(&args("/in", Some(true))),
        strings(&["/in", "/data/Organization_Structure.json", "true"])
    );
    assert_eq!(
        worker_arguments(&args("/in", Some(false))),
        strings(&["/in", "/data/Organization_Structure.json", "false"])
    );
    assert_eq!(
        worker_arguments(&args("/in", None)),
        strings(&["/in", "/data/Organization_Structure.json"])
    );
}

#[test]
fn worker_has_its_name() {
    assert_eq!(worker_program(), "Organize_Folder");
}

#[test]
fn first_request_spawns() {
    let mut guard = Supervisor::new();
    assert!(!guard.running);
    let decision = guard.request_run(&args("/in", Some(true)));
    assert_eq!(
        decision,
        RunDecision::Spawn(strings(&["/in", "/data/Organization_Structure.json", "true"]))
    );
    assert!(guard.running);
}

#[test]
fn request_in_flight_is_deduplicated() {
    let mut guard = Supervisor::new();
    guard.request_run(&args("/in", Some(true)));
    assert_eq!(guard.request_run(&args("/other", None)), RunDecision::AlreadyRunning);
    assert_eq!(guard.request_run(&args("/in", Some(true))), RunDecision::AlreadyRunning);
    assert!(guard.running);
}

#[test]
fn guard_is_free_after_the_run() {
    let mut guard = Supervisor::new();
    guard.request_run(&args("/in", None));
    assert_eq!(guard.run_ended(Some(RunOutcome::Success)), Ok(()));
    assert!(!guard.running);
    assert_eq!(
        guard.request_run(&args("/again", None)),
        RunDecision::Spawn(strings(&["/again", "/data/Organization_Structure.json"]))
    );
}

#[test]
fn end_of_run_reports_the_outcome() {
    let mut guard = Supervisor { running: true };
    assert_eq!(
        guard.run_ended(Some(RunOutcome::Failed(WorkerFailure::NonZeroExit(2)))),
        Err(Error::WorkerReported(WorkerFailure::NonZeroExit(2)))
    );
    assert!(!guard.running);
    let mut guard = Supervisor { running: true };
    assert_eq!(guard.run_ended(None), Err(Error::CompletionLost));
    assert!(!guard.running);
}

#[test]
fn failed_spawn_frees_the_guard() {
    let mut guard = Supervisor::new();
    guard.request_run(&args("/in", None));
    assert_eq!(
        guard.spawn_failed("no such program".to_string()),
        Error::WorkerSpawn("no such program".to_string())
    );
    assert!(!guard.running);
}

#[test]
fn run_is_answered_with_the_arguments() {
    let mut guard = Supervisor::new();
    let answer = run_organize_model(&mut guard, "/in".to_string(), true, Ok("/data".to_string()));
    assert_eq!(
        answer,
        Ok(RunDecision::Spawn(strings(&["/in", "/data/Organization_Structure.json", "true"])))
    );
    assert!(guard.running);
}

#[test]
fn second_run_succeeds_without_spawning() {
    let mut guard = Supervisor::new();
    run_organize_model(&mut guard, "/in".to_string(), false, Ok("/data".to_string())).unwrap();
    let answer = run_organize_model(&mut guard, "/in".to_string(), false, Ok("/data".to_string()));
    assert_eq!(answer, Ok(RunDecision::AlreadyRunning));
    let answer = run_organize_model(&mut guard, "/x".to_string(), true, Err("gone".to_string()));
    assert_eq!(answer, Ok(RunDecision::AlreadyRunning));
    assert!(guard.running);
}

#[test]
fn unresolved_data_directory_stops_the_run() {
    let mut guard = Supervisor::new();
    let answer = run_organize_model(&mut guard, "/in".to_string(), true, Err("gone".to_string()));
    assert_eq!(answer, Err(Error::Environment("gone".to_string())));
    assert!(!guard.running);
}
