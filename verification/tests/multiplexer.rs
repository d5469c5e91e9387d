use folder_organizer::error::{Error, WorkerFailure};
use folder_organizer::multiplexer::{
    classify_line, conclude, notification_event, run_outcome, Effect, LineClass, Multiplexer,
    RunOutcome, WorkerEvent,
};

fn out(line: &str) -> WorkerEvent {
    WorkerEvent::StandardOut(line.as_bytes().to_vec())
}

fn err(line: &str) -> WorkerEvent {
    WorkerEvent::StandardError(line.as_bytes().to_vec())
}

fn exit(code: i32) -> WorkerEvent {
    WorkerEvent::Terminated(Some(code))
}

fn not_enough() -> Result<(), Error> {
    Err(Error::WorkerReported(WorkerFailure::NotEnoughFiles))
}

fn nonzero(code: i32) -> Result<(), Error> {
    Err(Error::WorkerReported(WorkerFailure::NonZeroExit(code)))
}

#[test]
fn sentinel_is_matched_exactly() {
    assert_eq!(classify_line(b"Not enough files"), LineClass::Sentinel);
    assert_eq!(classify_line(b"insufficient input count"), LineClass::Sentinel);
    assert_eq!(classify_line(b"Not enough files\n"), LineClass::Other);
    assert_eq!(classify_line(b"not enough files"), LineClass::Other);
    assert_eq!(classify_line(b" Not enough files"), LineClass::Other);
    assert_eq!(classify_line(b"Not enough file"), LineClass::Other);
}

#[test]
fn warnings_are_found_in_any_case() {
    assert_eq!(classify_line(b"FutureWarning: x is deprecated"), LineClass::Warning);
    assert_eq!(classify_line(b"lib.py:3: DeprecationWarning"), LineClass::Warning);
    assert_eq!(classify_line(b"WARNING"), LineClass::Warning);
    assert_eq!(classify_line(b"CustomWarning"), LineClass::Warning);
    assert_eq!(classify_line(b"a wArNiNg b"), LineClass::Warning);
}

#[test]
fn other_lines_are_neither() {
    assert_eq!(classify_line(b""), LineClass::Other);
    assert_eq!(classify_line(b"warn"), LineClass::Other);
    assert_eq!(classify_line(b"warnin"), LineClass::Other);
    assert_eq!(classify_line(b"w a r n i n g"), LineClass::Other);
    assert_eq!(classify_line(b"Traceback (most recent call last):"), LineClass::Other);
    assert_eq!(classify_line(&[0xff, 0xfe, 0x00]), LineClass::Other);
    assert_eq!(classify_line("WARN\u{130}NG".as_bytes()), LineClass::Other);
}

#[test]
fn warning_then_normal_line_ends_in_success() {
    let events = vec![err("CustomWarning"), err("some other normal line"), exit(0)];
    assert_eq!(run_outcome(&events), Ok(()));
}

#[test]
fn sentinel_is_laundered_by_a_later_line() {
    let events = vec![err("insufficient input count"), err("some unrelated stderr text"), exit(0)];
    assert_eq!(run_outcome(&events), Ok(()));
    let events = vec![err("Not enough files"), err("some unrelated stderr text"), exit(0)];
    assert_eq!(run_outcome(&events), Ok(()));
}

#[test]
fn nonzero_exit_overrides_everything() {
    let events = vec![err("insufficient input count"), err("some unrelated stderr text"), exit(1)];
    assert_eq!(run_outcome(&events), nonzero(1));
    let events = vec![err("CustomWarning"), err("some other normal line"), exit(-9)];
    assert_eq!(run_outcome(&events), nonzero(-9));
    assert_eq!(run_outcome(&vec![exit(2)]), nonzero(2));
    assert_eq!(run_outcome(&vec![err("Not enough files"), exit(3)]), nonzero(3));
}

#[test]
fn sentinel_stands_until_termination() {
    assert_eq!(run_outcome(&vec![err("Not enough files"), exit(0)]), not_enough());
    assert_eq!(run_outcome(&vec![err("insufficient input count"), exit(0)]), not_enough());
    assert_eq!(
        run_outcome(&vec![err("fine"), err("Not enough files"), WorkerEvent::Terminated(None)]),
        not_enough()
    );
}

#[test]
fn warning_leaves_the_outcome() {
    let events = vec![err("Not enough files"), err("UserWarning: slow"), out("done"), exit(0)];
    assert_eq!(run_outcome(&events), not_enough());
    let events = vec![err("UserWarning: slow"), exit(0)];
    assert_eq!(run_outcome(&events), Ok(()));
}

#[test]
fn standard_output_never_counts() {
    let events = vec![out("Not enough files"), out("warning"), exit(0)];
    assert_eq!(run_outcome(&events), Ok(()));
    let events = vec![err("Not enough files"), out("all good"), exit(0)];
    assert_eq!(run_outcome(&events), not_enough());
}

#[test]
fn missing_exit_code_leaves_the_outcome() {
    assert_eq!(run_outcome(&vec![WorkerEvent::Terminated(None)]), Ok(()));
    assert_eq!(run_outcome(&vec![exit(0)]), Ok(()));
}

#[test]
fn stream_without_termination_loses_the_completion() {
    assert_eq!(run_outcome(&Vec::new()), Err(Error::CompletionLost));
    assert_eq!(run_outcome(&vec![out("a"), err("b")]), Err(Error::CompletionLost));
    assert_eq!(run_outcome(&vec![err("Not enough files")]), Err(Error::CompletionLost));
}

#[test]
fn nothing_counts_after_termination() {
    let events = vec![exit(0), err("Not enough files"), exit(5)];
    assert_eq!(run_outcome(&events), Ok(()));
    let events = vec![exit(4), err("fine"), exit(0)];
    assert_eq!(run_outcome(&events), nonzero(4));
}

#[test]
fn each_event_has_its_effect() {
    let mut state = Multiplexer::new();
    assert_eq!(state, Multiplexer { outcome: RunOutcome::Success, finished: false });
    assert_eq!(state.observe(&out("hello")), Effect::Forward);
    assert_eq!(state.observe(&err("plain")), Effect::Report);
    assert_eq!(state.observe(&err("RuntimeWarning")), Effect::Warn);
    assert_eq!(state.outcome, RunOutcome::Success);
    assert_eq!(state.observe(&err("Not enough files")), Effect::Notify);
    assert_eq!(state.outcome, RunOutcome::Failed(WorkerFailure::NotEnoughFiles));
    assert_eq!(state.observe(&err("RuntimeWarning")), Effect::Warn);
    assert_eq!(state.outcome, RunOutcome::Failed(WorkerFailure::NotEnoughFiles));
    assert!(!state.finished);
    assert_eq!(
        state.observe(&exit(0)),
        Effect::Deliver(RunOutcome::Failed(WorkerFailure::NotEnoughFiles))
    );
    assert!(state.finished);
    assert_eq!(state.observe(&err("plain")), Effect::Ignore);
    assert_eq!(state.observe(&exit(7)), Effect::Ignore);
    assert_eq!(state.outcome, RunOutcome::Failed(WorkerFailure::NotEnoughFiles));
}

#[test]
fn outcome_is_delivered_once() {
    let events = vec![out("a"), exit(0), exit(1), exit(2)];
    let mut state = Multiplexer::new();
    let mut deliveries = 0;
    for event in &events {
        if let Effect::Deliver(_) = state.observe(event) {
            deliveries += 1;
        }
    }
    assert_eq!(deliveries, 1);
}

#[test]
fn delivery_becomes_the_result() {
    assert_eq!(conclude(Some(RunOutcome::Success)), Ok(()));
    assert_eq!(
        conclude(Some(RunOutcome::Failed(WorkerFailure::NonZeroExit(3)))),
        nonzero(3)
    );
    assert_eq!(conclude(Some(RunOutcome::Failed(WorkerFailure::NotEnoughFiles))), not_enough());
    assert_eq!(conclude(None), Err(Error::CompletionLost));
}

#[test]
fn notification_has_its_name() {
    assert_eq!(notification_event(), "organization_progress");
}
