use folder_organizer::error::{Error, SchemaFailure, ValidationFailure, WorkerFailure};

#[test]
fn duplicate_is_the_same_failure() {
    let failures = vec![
        Error::Environment("e".to_string()),
        Error::PathNotFound("p".to_string()),
        Error::NotADirectory("d".to_string()),
        Error::Io { path: "p".to_string(), detail: "d".to_string() },
        Error::Schema(SchemaFailure::MissingGroup(3)),
        Error::WorkerSpawn("s".to_string()),
        Error::WorkerReported(WorkerFailure::NonZeroExit(2)),
        Error::CompletionLost,
        Error::Validation(ValidationFailure::GroupNameRejected("..".to_string())),
        Error::Validation(ValidationFailure::UnknownOperation("link".to_string())),
    ];
    for failure in &failures {
        assert_eq!(&failure.duplicate(), failure);
    }
}

#[test]
fn kinds_are_told_apart() {
    assert_ne!(Error::PathNotFound("p".to_string()), Error::NotADirectory("p".to_string()));
    assert_ne!(
        Error::Io { path: "p".to_string(), detail: "".to_string() },
        Error::PathNotFound("p".to_string())
    );
    assert_ne!(Error::Schema(SchemaFailure::Syntax), Error::Schema(SchemaFailure::NotAnArray));
    assert_ne!(Error::CompletionLost, Error::WorkerReported(WorkerFailure::NotEnoughFiles));
}
