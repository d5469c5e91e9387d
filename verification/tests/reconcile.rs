use folder_organizer::error::{Error, SchemaFailure, ValidationFailure};
use folder_organizer::manifest::{parse_manifest, Group, ManifestEntry, ReadOutcome};
use folder_organizer::reconcile::{
    group_folder_name, organize_files_from_json, parse_operation, Operation, Reconciler, Reply,
    Request, Warning,
};
use std::collections::BTreeSet;

/// A file system in memory: the paths of the files, the folders that were made, and the
/// paths at which a transfer is made to fail.
struct Disk {
    files: BTreeSet<String>,
    folders: Vec<String>,
    transfers: Vec<(Operation, String, String)>,
    broken: BTreeSet<String>,
}

impl Disk {
    fn with(files: &[&str]) -> Disk {
        Disk {
            files: files.iter().map(|f| f.to_string()).collect(),
            folders: Vec::new(),
            transfers: Vec::new(),
            broken: BTreeSet::new(),
        }
    }

    fn has(&self, path: &str) -> bool {
        self.files.contains(path)
    }

    fn perform(&mut self, request: &Request) -> Reply {
        match request {
            Request::EnsureFolder(folder) => {
                if self.broken.contains(folder) {
                    Reply::Failed("cannot create".to_string())
                } else {
                    self.folders.push(folder.clone());
                    Reply::Done
                }
            }
            Request::ProbeSource(path) | Request::ProbeDestination(path) => {
                if self.files.contains(path) {
                    Reply::Present
                } else {
                    Reply::Absent
                }
            }
            Request::Transfer { operation, source, destination } => {
                if self.broken.contains(source) {
                    return Reply::Failed("cannot write".to_string());
                }
                if *operation == Operation::Move {
                    self.files.remove(source);
                }
                self.files.insert(destination.clone());
                self.transfers.push((*operation, source.clone(), destination.clone()));
                Reply::Done
            }
            Request::Finish(_) => unreachable!(),
        }
    }
}

fn labelled(path: &str, label: i32) -> ManifestEntry {
    ManifestEntry { source_path: path.to_string(), group: Group::Label(label) }
}

fn named(path: &str, name: &str) -> ManifestEntry {
    ManifestEntry { source_path: path.to_string(), group: Group::Name(name.to_string()) }
}

fn relocate(
    disk: &mut Disk,
    root: &str,
    operation: Operation,
    entries: Vec<ManifestEntry>,
) -> (Result<(), Error>, Vec<Warning>) {
    let (mut batch, mut request) = Reconciler::new(root.to_string(), operation, entries);
    let mut steps = 0;
    loop {
        if let Request::Finish(result) = request {
            assert!(batch.is_finished());
            return (result, batch.warnings().clone());
        }
        assert!(!batch.is_finished());
        let reply = disk.perform(&request);
        request = batch.step(reply);
        steps += 1;
        assert!(steps < 100_000);
    }
}

#[test]
fn labelled_file_is_moved() {
    let entries = parse_manifest(r#"[{"source_path":"/tmp/a.pdf","group_label":3}]"#).unwrap();
    let mut disk = Disk::with(&["/tmp/a.pdf"]);
    let (result, warnings) = relocate(&mut disk, "/out", Operation::Move, entries);
    assert_eq!(result, Ok(()));
    assert!(warnings.is_empty());
    assert!(disk.has("/out/label_3/a.pdf"));
    assert!(!disk.has("/tmp/a.pdf"));
    assert_eq!(disk.folders, vec!["/out".to_string(), "/out/label_3".to_string()]);
    assert_eq!(disk.files.len(), 1);
}

#[test]
fn copy_leaves_the_source() {
    let mut disk = Disk::with(&["/tmp/a.pdf"]);
    let (result, _) =
        relocate(&mut disk, "/out", Operation::Copy, vec![named("/tmp/a.pdf", "Docs")]);
    assert_eq!(result, Ok(()));
    assert!(disk.has("/out/Docs/a.pdf"));
    assert!(disk.has("/tmp/a.pdf"));
    assert_eq!(
        disk.transfers,
        vec![(Operation::Copy, "/tmp/a.pdf".to_string(), "/out/Docs/a.pdf".to_string())]
    );
}

#[test]
fn every_entry_gets_its_file() {
    let entries = vec![
        labelled("/in/a.pdf", 0),
        named("/in/b.png", "Pictures"),
        labelled("/in/sub/c.txt", 0),
        named("/in/d", "../up"),
        labelled("/in/e.jpg", -4),
    ];
    let mut disk = Disk::with(&["/in/a.pdf", "/in/b.png", "/in/sub/c.txt", "/in/d", "/in/e.jpg"]);
    let (result, warnings) = relocate(&mut disk, "/out", Operation::Move, entries);
    assert_eq!(result, Ok(()));
    assert!(warnings.is_empty());
    let expected: BTreeSet<String> = [
        "/out/label_0/a.pdf",
        "/out/Pictures/b.png",
        "/out/label_0/c.txt",
        "/out/__up/d",
        "/out/label_-4/e.jpg",
    ]
    .iter()
    .map(|f| f.to_string())
    .collect();
    assert_eq!(disk.files, expected);
    assert_eq!(disk.transfers.len(), 5);
}

#[test]
fn second_file_of_a_name_is_numbered() {
    let entries = vec![labelled("/x/a.pdf", 1), labelled("/y/a.pdf", 1), labelled("/z/a.pdf", 1)];
    let mut disk = Disk::with(&["/x/a.pdf", "/y/a.pdf", "/z/a.pdf"]);
    let (result, warnings) = relocate(&mut disk, "/out", Operation::Copy, entries);
    assert_eq!(result, Ok(()));
    assert!(disk.has("/out/label_1/a.pdf"));
    assert!(disk.has("/out/label_1/a_1.pdf"));
    assert!(disk.has("/out/label_1/a_2.pdf"));
    assert!(disk.has("/x/a.pdf") && disk.has("/y/a.pdf") && disk.has("/z/a.pdf"));
    assert_eq!(disk.files.len(), 6);
    assert_eq!(
        warnings,
        vec![
            Warning::DestinationTaken {
                preferred: "/out/label_1/a.pdf".to_string(),
                used: "/out/label_1/a_1.pdf".to_string(),
            },
            Warning::DestinationTaken {
                preferred: "/out/label_1/a.pdf".to_string(),
                used: "/out/label_1/a_2.pdf".to_string(),
            },
        ]
    );
}

#[test]
fn moved_files_of_a_name_stay_distinct() {
    let entries = vec![named("/x/r.txt", "G"), named("/y/r.txt", "G")];
    let mut disk = Disk::with(&["/x/r.txt", "/y/r.txt"]);
    let (result, _) = relocate(&mut disk, "/out/", Operation::Move, entries);
    assert_eq!(result, Ok(()));
    let expected: BTreeSet<String> =
        ["/out/G/r.txt", "/out/G/r_1.txt"].iter().map(|f| f.to_string()).collect();
    assert_eq!(disk.files, expected);
}

#[test]
fn existing_destination_is_not_overwritten() {
    let mut disk = Disk::with(&["/in/a", "/out/label_2/a", "/out/label_2/a_1", "/out/label_2/a_3"]);
    let (result, warnings) =
        relocate(&mut disk, "/out", Operation::Move, vec![labelled("/in/a", 2)]);
    assert_eq!(result, Ok(()));
    assert!(disk.has("/out/label_2/a_2"));
    assert_eq!(disk.files.len(), 4);
    assert_eq!(
        disk.transfers,
        vec![(Operation::Move, "/in/a".to_string(), "/out/label_2/a_2".to_string())]
    );
    assert_eq!(warnings.len(), 1);
}

#[test]
fn missing_source_is_skipped() {
    let entries = vec![labelled("/in/gone.pdf", 1), labelled("/in/here.pdf", 1)];
    let mut disk = Disk::with(&["/in/here.pdf"]);
    let (result, warnings) = relocate(&mut disk, "/out", Operation::Move, entries);
    assert_eq!(result, Ok(()));
    assert_eq!(warnings, vec![Warning::SourceMissing("/in/gone.pdf".to_string())]);
    assert!(!disk.has("/out/label_1/gone.pdf"));
    assert!(disk.has("/out/label_1/here.pdf"));
    assert_eq!(disk.files.len(), 1);
    assert_eq!(disk.transfers.len(), 1);
}

#[test]
fn source_without_a_file_name_is_skipped() {
    let entries = vec![labelled("/in/..", 1), labelled("/in/a", 1)];
    let mut disk = Disk::with(&["/in/..", "/in/a"]);
    let (result, warnings) = relocate(&mut disk, "/out", Operation::Copy, entries);
    assert_eq!(result, Ok(()));
    assert_eq!(warnings, vec![Warning::NoFileName("/in/..".to_string())]);
    assert!(disk.has("/out/label_1/a"));
    assert_eq!(disk.transfers.len(), 1);
}

#[test]
fn empty_manifest_only_makes_the_root() {
    let mut disk = Disk::with(&[]);
    let (result, warnings) = relocate(&mut disk, "/out", Operation::Move, Vec::new());
    assert_eq!(result, Ok(()));
    assert!(warnings.is_empty());
    assert_eq!(disk.folders, vec!["/out".to_string()]);
    assert!(disk.transfers.is_empty());
}

#[test]
fn refused_group_name_ends_the_batch() {
    let entries = vec![named("/in/a", "A"), named("/in/b", "../.."), named("/in/c", "C")];
    let mut disk = Disk::with(&["/in/a", "/in/b", "/in/c"]);
    let (result, _) = relocate(&mut disk, "/out", Operation::Move, entries);
    assert_eq!(
        result,
        Err(Error::Validation(ValidationFailure::GroupNameRejected("../..".to_string())))
    );
    assert!(disk.has("/out/A/a"));
    assert!(disk.has("/in/b"));
    assert!(disk.has("/in/c"));
    assert_eq!(disk.transfers.len(), 1);
}

#[test]
fn failed_transfer_ends_the_batch() {
    let entries = vec![labelled("/in/a", 1), labelled("/in/b", 1), labelled("/in/c", 1)];
    let mut disk = Disk::with(&["/in/a", "/in/b", "/in/c"]);
    disk.broken.insert("/in/b".to_string());
    let (result, _) = relocate(&mut disk, "/out", Operation::Move, entries);
    assert_eq!(
        result,
        Err(Error::Io { path: "/in/b".to_string(), detail: "cannot write".to_string() })
    );
    assert!(disk.has("/out/label_1/a"));
    assert!(disk.has("/in/b"));
    assert!(disk.has("/in/c"));
}

#[test]
fn failed_folder_ends_the_batch() {
    let mut disk = Disk::with(&["/in/a"]);
    disk.broken.insert("/out/label_1".to_string());
    let (result, _) = relocate(&mut disk, "/out", Operation::Move, vec![labelled("/in/a", 1)]);
    assert_eq!(
        result,
        Err(Error::Io { path: "/out/label_1".to_string(), detail: "cannot create".to_string() })
    );
    assert!(disk.has("/in/a"));
}

#[test]
fn failed_root_ends_the_batch() {
    let mut disk = Disk::with(&["/in/a"]);
    disk.broken.insert("/out".to_string());
    let (result, _) = relocate(&mut disk, "/out", Operation::Copy, vec![labelled("/in/a", 1)]);
    assert_eq!(
        result,
        Err(Error::Io { path: "/out".to_string(), detail: "cannot create".to_string() })
    );
    assert!(disk.transfers.is_empty());
}

#[test]
fn ceiling_falls_back_to_the_taken_destination() {
    let mut disk = Disk::with(&["/in/a.pdf", "/out/label_1/a.pdf"]);
    for n in 1..1000 {
        disk.files.insert(format!("/out/label_1/a_{}.pdf", n));
    }
    let (result, warnings) =
        relocate(&mut disk, "/out", Operation::Move, vec![labelled("/in/a.pdf", 1)]);
    assert_eq!(result, Ok(()));
    assert_eq!(
        disk.transfers,
        vec![(Operation::Move, "/in/a.pdf".to_string(), "/out/label_1/a.pdf".to_string())]
    );
    assert_eq!(
        warnings,
        vec![Warning::DestinationTaken {
            preferred: "/out/label_1/a.pdf".to_string(),
            used: "/out/label_1/a.pdf".to_string(),
        }]
    );
}

#[test]
fn last_number_below_the_ceiling_is_used() {
    let mut disk = Disk::with(&["/in/a.pdf", "/out/label_1/a.pdf"]);
    for n in 1..999 {
        disk.files.insert(format!("/out/label_1/a_{}.pdf", n));
    }
    let (result, _) = relocate(&mut disk, "/out", Operation::Copy, vec![labelled("/in/a.pdf", 1)]);
    assert_eq!(result, Ok(()));
    assert!(disk.has("/out/label_1/a_999.pdf"));
}

#[test]
fn requests_come_in_order() {
    let (mut batch, first) =
        Reconciler::new("/out".to_string(), Operation::Move, vec![labelled("/in/a.txt", 5)]);
    assert_eq!(first, Request::EnsureFolder("/out".to_string()));
    assert_eq!(batch.step(Reply::Done), Request::EnsureFolder("/out/label_5".to_string()));
    assert_eq!(batch.step(Reply::Done), Request::ProbeSource("/in/a.txt".to_string()));
    assert_eq!(
        batch.step(Reply::Present),
        Request::ProbeDestination("/out/label_5/a.txt".to_string())
    );
    assert_eq!(
        batch.step(Reply::Present),
        Request::ProbeDestination("/out/label_5/a_1.txt".to_string())
    );
    assert_eq!(
        batch.step(Reply::Absent),
        Request::Transfer {
            operation: Operation::Move,
            source: "/in/a.txt".to_string(),
            destination: "/out/label_5/a_1.txt".to_string(),
        }
    );
    assert_eq!(batch.step(Reply::Done), Request::Finish(Ok(())));
    assert!(batch.is_finished());
}

#[test]
fn reply_that_does_not_fit_repeats_the_request() {
    let (mut batch, first) =
        Reconciler::new("/out".to_string(), Operation::Copy, vec![labelled("/in/a.txt", 5)]);
    assert_eq!(batch.step(Reply::Present), first);
    assert_eq!(batch.step(Reply::Absent), first);
    let folder = batch.step(Reply::Done);
    assert_eq!(batch.step(Reply::Absent), folder);
    let probe = batch.step(Reply::Done);
    assert_eq!(batch.step(Reply::Done), probe);
    assert_eq!(batch.step(Reply::Failed("x".to_string())), probe);
    let destination = batch.step(Reply::Present);
    assert_eq!(batch.step(Reply::Done), destination);
    let transfer = batch.step(Reply::Absent);
    assert_eq!(batch.step(Reply::Present), transfer);
    assert_eq!(batch.step(Reply::Done), Request::Finish(Ok(())));
}

#[test]
fn finished_batch_stays_finished() {
    let (mut batch, _) = Reconciler::new("/out".to_string(), Operation::Copy, Vec::new());
    let failure = Error::Io { path: "/out".to_string(), detail: "full".to_string() };
    assert_eq!(
        batch.step(Reply::Failed("full".to_string())),
        Request::Finish(Err(failure.clone()))
    );
    assert_eq!(batch.step(Reply::Done), Request::Finish(Err(failure.clone())));
    assert_eq!(batch.step(Reply::Present), Request::Finish(Err(failure)));
    assert!(batch.is_finished());
}

#[test]
fn operation_is_named_in_lower_case() {
    assert_eq!(parse_operation("move"), Ok(Operation::Move));
    assert_eq!(parse_operation("copy"), Ok(Operation::Copy));
}

#[test]
fn other_operations_are_refused() {
    for text in ["Move", "COPY", "", "link", "move "] {
        assert_eq!(
            parse_operation(text),
            Err(Error::Validation(ValidationFailure::UnknownOperation(text.to_string())))
        );
    }
}

#[test]
fn group_folders_are_named() {
    assert_eq!(group_folder_name(&Group::Label(3)), Ok("label_3".to_string()));
    assert_eq!(group_folder_name(&Group::Label(0)), Ok("label_0".to_string()));
    assert_eq!(group_folder_name(&Group::Label(-1)), Ok("label_-1".to_string()));
    assert_eq!(group_folder_name(&Group::Label(i32::MIN)), Ok("label_-2147483648".to_string()));
    assert_eq!(group_folder_name(&Group::Name("a/b".to_string())), Ok("a_b".to_string()));
    assert_eq!(
        group_folder_name(&Group::Name("".to_string())),
        Err(Error::Validation(ValidationFailure::GroupNameRejected("".to_string())))
    );
}

#[test]
fn batch_begins_from_the_manifest_file() {
    let text = r#"[{"source_path":"/tmp/a.pdf","group_label":3}]"#.to_string();
    let (mut batch, mut request) =
        organize_files_from_json("/out".to_string(), "move", "/d/m.json", ReadOutcome::Text(text))
            .unwrap();
    let mut disk = Disk::with(&["/tmp/a.pdf"]);
    loop {
        if let Request::Finish(result) = request {
            assert_eq!(result, Ok(()));
            break;
        }
        let reply = disk.perform(&request);
        request = batch.step(reply);
    }
    assert!(disk.has("/out/label_3/a.pdf"));
    assert!(!disk.has("/tmp/a.pdf"));
}

#[test]
fn batch_does_not_begin_without_operation_or_manifest() {
    let begin = |operation: &str, read: ReadOutcome| {
        organize_files_from_json("/out".to_string(), operation, "/d/m.json", read).err()
    };
    assert_eq!(
        begin("rename", ReadOutcome::Missing),
        Some(Error::Validation(ValidationFailure::UnknownOperation("rename".to_string())))
    );
    assert_eq!(
        begin("copy", ReadOutcome::Missing),
        Some(Error::PathNotFound("/d/m.json".to_string()))
    );
    assert_eq!(
        begin("copy", ReadOutcome::Failed("busy".to_string())),
        Some(Error::Io { path: "/d/m.json".to_string(), detail: "busy".to_string() })
    );
    assert_eq!(
        begin("move", ReadOutcome::Text("{".to_string())),
        Some(Error::Schema(SchemaFailure::Syntax))
    );
    assert_eq!(
        begin("move", ReadOutcome::Text(r#"[{"source_path":"a"}]"#.to_string())),
        Some(Error::Schema(SchemaFailure::MissingGroup(0)))
    );
}
