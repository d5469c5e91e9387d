//! Relocating the files of a manifest into one folder for each group.
//!
//! The reconciler never touches a file system. It issues one request at a time, and the
//! caller performs it and hands back what happened. Entries are taken in manifest order:
//! the group's folder is made sure of, the source is probed, the destination is probed and,
//! while it is taken, numbered alternatives are probed up to a ceiling, and then the file is
//! moved or copied. An entry whose source is not there is skipped with a warning. A group
//! name that is refused, or a request that failed, ends the batch; what was relocated before
//! stays where it is.
use crate::error::{Error, ErrorView, ValidationFailure, ValidationFailureView};
use crate::error::{outcome_view, text_outcome_view};
use crate::manifest::{EntryView, Group, GroupView, ManifestEntry, entry_views};
use crate::manifest::{ReadOutcome, ReadOutcomeView, manifest_from_read, manifest_read};
use crate::path::{ATTEMPT_CEILING, base_name, file_name, join, joined, numbered, numbered_path};
use crate::sanitize::{only_underscores, sanitize_filename, sanitized};
use crate::text::{chars_of, push_signed_decimal, signed_decimal, string_of};
use vstd::prelude::*;

verus! {

/// How a file gets to its destination.
#[derive(Clone, Copy, Debug, PartialEq, Eq)]
pub enum Operation {
    /// The file is renamed: it leaves its source path.
    Move,
    /// The file is duplicated: the source stays as it is.
    Copy,
}

/// What the caller is asked to do next.
#[derive(Debug, PartialEq, Eq)]
pub enum Request {
    /// Create this folder and its parents, where they are not there yet.
    EnsureFolder(String),
    /// Tell whether the source file at this path exists.
    ProbeSource(String),
    /// Tell whether anything exists at this destination path.
    ProbeDestination(String),
    /// Move or copy the file at `source` to `destination`.
    Transfer { operation: Operation, source: String, destination: String },
    /// Nothing more: the batch has ended with this result.
    Finish(Result<(), Error>),
}

/// The mathematical value of a [`Request`].
pub enum RequestView {
    EnsureFolder(Seq<char>),
    ProbeSource(Seq<char>),
    ProbeDestination(Seq<char>),
    Transfer { operation: Operation, source: Seq<char>, destination: Seq<char> },
    Finish(Result<(), ErrorView>),
}

impl View for Request {
    type V = RequestView;

    open spec fn view(&self) -> RequestView {
        match *self {
            Request::EnsureFolder(folder) => RequestView::EnsureFolder(folder@),
            Request::ProbeSource(path) => RequestView::ProbeSource(path@),
            Request::ProbeDestination(path) => RequestView::ProbeDestination(path@),
            Request::Transfer { operation, source, destination } => RequestView::Transfer {
                operation,
                source: source@,
                destination: destination@,
            },
            Request::Finish(result) => RequestView::Finish(outcome_view(result)),
        }
    }
}

/// What became of the request that was issued last.
#[derive(Clone, Debug, PartialEq, Eq)]
pub enum Reply {
    /// The folder is there, or the file was moved or copied.
    Done,
    /// Something exists at the probed path.
    Present,
    /// Nothing exists at the probed path.
    Absent,
    /// The request failed; the text is what the system reported.
    Failed(String),
}

/// The mathematical value of a [`Reply`].
pub enum ReplyView {
    Done,
    Present,
    Absent,
    Failed(Seq<char>),
}

impl View for Reply {
    type V = ReplyView;

    open spec fn view(&self) -> ReplyView {
        match *self {
            Reply::Done => ReplyView::Done,
            Reply::Present => ReplyView::Present,
            Reply::Absent => ReplyView::Absent,
            Reply::Failed(detail) => ReplyView::Failed(detail@),
        }
    }
}

/// Something that the batch went on in spite of.
#[derive(Clone, Debug, PartialEq, Eq)]
pub enum Warning {
    /// No file exists at this source path: the entry was skipped.
    SourceMissing(String),
    /// This source path names no file: the entry was skipped.
    NoFileName(String),
    /// The destination `preferred` was taken, and `used` was written instead. Where the two
    /// are the same, every numbered alternative was taken too.
    DestinationTaken { preferred: String, used: String },
}

/// The mathematical value of a [`Warning`].
pub enum WarningView {
    SourceMissing(Seq<char>),
    NoFileName(Seq<char>),
    DestinationTaken { preferred: Seq<char>, used: Seq<char> },
}

impl View for Warning {
    type V = WarningView;

    open spec fn view(&self) -> WarningView {
        match *self {
            Warning::SourceMissing(path) => WarningView::SourceMissing(path@),
            Warning::NoFileName(path) => WarningView::NoFileName(path@),
            Warning::DestinationTaken { preferred, used } => WarningView::DestinationTaken {
                preferred: preferred@,
                used: used@,
            },
        }
    }
}

/// The mathematical values of `warnings`, in order.
pub open spec fn warning_views(warnings: Seq<Warning>) -> Seq<WarningView> {
    warnings.map_values(|warning: Warning| warning@)
}

/// Which request the reconciler waits on.
#[derive(Clone, Copy, Debug, PartialEq, Eq)]
pub enum Phase {
    /// The destination root is being made sure of.
    Root,
    /// The folder of the current entry's group is being made sure of.
    Folder,
    /// The source of the current entry is being probed.
    Source,
    /// A destination for the current entry is being probed.
    Destination,
    /// The current entry is being moved or copied.
    Transfer,
    /// The batch has ended.
    Finished,
}

/// The state of a batch.
pub struct Reconciler {
    root: String,
    operation: Operation,
    entries: Vec<ManifestEntry>,
    cursor: usize,
    phase: Phase,
    folder: String,
    target: String,
    candidate: String,
    attempt: u32,
    warnings: Vec<Warning>,
    result: Result<(), Error>,
}

/// The mathematical value of a [`Reconciler`].
pub struct ReconcilerView {
    /// The folder under which each group gets its own.
    pub root: Seq<char>,
    /// How files get to their destinations.
    pub operation: Operation,
    /// The manifest.
    pub entries: Seq<EntryView>,
    /// The position of the current entry; all before it are dealt with.
    pub cursor: nat,
    /// Which request is awaited.
    pub phase: Phase,
    /// The folder of the current entry's group.
    pub folder: Seq<char>,
    /// The destination that the current entry would have if nothing were in its way.
    pub target: Seq<char>,
    /// The destination that is being probed or written.
    pub candidate: Seq<char>,
    /// The number of the alternative that is being probed; 0 for the target itself.
    pub attempt: nat,
    /// What the batch went on in spite of, in order.
    pub warnings: Seq<WarningView>,
    /// The result of the batch, once it has ended.
    pub result: Result<(), ErrorView>,
}

impl View for Reconciler {
    type V = ReconcilerView;

    closed spec fn view(&self) -> ReconcilerView {
        ReconcilerView {
            root: self.root@,
            operation: self.operation,
            entries: entry_views(self.entries@),
            cursor: self.cursor as nat,
            phase: self.phase,
            folder: self.folder@,
            target: self.target@,
            candidate: self.candidate@,
            attempt: self.attempt as nat,
            warnings: warning_views(self.warnings@),
            result: outcome_view(self.result),
        }
    }
}

/// The operation that `text` names, where it names one.
pub open spec fn operation_named(text: Seq<char>) -> Option<Operation> {
    if text == "move"@ {
        Some(Operation::Move)
    } else if text == "copy"@ {
        Some(Operation::Copy)
    } else {
        None
    }
}

/// The name of the folder of `group` under the destination root: `label_` and the number for
/// a numbered group, the sanitized name for a named one, which is refused where nothing but
/// underscores is left of it.
pub open spec fn folder_name(group: GroupView) -> Result<Seq<char>, ErrorView> {
    match group {
        GroupView::Label(label) => Ok("label_"@ + signed_decimal(label as int)),
        GroupView::Name(name) => if only_underscores(sanitized(name)) {
            Err(ErrorView::Validation(ValidationFailureView::GroupNameRejected(name)))
        } else {
            Ok(sanitized(name))
        },
    }
}

/// Whether the parts of `state` fit together: the cursor is within the manifest, and on an
/// entry while one is being dealt with; the attempt is below the ceiling; and the candidate
/// is the target or its alternative with the number of the attempt.
pub open spec fn consistent(state: ReconcilerView) -> bool {
    &&& state.cursor <= state.entries.len()
    &&& state.attempt < ATTEMPT_CEILING
    &&& (state.phase is Folder || state.phase is Source || state.phase is Destination
        || state.phase is Transfer) ==> state.cursor < state.entries.len()
    &&& state.phase is Destination ==> state.candidate == if state.attempt == 0 {
        state.target
    } else {
        numbered_path(state.target, state.attempt)
    }
}

/// The state in which the batch has ended with `result`, and the request that says so.
pub open spec fn finished(state: ReconcilerView, result: Result<(), ErrorView>) -> (
    ReconcilerView,
    RequestView,
) {
    (ReconcilerView { phase: Phase::Finished, result, ..state }, RequestView::Finish(result))
}

/// The state and the request with which the entry under the cursor is taken up: the batch
/// ends well where no entry is left, and ends with the refusal where the entry's group name
/// is refused; otherwise the group's folder is to be made sure of.
pub open spec fn opened(state: ReconcilerView) -> (ReconcilerView, RequestView) {
    if state.cursor >= state.entries.len() {
        finished(state, Ok(()))
    } else {
        match folder_name(state.entries[state.cursor as int].group) {
            Err(refusal) => finished(state, Err(refusal)),
            Ok(name) => {
                let folder = joined(state.root, name);
                (
                    ReconcilerView { phase: Phase::Folder, folder, ..state },
                    RequestView::EnsureFolder(folder),
                )
            },
        }
    }
}

/// The state and the request after the entry under the cursor was skipped with `warning`.
pub open spec fn skipped(state: ReconcilerView, warning: WarningView) -> (
    ReconcilerView,
    RequestView,
) {
    opened(
        ReconcilerView {
            cursor: state.cursor + 1,
            warnings: state.warnings.push(warning),
            ..state
        },
    )
}

/// The request that `state` waits on.
pub open spec fn pending(state: ReconcilerView) -> RequestView {
    match state.phase {
        Phase::Root => RequestView::EnsureFolder(state.root),
        Phase::Folder => RequestView::EnsureFolder(state.folder),
        Phase::Source => RequestView::ProbeSource(
            state.entries[state.cursor as int].source_path,
        ),
        Phase::Destination => RequestView::ProbeDestination(state.candidate),
        Phase::Transfer => RequestView::Transfer {
            operation: state.operation,
            source: state.entries[state.cursor as int].source_path,
            destination: state.candidate,
        },
        Phase::Finished => RequestView::Finish(state.result),
    }
}

/// The state in which the current entry is to be written to `destination`, and the request
/// to do so; where the target was taken, a warning says what is written instead.
pub open spec fn committed(state: ReconcilerView, destination: Seq<char>, taken: bool) -> (
    ReconcilerView,
    RequestView,
) {
    (
        ReconcilerView {
            phase: Phase::Transfer,
            candidate: destination,
            warnings: if taken {
                state.warnings.push(
                    WarningView::DestinationTaken { preferred: state.target, used: destination },
                )
            } else {
                state.warnings
            },
            ..state
        },
        RequestView::Transfer {
            operation: state.operation,
            source: state.entries[state.cursor as int].source_path,
            destination,
        },
    )
}

/// The state and the first request of a batch that relocates `entries` under `root`.
pub open spec fn started(root: Seq<char>, operation: Operation, entries: Seq<EntryView>) -> (
    ReconcilerView,
    RequestView,
) {
    (
        ReconcilerView {
            root,
            operation,
            entries,
            cursor: 0,
            phase: Phase::Root,
            folder: Seq::empty(),
            target: Seq::empty(),
            candidate: Seq::empty(),
            attempt: 0,
            warnings: Seq::empty(),
            result: Ok(()),
        },
        RequestView::EnsureFolder(root),
    )
}

/// The state after `reply`, and the next request. A reply that does not answer the request
/// that is pending changes nothing, and the request is issued again.
pub open spec fn next(state: ReconcilerView, reply: ReplyView) -> (ReconcilerView, RequestView) {
    let source = state.entries[state.cursor as int].source_path;
    match state.phase {
        Phase::Root => match reply {
            ReplyView::Done => opened(state),
            ReplyView::Failed(detail) => finished(
                state,
                Err(ErrorView::Io { path: state.root, detail }),
            ),
            _ => (state, pending(state)),
        },
        Phase::Folder => match reply {
            ReplyView::Done => (
                ReconcilerView { phase: Phase::Source, ..state },
                RequestView::ProbeSource(source),
            ),
            ReplyView::Failed(detail) => finished(
                state,
                Err(ErrorView::Io { path: state.folder, detail }),
            ),
            _ => (state, pending(state)),
        },
        Phase::Source => match reply {
            ReplyView::Absent => skipped(state, WarningView::SourceMissing(source)),
            ReplyView::Present => match base_name(source) {
                None => skipped(state, WarningView::NoFileName(source)),
                Some(name) => {
                    let target = joined(state.folder, name);
                    (
                        ReconcilerView {
                            phase: Phase::Destination,
                            target,
                            candidate: target,
                            attempt: 0,
                            ..state
                        },
                        RequestView::ProbeDestination(target),
                    )
                },
            },
            _ => (state, pending(state)),
        },
        Phase::Destination => match reply {
            ReplyView::Absent => committed(state, state.candidate, state.attempt > 0),
            ReplyView::Present => if state.attempt + 1 < ATTEMPT_CEILING {
                let candidate = numbered_path(state.target, state.attempt + 1);
                (
                    ReconcilerView { candidate, attempt: state.attempt + 1, ..state },
                    RequestView::ProbeDestination(candidate),
                )
            } else {
                committed(state, state.target, true)
            },
            _ => (state, pending(state)),
        },
        Phase::Transfer => match reply {
            ReplyView::Done => opened(ReconcilerView { cursor: state.cursor + 1, ..state }),
            ReplyView::Failed(detail) => finished(
                state,
                Err(ErrorView::Io { path: source, detail }),
            ),
            _ => (state, pending(state)),
        },
        Phase::Finished => (state, pending(state)),
    }
}

/// The operation that `text` names: `move` or `copy`, in lower case.
pub fn parse_operation(text: &str) -> (parsed: Result<Operation, Error>)
    ensures
        match parsed {
            Ok(operation) => operation_named(text@) == Some(operation),
            Err(refusal) => operation_named(text@) is None && refusal@ == ErrorView::Validation(
                ValidationFailureView::UnknownOperation(text@),
            ),
        },
{
    let given = text.to_owned();
    if given == "move".to_owned() {
        Ok(Operation::Move)
    } else if given == "copy".to_owned() {
        Ok(Operation::Copy)
    } else {
        Err(Error::Validation(ValidationFailure::UnknownOperation(given)))
    }
}

/// The name of the folder of `group` under the destination root, or the refusal of its name.
pub fn group_folder_name(group: &Group) -> (named: Result<String, Error>)
    ensures
        text_outcome_view(named) == folder_name(group@),
{
    match group {
        Group::Label(label) => {
            let mut name = chars_of("label_");
            push_signed_decimal(&mut name, *label as i64);
            Ok(string_of(name.as_slice()))
        },
        Group::Name(name) => sanitize_filename(name.as_str()),
    }
}

fn duplicate_result(result: &Result<(), Error>) -> (copy: Result<(), Error>)
    ensures
        outcome_view(copy) == outcome_view(*result),
{
    match result {
        Ok(()) => Ok(()),
        Err(failure) => Err(failure.duplicate()),
    }
}

impl Reconciler {
    /// A batch that relocates `entries` under `root`, and its first request.
    pub fn new(root: String, operation: Operation, entries: Vec<ManifestEntry>) -> (begun: (
        Reconciler,
        Request,
    ))
        ensures
            (begun.0@, begun.1@) == started(root@, operation, entry_views(entries@)),
            consistent(begun.0@),
    {
        let request = Request::EnsureFolder(root.clone());
        let state = Reconciler {
            root,
            operation,
            entries,
            cursor: 0,
            phase: Phase::Root,
            folder: String::new(),
            target: String::new(),
            candidate: String::new(),
            attempt: 0,
            warnings: Vec::new(),
            result: Ok(()),
        };
        assert(warning_views(state.warnings@) == Seq::<WarningView>::empty());
        (state, request)
    }

    /// What the batch went on in spite of so far, in order.
    pub fn warnings(&self) -> (warnings: &Vec<Warning>)
        ensures
            warning_views(warnings@) == self@.warnings,
    {
        &self.warnings
    }

    /// Whether the batch has ended.
    pub fn is_finished(&self) -> (ended: bool)
        ensures
            ended == (self@.phase is Finished),
    {
        match self.phase {
            Phase::Finished => true,
            _ => false,
        }
    }

    fn finish(&mut self, result: Result<(), Error>) -> (request: Request)
        requires
            consistent(old(self)@),
        ensures
            (final(self)@, request@) == finished(old(self)@, outcome_view(result)),
            consistent(final(self)@),
    {
        let request = Request::Finish(duplicate_result(&result));
        self.phase = Phase::Finished;
        self.result = result;
        request
    }

    fn open(&mut self) -> (request: Request)
        requires
            old(self)@.cursor <= old(self)@.entries.len(),
            old(self)@.attempt < ATTEMPT_CEILING,
            !(old(self)@.phase is Destination),
        ensures
            (final(self)@, request@) == opened(old(self)@),
            consistent(final(self)@),
    {
        if self.cursor >= self.entries.len() {
            self.phase = Phase::Finished;
            self.result = Ok(());
            return Request::Finish(Ok(()));
        }
        match group_folder_name(&self.entries[self.cursor].group) {
            Err(refusal) => {
                let request = Request::Finish(Err(refusal.duplicate()));
                self.phase = Phase::Finished;
                self.result = Err(refusal);
                request
            },
            Ok(name) => {
                let folder = join(self.root.as_str(), name.as_str());
                self.phase = Phase::Folder;
                self.folder = folder.clone();
                Request::EnsureFolder(folder)
            },
        }
    }

    fn skip(&mut self, warning: Warning) -> (request: Request)
        requires
            old(self)@.cursor < old(self)@.entries.len(),
            old(self)@.attempt < ATTEMPT_CEILING,
            !(old(self)@.phase is Destination),
        ensures
            (final(self)@, request@) == skipped(old(self)@, warning@),
            consistent(final(self)@),
    {
        let ghost before = warning_views(self.warnings@);
        assert(self.cursor < self.entries.len());
        self.warnings.push(warning);
        assert(warning_views(self.warnings@) == before.push(warning@));
        self.cursor = self.cursor + 1;
        self.open()
    }

    fn commit(&mut self, destination: String, taken: bool) -> (request: Request)
        requires
            consistent(old(self)@),
            old(self)@.phase is Destination,
        ensures
            (final(self)@, request@) == committed(old(self)@, destination@, taken),
            consistent(final(self)@),
    {
        if taken {
            let ghost before = warning_views(self.warnings@);
            let warning = Warning::DestinationTaken {
                preferred: self.target.clone(),
                used: destination.clone(),
            };
            self.warnings.push(warning);
            assert(warning_views(self.warnings@) == before.push(warning@));
        }
        self.phase = Phase::Transfer;
        self.candidate = destination.clone();
        Request::Transfer {
            operation: self.operation,
            source: self.entries[self.cursor].source_path.clone(),
            destination,
        }
    }

    fn again(&self) -> (request: Request)
        requires
            consistent(self@),
        ensures
            request@ == pending(self@),
    {
        assert(self@.entries.len() == self.entries.len());
        match self.phase {
            Phase::Root => Request::EnsureFolder(self.root.clone()),
            Phase::Folder => Request::EnsureFolder(self.folder.clone()),
            Phase::Source => Request::ProbeSource(self.entries[self.cursor].source_path.clone()),
            Phase::Destination => Request::ProbeDestination(self.candidate.clone()),
            Phase::Transfer => Request::Transfer {
                operation: self.operation,
                source: self.entries[self.cursor].source_path.clone(),
                destination: self.candidate.clone(),
            },
            Phase::Finished => Request::Finish(duplicate_result(&self.result)),
        }
    }

    /// Takes what became of the request that was issued last, and issues the next one.
    pub fn step(&mut self, reply: Reply) -> (request: Request)
        requires
            consistent(old(self)@),
        ensures
            (final(self)@, request@) == next(old(self)@, reply@),
            consistent(final(self)@),
    {
        assert(self@.entries.len() == self.entries.len());
        match self.phase {
            Phase::Root => match reply {
                Reply::Done => self.open(),
                Reply::Failed(detail) => {
                    let path = self.root.clone();
                    self.finish(Err(Error::Io { path, detail }))
                },
                _ => self.again(),
            },
            Phase::Folder => match reply {
                Reply::Done => {
                    self.phase = Phase::Source;
                    Request::ProbeSource(self.entries[self.cursor].source_path.clone())
                },
                Reply::Failed(detail) => {
                    let path = self.folder.clone();
                    self.finish(Err(Error::Io { path, detail }))
                },
                _ => self.again(),
            },
            Phase::Source => match reply {
                Reply::Absent => {
                    let source = self.entries[self.cursor].source_path.clone();
                    self.skip(Warning::SourceMissing(source))
                },
                Reply::Present => {
                    let source = self.entries[self.cursor].source_path.clone();
                    match file_name(source.as_str()) {
                        None => self.skip(Warning::NoFileName(source)),
                        Some(name) => {
                            let target = join(self.folder.as_str(), name.as_str());
                            self.phase = Phase::Destination;
                            self.target = target.clone();
                            self.candidate = target.clone();
                            self.attempt = 0;
                            Request::ProbeDestination(target)
                        },
                    }
                },
                _ => self.again(),
            },
            Phase::Destination => match reply {
                Reply::Absent => {
                    let destination = self.candidate.clone();
                    let taken = self.attempt > 0;
                    self.commit(destination, taken)
                },
                Reply::Present => {
                    if self.attempt + 1 < ATTEMPT_CEILING {
                        let candidate = numbered(self.target.as_str(), self.attempt + 1);
                        self.attempt = self.attempt + 1;
                        self.candidate = candidate.clone();
                        Request::ProbeDestination(candidate)
                    } else {
                        let destination = self.target.clone();
                        self.commit(destination, true)
                    }
                },
                _ => self.again(),
            },
            Phase::Transfer => match reply {
                Reply::Done => {
                    self.cursor = self.cursor + 1;
                    self.open()
                },
                Reply::Failed(detail) => {
                    let path = self.entries[self.cursor].source_path.clone();
                    self.finish(Err(Error::Io { path, detail }))
                },
                _ => self.again(),
            },
            Phase::Finished => self.again(),
        }
    }
}

/// The state and the first request of the batch that relocates under `base_output` what the
/// manifest at `location` assigns, or the reason for which there is no batch: the operation
/// is checked first, then the manifest.
pub open spec fn batch_begun(
    base_output: Seq<char>,
    copy_or_move: Seq<char>,
    location: Seq<char>,
    read: ReadOutcomeView,
) -> Result<(ReconcilerView, RequestView), ErrorView> {
    match operation_named(copy_or_move) {
        None => Err(
            ErrorView::Validation(ValidationFailureView::UnknownOperation(copy_or_move)),
        ),
        Some(operation) => match manifest_read(location, read) {
            Err(failure) => Err(failure),
            Ok(entries) => Ok(started(base_output, operation, entries)),
        },
    }
}

/// The mathematical value of the result of beginning a batch.
pub open spec fn begun_view(result: Result<(Reconciler, Request), Error>) -> Result<
    (ReconcilerView, RequestView),
    ErrorView,
> {
    match result {
        Ok(begun) => Ok((begun.0@, begun.1@)),
        Err(failure) => Err(failure@),
    }
}

/// Begins the batch that relocates under `base_output`, by the operation that `copy_or_move`
/// names, the files of the manifest at `location`, given what became of reading that file.
/// Nothing is asked of the file system where the operation is unknown or the manifest cannot
/// be had.
pub fn organize_files_from_json(
    base_output: String,
    copy_or_move: &str,
    location: &str,
    read: ReadOutcome,
) -> (result: Result<(Reconciler, Request), Error>)
    ensures
        begun_view(result) == batch_begun(base_output@, copy_or_move@, location@, read@),
        result matches Ok(begun) ==> consistent(begun.0@),
{
    let operation = match parse_operation(copy_or_move) {
        Ok(operation) => operation,
        Err(refusal) => {
            return Err(refusal);
        },
    };
    match manifest_from_read(location, read) {
        Ok(entries) => Ok(Reconciler::new(base_output, operation, entries)),
        Err(failure) => Err(failure),
    }
}

} // verus!
