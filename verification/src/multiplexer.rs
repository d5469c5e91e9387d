//! Reading the worker's output: what each line means for the outcome of the run, and what
//! the run comes to when the worker terminates.
//!
//! Events are taken in arrival order. A line on standard output never changes the outcome.
//! A line on standard error is a sentinel, a warning or anything else, in that order of
//! precedence: a sentinel sets the outcome to a failure, a warning leaves it as it is, and
//! any other line sets it to success, whatever it was before. Termination with a non-zero
//! exit code sets the outcome to a failure whatever it was before, and ends the run.
use crate::error::{Error, ErrorView, WorkerFailure, outcome_view};
use crate::text::chars_of;
use vstd::prelude::*;

verus! {

/// One thing that the worker did, as the process layer saw it.
#[derive(Clone, Debug, PartialEq, Eq)]
pub enum WorkerEvent {
    /// A line that the worker wrote to standard output.
    StandardOut(Vec<u8>),
    /// A line that the worker wrote to standard error.
    StandardError(Vec<u8>),
    /// The worker terminated, with this exit code if it has one.
    Terminated(Option<i32>),
}

/// The mathematical value of a [`WorkerEvent`].
pub enum WorkerEventView {
    StandardOut(Seq<u8>),
    StandardError(Seq<u8>),
    Terminated(Option<i32>),
}

impl View for WorkerEvent {
    type V = WorkerEventView;

    open spec fn view(&self) -> WorkerEventView {
        match *self {
            WorkerEvent::StandardOut(line) => WorkerEventView::StandardOut(line@),
            WorkerEvent::StandardError(line) => WorkerEventView::StandardError(line@),
            WorkerEvent::Terminated(code) => WorkerEventView::Terminated(code),
        }
    }
}

/// What a line on standard error is.
#[derive(Clone, Copy, Debug, PartialEq, Eq)]
pub enum LineClass {
    /// One of the phrases by which the worker reports that it had too few files.
    Sentinel,
    /// A line that mentions a warning.
    Warning,
    /// Any other line.
    Other,
}

/// What a run has come to so far.
#[derive(Clone, Copy, Debug, PartialEq, Eq)]
pub enum RunOutcome {
    Success,
    Failed(WorkerFailure),
}

/// What the caller does with an event once it has been observed.
#[derive(Clone, Copy, Debug, PartialEq, Eq)]
pub enum Effect {
    /// Forward the line from standard output to the log.
    Forward,
    /// Log the line from standard error.
    Report,
    /// Log the line from standard error as a warning.
    Warn,
    /// Log the line from standard error and send it to the presentation layer as a
    /// notification.
    Notify,
    /// Deliver this outcome to whoever waits for the run, and stop reading.
    Deliver(RunOutcome),
    /// The outcome was delivered before: drop the event.
    Ignore,
}

/// The state of a run that is being read.
#[derive(Clone, Copy, Debug, PartialEq, Eq)]
pub struct Multiplexer {
    /// What the run has come to so far.
    pub outcome: RunOutcome,
    /// Whether the worker's termination has been observed.
    pub finished: bool,
}

/// The bytes that stand for `text`, one for each character.
pub open spec fn ascii(text: Seq<char>) -> Seq<u8> {
    text.map_values(|c: char| c as u8)
}

/// Whether `line` is, byte for byte, one of the phrases by which the worker reports that it
/// had too few files.
pub open spec fn is_sentinel(line: Seq<u8>) -> bool {
    line == ascii("Not enough files"@) || line == ascii("insufficient input count"@)
}

/// `b`, or the lower-case letter for an upper-case ASCII letter.
pub open spec fn lowered(b: u8) -> u8 {
    if 65 <= b <= 90 {
        (b + 32) as u8
    } else {
        b
    }
}

/// Whether `word` stands in `line` at position `at`, upper-case letters in `line` counting as
/// lower-case ones.
pub open spec fn occurs_at(line: Seq<u8>, word: Seq<u8>, at: int) -> bool {
    &&& 0 <= at
    &&& at + word.len() <= line.len()
    &&& forall|j: int| 0 <= j < word.len() ==> lowered(#[trigger] line[at + j]) == word[j]
}

/// Whether `word` stands somewhere in `line`, upper-case letters in `line` counting as
/// lower-case ones.
pub open spec fn mentions(line: Seq<u8>, word: Seq<u8>) -> bool {
    exists|at: int| occurs_at(line, word, at)
}

/// Whether `line` mentions one of the words of the warning vocabulary, in any case.
pub open spec fn is_warning(line: Seq<u8>) -> bool {
    ||| mentions(line, ascii("futurewarning"@))
    ||| mentions(line, ascii("deprecationwarning"@))
    ||| mentions(line, ascii("warning"@))
}

/// What a line on standard error is: a sentinel before a warning, a warning before anything
/// else.
pub open spec fn classify(line: Seq<u8>) -> LineClass {
    if is_sentinel(line) {
        LineClass::Sentinel
    } else if is_warning(line) {
        LineClass::Warning
    } else {
        LineClass::Other
    }
}

/// The outcome after a line of class `class` on standard error.
pub open spec fn after_line(outcome: RunOutcome, class: LineClass) -> RunOutcome {
    match class {
        LineClass::Sentinel => RunOutcome::Failed(WorkerFailure::NotEnoughFiles),
        LineClass::Warning => outcome,
        LineClass::Other => RunOutcome::Success,
    }
}

/// The outcome after termination with exit code `code`.
pub open spec fn after_exit(outcome: RunOutcome, code: Option<i32>) -> RunOutcome {
    match code {
        Some(c) => if c != 0 {
            RunOutcome::Failed(WorkerFailure::NonZeroExit(c))
        } else {
            outcome
        },
        None => outcome,
    }
}

/// The state after `event`, and what the caller does with the event.
pub open spec fn observed(state: Multiplexer, event: WorkerEventView) -> (Multiplexer, Effect) {
    if state.finished {
        (state, Effect::Ignore)
    } else {
        match event {
            WorkerEventView::StandardOut(_) => (state, Effect::Forward),
            WorkerEventView::StandardError(line) => (
                Multiplexer { outcome: after_line(state.outcome, classify(line)), finished: false },
                match classify(line) {
                    LineClass::Sentinel => Effect::Notify,
                    LineClass::Warning => Effect::Warn,
                    LineClass::Other => Effect::Report,
                },
            ),
            WorkerEventView::Terminated(code) => (
                Multiplexer { outcome: after_exit(state.outcome, code), finished: true },
                Effect::Deliver(after_exit(state.outcome, code)),
            ),
        }
    }
}

/// What a run that stands at `outcome` comes to over `events`: the outcome at the first
/// termination, or nothing where the worker is never seen to terminate.
pub open spec fn delivered(outcome: RunOutcome, events: Seq<WorkerEventView>) -> Option<
    RunOutcome,
>
    decreases events.len(),
{
    if events.len() == 0 {
        None
    } else {
        match events[0] {
            WorkerEventView::StandardOut(_) => delivered(outcome, events.skip(1)),
            WorkerEventView::StandardError(line) => delivered(
                after_line(outcome, classify(line)),
                events.skip(1),
            ),
            WorkerEventView::Terminated(code) => Some(after_exit(outcome, code)),
        }
    }
}

/// What the caller of a run is told: success, the failure that the worker reported, or that
/// the worker was never seen to terminate.
pub open spec fn concluded(delivery: Option<RunOutcome>) -> Result<(), ErrorView> {
    match delivery {
        Some(RunOutcome::Success) => Ok(()),
        Some(RunOutcome::Failed(failure)) => Err(ErrorView::WorkerReported(failure)),
        None => Err(ErrorView::CompletionLost),
    }
}

/// The mathematical values of `events`, in order.
pub open spec fn event_views(events: Seq<WorkerEvent>) -> Seq<WorkerEventView> {
    events.map_values(|event: WorkerEvent| event@)
}

/// Whether none of `events` is a termination.
pub open spec fn still_running(events: Seq<WorkerEventView>) -> bool {
    forall|i: int| 0 <= i < events.len() ==> !(#[trigger] events[i] is Terminated)
}

/// The name of the notification that carries a sentinel line to the presentation layer.
pub fn notification_event() -> (name: &'static str)
    ensures
        name@ == "organization_progress"@,
{
    "organization_progress"
}

fn lowercase(b: u8) -> (l: u8)
    ensures
        l == lowered(b),
{
    if 65 <= b && b <= 90 {
        b + 32
    } else {
        b
    }
}

fn is_phrase(line: &[u8], phrase: &str) -> (same: bool)
    ensures
        same == (line@ == ascii(phrase@)),
{
    let chars = chars_of(phrase);
    if line.len() != chars.len() {
        return false;
    }
    let mut i: usize = 0;
    while i < line.len()
        invariant
            i <= line.len(),
            line.len() == chars.len(),
            chars@ == phrase@,
            forall|j: int| 0 <= j < i ==> line@[j] == ascii(phrase@)[j],
        decreases line.len() - i,
    {
        if line[i] != chars[i] as u8 {
            return false;
        }
        i += 1;
    }
    assert(line@ =~= ascii(phrase@));
    true
}

fn stands_at(line: &[u8], word: &Vec<char>, at: usize) -> (yes: bool)
    requires
        at + word.len() <= line.len(),
    ensures
        yes == occurs_at(line@, ascii(word@), at as int),
{
    let mut j: usize = 0;
    while j < word.len()
        invariant
            j <= word.len(),
            at + word.len() <= line.len(),
            forall|k: int| 0 <= k < j ==> lowered(#[trigger] line@[at + k]) == ascii(word@)[k],
        decreases word.len() - j,
    {
        if lowercase(line[at + j]) != word[j] as u8 {
            return false;
        }
        j += 1;
    }
    true
}

fn mentions_word(line: &[u8], word: &str) -> (yes: bool)
    ensures
        yes == mentions(line@, ascii(word@)),
{
    let chars = chars_of(word);
    if chars.len() > line.len() {
        return false;
    }
    let last = line.len() - chars.len();
    let mut at: usize = 0;
    while at <= last
        invariant
            at <= last + 1,
            last == line.len() - chars.len(),
            chars@ == word@,
            forall|k: int| 0 <= k < at ==> !occurs_at(line@, ascii(word@), k),
        decreases last + 1 - at,
    {
        if stands_at(line, &chars, at) {
            return true;
        }
        at += 1;
    }
    false
}

/// What the line `line` on standard error is.
pub fn classify_line(line: &[u8]) -> (class: LineClass)
    ensures
        class == classify(line@),
{
    if is_phrase(line, "Not enough files") || is_phrase(line, "insufficient input count") {
        LineClass::Sentinel
    } else if mentions_word(line, "futurewarning") || mentions_word(line, "deprecationwarning")
        || mentions_word(line, "warning") {
        LineClass::Warning
    } else {
        LineClass::Other
    }
}

impl Multiplexer {
    /// The state of a run of which nothing has been read yet: it stands at success.
    pub fn new() -> (state: Multiplexer)
        ensures
            state == (Multiplexer { outcome: RunOutcome::Success, finished: false }),
    {
        Multiplexer { outcome: RunOutcome::Success, finished: false }
    }

    /// Takes the next event of the run, and says what the caller does with it.
    pub fn observe(&mut self, event: &WorkerEvent) -> (effect: Effect)
        ensures
            (*final(self), effect) == observed(*old(self), event@),
    {
        if self.finished {
            return Effect::Ignore;
        }
        match event {
            WorkerEvent::StandardOut(_) => Effect::Forward,
            WorkerEvent::StandardError(line) => {
                match classify_line(line.as_slice()) {
                    LineClass::Sentinel => {
                        self.outcome = RunOutcome::Failed(WorkerFailure::NotEnoughFiles);
                        Effect::Notify
                    },
                    LineClass::Warning => Effect::Warn,
                    LineClass::Other => {
                        self.outcome = RunOutcome::Success;
                        Effect::Report
                    },
                }
            },
            WorkerEvent::Terminated(code) => {
                match code {
                    Some(c) => {
                        if *c != 0 {
                            self.outcome = RunOutcome::Failed(WorkerFailure::NonZeroExit(*c));
                        }
                    },
                    None => {},
                }
                self.finished = true;
                Effect::Deliver(self.outcome)
            },
        }
    }
}

/// What the caller of a run is told, given the outcome that was delivered, if one was.
pub fn conclude(delivery: Option<RunOutcome>) -> (result: Result<(), Error>)
    ensures
        outcome_view(result) == concluded(delivery),
{
    match delivery {
        Some(RunOutcome::Success) => Ok(()),
        Some(RunOutcome::Failed(failure)) => Err(Error::WorkerReported(failure)),
        None => Err(Error::CompletionLost),
    }
}

/// What a run comes to whose events were `events`, in this order.
pub fn run_outcome(events: &Vec<WorkerEvent>) -> (result: Result<(), Error>)
    ensures
        outcome_view(result) == concluded(delivered(RunOutcome::Success, event_views(events@))),
{
    let ghost all = event_views(events@);
    let mut state = Multiplexer::new();
    let mut i: usize = 0;
    assert(all.skip(0) == all);
    while i < events.len()
        invariant
            i <= events.len(),
            all == event_views(events@),
            !state.finished,
            delivered(state.outcome, all.skip(i as int)) == delivered(RunOutcome::Success, all),
        decreases events.len() - i,
    {
        assert(all.skip(i as int).skip(1) == all.skip(i + 1));
        match state.observe(&events[i]) {
            Effect::Deliver(outcome) => {
                return conclude(Some(outcome));
            },
            _ => {},
        }
        i += 1;
    }
    conclude(None)
}

/// Termination with a non-zero exit code decides the run, whatever was read before it.
pub proof fn lemma_nonzero_exit_overrides(
    outcome: RunOutcome,
    before: Seq<WorkerEventView>,
    code: i32,
)
    requires
        still_running(before),
        code != 0,
    ensures
        delivered(outcome, before.push(WorkerEventView::Terminated(Some(code)))) == Some(
            RunOutcome::Failed(WorkerFailure::NonZeroExit(code)),
        ),
    decreases before.len(),
{
    let events = before.push(WorkerEventView::Terminated(Some(code)));
    if before.len() > 0 {
        assert(events.skip(1) == before.skip(1).push(WorkerEventView::Terminated(Some(code))));
        match before[0] {
            WorkerEventView::StandardOut(_) => {
                lemma_nonzero_exit_overrides(outcome, before.skip(1), code);
            },
            WorkerEventView::StandardError(line) => {
                lemma_nonzero_exit_overrides(
                    after_line(outcome, classify(line)),
                    before.skip(1),
                    code,
                );
            },
            WorkerEventView::Terminated(_) => {},
        }
    }
}

/// A line on standard error that is neither a sentinel nor a warning sets the outcome to
/// success, whatever was read before it: what the run comes to from there on is what a run
/// that starts with success comes to.
pub proof fn lemma_other_line_resets(
    outcome: RunOutcome,
    before: Seq<WorkerEventView>,
    line: Seq<u8>,
    after: Seq<WorkerEventView>,
)
    requires
        still_running(before),
        classify(line) == LineClass::Other,
    ensures
        delivered(outcome, before.push(WorkerEventView::StandardError(line)) + after) == delivered(
            RunOutcome::Success,
            after,
        ),
    decreases before.len(),
{
    let events = before.push(WorkerEventView::StandardError(line)) + after;
    if before.len() == 0 {
        assert(events.skip(1) == after);
    } else {
        assert(events.skip(1) == before.skip(1).push(WorkerEventView::StandardError(line))
            + after);
        match before[0] {
            WorkerEventView::StandardOut(_) => {
                lemma_other_line_resets(outcome, before.skip(1), line, after);
            },
            WorkerEventView::StandardError(first) => {
                lemma_other_line_resets(
                    after_line(outcome, classify(first)),
                    before.skip(1),
                    line,
                    after,
                );
            },
            WorkerEventView::Terminated(_) => {},
        }
    }
}

/// A run delivers one outcome, at the first termination: what follows it changes nothing.
pub proof fn lemma_nothing_counts_after_termination(
    outcome: RunOutcome,
    before: Seq<WorkerEventView>,
    code: Option<i32>,
    after: Seq<WorkerEventView>,
)
    requires
        still_running(before),
    ensures
        delivered(outcome, before.push(WorkerEventView::Terminated(code)) + after) == delivered(
            outcome,
            before.push(WorkerEventView::Terminated(code)),
        ),
    decreases before.len(),
{
    let short = before.push(WorkerEventView::Terminated(code));
    let long = short + after;
    if before.len() > 0 {
        assert(short.skip(1) == before.skip(1).push(WorkerEventView::Terminated(code)));
        assert(long.skip(1) == before.skip(1).push(WorkerEventView::Terminated(code)) + after);
        match before[0] {
            WorkerEventView::StandardOut(_) => {
                lemma_nothing_counts_after_termination(outcome, before.skip(1), code, after);
            },
            WorkerEventView::StandardError(first) => {
                lemma_nothing_counts_after_termination(
                    after_line(outcome, classify(first)),
                    before.skip(1),
                    code,
                    after,
                );
            },
            WorkerEventView::Terminated(_) => {},
        }
    }
}

/// A run whose worker is never seen to terminate delivers nothing, so its caller is told
/// that the completion signal was lost.
pub proof fn lemma_no_termination_no_outcome(outcome: RunOutcome, events: Seq<WorkerEventView>)
    requires
        still_running(events),
    ensures
        delivered(outcome, events) is None,
        concluded(delivered(outcome, events)) == Err::<(), ErrorView>(ErrorView::CompletionLost),
    decreases events.len(),
{
    if events.len() > 0 {
        match events[0] {
            WorkerEventView::StandardOut(_) => {
                lemma_no_termination_no_outcome(outcome, events.skip(1));
            },
            WorkerEventView::StandardError(line) => {
                lemma_no_termination_no_outcome(
                    after_line(outcome, classify(line)),
                    events.skip(1),
                );
            },
            WorkerEventView::Terminated(_) => {},
        }
    }
}

/// An outcome is delivered at most once: it is delivered only by a run that has not ended,
/// which thereby ends, and a run that has ended drops every event and stays as it is.
pub proof fn lemma_outcome_is_delivered_once(state: Multiplexer, event: WorkerEventView)
    ensures
        observed(state, event).1 is Deliver ==> !state.finished && observed(
            state,
            event,
        ).0.finished,
        state.finished ==> observed(state, event) == (state, Effect::Ignore),
        !state.finished ==> (observed(state, event).0.finished <==> event is Terminated),
{
}

} // verus!
