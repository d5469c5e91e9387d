//! What a batch does to a file system in which every request succeeds.
//!
//! The file system is the set of paths at which a file exists. Making sure of a folder
//! changes nothing in it, a probe is answered from it, a copy adds the destination, and a
//! move adds the destination and takes the source away. Against such a file system, the
//! requests that a batch issues come to what [`reconciled`] says, entry by entry.
use crate::error::ErrorView;
use crate::manifest::{EntryView, GroupView};
use crate::path::{ATTEMPT_CEILING, base_name, extension, first_free, is_separator, joined};
use crate::path::{last_component, last_component_start, last_dot, stem};
use crate::path::{lemma_joined_ends_in_name, lemma_last_component};
use crate::path::{lemma_numbered_stays_in_folder, lemma_unique_path_is_lowest_free};
use crate::path::{numbered_name, numbered_path, parent_prefix, unique_path};
use crate::reconcile::{Operation, ReconcilerView, ReplyView, RequestView, WarningView};
use crate::reconcile::{committed, consistent, folder_name, next, opened, started};
use crate::text::{decimal, digit};
use vstd::prelude::*;

verus! {

/// One file that was moved or copied.
pub struct Placement {
    pub source: Seq<char>,
    pub destination: Seq<char>,
}

/// A file system in which every request succeeds, and what was done in it.
pub struct World {
    /// The paths at which a file exists.
    pub files: Set<Seq<char>>,
    /// The files that were moved or copied, in order.
    pub placements: Seq<Placement>,
}

/// A batch at work: its state, the request that it issued last, and the world around it.
pub struct Stage {
    pub state: ReconcilerView,
    pub request: RequestView,
    pub world: World,
}

/// What becomes of one entry.
pub enum Settlement {
    /// Its file goes to `destination`; `target` is where it would go if nothing were in its
    /// way.
    Placed { target: Seq<char>, destination: Seq<char> },
    /// It is passed over with this warning.
    Skipped(WarningView),
    /// Its group name is refused, and the batch ends.
    Refused(ErrorView),
}

/// What a batch comes to.
pub struct Account {
    pub world: World,
    pub warnings: Seq<WarningView>,
    pub result: Result<(), ErrorView>,
}

/// The world after the file at `source` was moved or copied to `destination`.
pub open spec fn transferred(
    world: World,
    operation: Operation,
    source: Seq<char>,
    destination: Seq<char>,
) -> World {
    World {
        files: match operation {
            Operation::Move => world.files.remove(source).insert(destination),
            Operation::Copy => world.files.insert(destination),
        },
        placements: world.placements.push(Placement { source, destination }),
    }
}

/// The world after `request` was performed in it, and the reply to the request.
pub open spec fn answered(world: World, request: RequestView) -> (World, ReplyView) {
    match request {
        RequestView::EnsureFolder(_) => (world, ReplyView::Done),
        RequestView::ProbeSource(path) => (
            world,
            if world.files.contains(path) {
                ReplyView::Present
            } else {
                ReplyView::Absent
            },
        ),
        RequestView::ProbeDestination(path) => (
            world,
            if world.files.contains(path) {
                ReplyView::Present
            } else {
                ReplyView::Absent
            },
        ),
        RequestView::Transfer { operation, source, destination } => (
            transferred(world, operation, source, destination),
            ReplyView::Done,
        ),
        RequestView::Finish(_) => (world, ReplyView::Done),
    }
}

/// The stage after the pending request was performed and answered; a batch that has ended
/// stays as it is.
pub open spec fn advanced(stage: Stage) -> Stage {
    if stage.request is Finish {
        stage
    } else {
        let (world, reply) = answered(stage.world, stage.request);
        let (state, request) = next(stage.state, reply);
        Stage { state, request, world }
    }
}

/// The stage after `steps` requests were performed and answered.
pub open spec fn run(stage: Stage, steps: nat) -> Stage
    decreases steps,
{
    if steps == 0 {
        stage
    } else {
        run(advanced(stage), (steps - 1) as nat)
    }
}

/// What becomes of `entry` under `root` while the files in `files` exist.
pub open spec fn settled(files: Set<Seq<char>>, root: Seq<char>, entry: EntryView) -> Settlement {
    match folder_name(entry.group) {
        Err(refusal) => Settlement::Refused(refusal),
        Ok(folder) => if !files.contains(entry.source_path) {
            Settlement::Skipped(WarningView::SourceMissing(entry.source_path))
        } else {
            match base_name(entry.source_path) {
                None => Settlement::Skipped(WarningView::NoFileName(entry.source_path)),
                Some(name) => {
                    let target = joined(joined(root, folder), name);
                    Settlement::Placed {
                        target,
                        destination: if files.contains(target) {
                            unique_path(target, files)
                        } else {
                            target
                        },
                    }
                },
            }
        },
    }
}

/// What a batch comes to that stands before the entry at `from`, with the world and the
/// warnings as they are by then.
pub open spec fn reconciled(
    world: World,
    warnings: Seq<WarningView>,
    root: Seq<char>,
    operation: Operation,
    entries: Seq<EntryView>,
    from: nat,
) -> Account
    decreases entries.len() - from,
{
    if from >= entries.len() {
        Account { world, warnings, result: Ok(()) }
    } else {
        match settled(world.files, root, entries[from as int]) {
            Settlement::Refused(refusal) => Account { world, warnings, result: Err(refusal) },
            Settlement::Skipped(warning) => reconciled(
                world,
                warnings.push(warning),
                root,
                operation,
                entries,
                from + 1,
            ),
            Settlement::Placed { target, destination } => reconciled(
                transferred(world, operation, entries[from as int].source_path, destination),
                if world.files.contains(target) {
                    warnings.push(
                        WarningView::DestinationTaken { preferred: target, used: destination },
                    )
                } else {
                    warnings
                },
                root,
                operation,
                entries,
                from + 1,
            ),
        }
    }
}

/// Whether every entry from `from` on has its file placed, in the world as it stands when
/// the entry is reached.
pub open spec fn all_placed(
    world: World,
    root: Seq<char>,
    operation: Operation,
    entries: Seq<EntryView>,
    from: nat,
) -> bool
    decreases entries.len() - from,
{
    if from >= entries.len() {
        true
    } else {
        match settled(world.files, root, entries[from as int]) {
            Settlement::Placed { target, destination } => all_placed(
                transferred(world, operation, entries[from as int].source_path, destination),
                root,
                operation,
                entries,
                from + 1,
            ),
            _ => false,
        }
    }
}

/// What the path `destination` holds before its last component is the folder of `group`
/// under `root`, with the separator that ends it.
pub open spec fn lies_in_folder_of(
    destination: Seq<char>,
    root: Seq<char>,
    group: GroupView,
) -> bool {
    match folder_name(group) {
        Ok(folder) => parent_prefix(destination) == joined(joined(root, folder), Seq::empty()),
        Err(_) => false,
    }
}

/// Running on is running: `first` steps and then `then` steps are `first + then` steps.
pub proof fn lemma_run_on(stage: Stage, first: nat, then: nat)
    ensures
        run(stage, first + then) == run(run(stage, first), then),
    decreases first,
{
    if first > 0 {
        lemma_run_on(advanced(stage), (first - 1) as nat, then);
    }
}

/// A batch that has ended stays as it is, however long it is run.
pub proof fn lemma_run_after_end(stage: Stage, steps: nat)
    requires
        stage.request is Finish,
    ensures
        run(stage, steps) == stage,
    decreases steps,
{
    if steps > 0 {
        lemma_run_after_end(stage, (steps - 1) as nat);
    }
}

/// Running one step more is advancing once and running from there.
proof fn lemma_run_step(stage: Stage, steps: nat)
    ensures
        run(stage, steps + 1) == run(advanced(stage), steps),
{
}

/// While alternatives are probed, the batch arrives at the first one that is free, or at
/// the target itself where none below the ceiling is.
proof fn lemma_probing(stage: Stage) -> (steps: nat)
    requires
        consistent(stage.state),
        stage.state.phase is Destination,
        stage.state.attempt >= 1,
        stage.request == RequestView::ProbeDestination(stage.state.candidate),
    ensures
        ({
            let destination = first_free(
                stage.state.target,
                stage.world.files,
                stage.state.attempt,
            );
            let end = run(stage, steps);
            &&& end.world == stage.world
            &&& end.request == RequestView::Transfer {
                operation: stage.state.operation,
                source: stage.state.entries[stage.state.cursor as int].source_path,
                destination,
            }
            &&& end.state.phase is Transfer
            &&& end.state.candidate == destination
            &&& end.state.attempt < ATTEMPT_CEILING
            &&& end.state.root == stage.state.root
            &&& end.state.operation == stage.state.operation
            &&& end.state.entries == stage.state.entries
            &&& end.state.cursor == stage.state.cursor
            &&& end.state.warnings == stage.state.warnings.push(
                WarningView::DestinationTaken { preferred: stage.state.target, used: destination },
            )
        }),
    decreases ATTEMPT_CEILING - stage.state.attempt,
{
    let state = stage.state;
    let after = advanced(stage);
    lemma_run_step(stage, 0);
    if !stage.world.files.contains(state.candidate) {
        1
    } else if state.attempt + 1 < ATTEMPT_CEILING {
        let more = lemma_probing(after);
        lemma_run_step(stage, more);
        more + 1
    } else {
        assert(first_free(state.target, stage.world.files, state.attempt + 1) == state.target);
        1
    }
}

/// The stage from which the entry under the cursor of `base` is taken up in `world`.
pub open spec fn taking_up(base: ReconcilerView, world: World) -> Stage {
    Stage { state: opened(base).0, request: opened(base).1, world }
}

/// Whether a batch in `base` can take up the entry under its cursor.
pub open spec fn at_rest(base: ReconcilerView) -> bool {
    &&& base.cursor <= base.entries.len()
    &&& base.attempt < ATTEMPT_CEILING
    &&& !(base.phase is Destination)
}

/// Dealing with one entry: the batch ends where the entry's group name is refused, and
/// otherwise arrives at the next entry, with the world and the warnings as [`settled`] says.
proof fn lemma_entry(base: ReconcilerView, world: World) -> (reached: (nat, ReconcilerView))
    requires
        at_rest(base),
        base.cursor < base.entries.len(),
    ensures
        ({
            let entry = base.entries[base.cursor as int];
            let end = run(taking_up(base, world), reached.0);
            let after = reached.1;
            match settled(world.files, base.root, entry) {
                Settlement::Refused(refusal) => {
                    &&& end.request == RequestView::Finish(Err(refusal))
                    &&& end.state.phase is Finished
                    &&& end.state.warnings == base.warnings
                    &&& end.world == world
                },
                Settlement::Skipped(warning) => {
                    &&& end == taking_up(after, world)
                    &&& after.warnings == base.warnings.push(warning)
                },
                Settlement::Placed { target, destination } => {
                    &&& end == taking_up(
                        after,
                        transferred(world, base.operation, entry.source_path, destination),
                    )
                    &&& after.warnings == if world.files.contains(target) {
                        base.warnings.push(
                            WarningView::DestinationTaken { preferred: target, used: destination },
                        )
                    } else {
                        base.warnings
                    }
                },
            }
        }),
        at_rest(reached.1),
        reached.1.cursor == base.cursor + 1,
        reached.1.root == base.root,
        reached.1.operation == base.operation,
        reached.1.entries == base.entries,
{
    let entry = base.entries[base.cursor as int];
    let source = entry.source_path;
    let stage0 = taking_up(base, world);
    let idle = ReconcilerView { cursor: base.cursor + 1, ..base };
    match folder_name(entry.group) {
        Err(refusal) => {
            (0, idle)
        },
        Ok(folder_text) => {
            let folder = joined(base.root, folder_text);
            // The folder is made sure of.
            let stage1 = advanced(stage0);
            lemma_run_step(stage0, 0);
            // The source is probed.
            let stage2 = advanced(stage1);
            lemma_run_step(stage1, 0);
            lemma_run_on(stage0, 1, 1);
            if !world.files.contains(source) {
                let after = ReconcilerView {
                    cursor: base.cursor + 1,
                    warnings: base.warnings.push(WarningView::SourceMissing(source)),
                    ..stage1.state
                };
                (2, after)
            } else {
                match base_name(source) {
                    None => {
                        let after = ReconcilerView {
                            cursor: base.cursor + 1,
                            warnings: base.warnings.push(WarningView::NoFileName(source)),
                            ..stage1.state
                        };
                        (2, after)
                    },
                    Some(name) => {
                        let target = joined(folder, name);
                        // The target is probed.
                        let stage3 = advanced(stage2);
                        lemma_run_step(stage2, 0);
                        lemma_run_on(stage0, 2, 1);
                        if !world.files.contains(target) {
                            // The file is written to the target.
                            let stage4 = advanced(stage3);
                            lemma_run_step(stage3, 0);
                            lemma_run_on(stage0, 3, 1);
                            let after = ReconcilerView {
                                cursor: base.cursor + 1,
                                ..stage3.state
                            };
                            (4, after)
                        } else {
                            // Alternatives are probed, and the file is written to the first
                            // that is free.
                            let probes = lemma_probing(stage3);
                            let stage4 = run(stage3, probes);
                            lemma_run_on(stage0, 3, probes);
                            lemma_run_step(stage4, 0);
                            lemma_run_on(stage0, 3 + probes, 1);
                            let after = ReconcilerView {
                                cursor: base.cursor + 1,
                                ..stage4.state
                            };
                            (3 + probes + 1, after)
                        }
                    },
                }
            }
        },
    }
}

/// From any entry on, a batch against a world in which every request succeeds ends after
/// finitely many requests, with the world, the warnings and the result that [`reconciled`]
/// gives.
proof fn lemma_from(base: ReconcilerView, world: World) -> (steps: nat)
    requires
        at_rest(base),
    ensures
        ({
            let end = run(taking_up(base, world), steps);
            let account = reconciled(
                world,
                base.warnings,
                base.root,
                base.operation,
                base.entries,
                base.cursor,
            );
            &&& end.request == RequestView::Finish(account.result)
            &&& end.state.phase is Finished
            &&& end.state.warnings == account.warnings
            &&& end.world == account.world
        }),
    decreases base.entries.len() - base.cursor,
{
    let stage0 = taking_up(base, world);
    if base.cursor >= base.entries.len() {
        0
    } else {
        let entry = base.entries[base.cursor as int];
        let reached = lemma_entry(base, world);
        match settled(world.files, base.root, entry) {
            Settlement::Refused(refusal) => reached.0,
            Settlement::Skipped(warning) => {
                let rest = lemma_from(reached.1, world);
                lemma_run_on(stage0, reached.0, rest);
                reached.0 + rest
            },
            Settlement::Placed { target, destination } => {
                let rest = lemma_from(
                    reached.1,
                    transferred(world, base.operation, entry.source_path, destination),
                );
                lemma_run_on(stage0, reached.0, rest);
                reached.0 + rest
            },
        }
    }
}

/// A batch against a file system in which every request succeeds ends after finitely many
/// requests. It then reports the result that [`reconciled`] gives for the manifest, has
/// recorded its warnings, and has left the files as it says.
pub proof fn lemma_batch_reconciles(
    root: Seq<char>,
    operation: Operation,
    entries: Seq<EntryView>,
    world: World,
) -> (steps: nat)
    ensures
        ({
            let begun = started(root, operation, entries);
            let end = run(Stage { state: begun.0, request: begun.1, world }, steps);
            let account = reconciled(world, Seq::empty(), root, operation, entries, 0);
            &&& end.request == RequestView::Finish(account.result)
            &&& end.state.phase is Finished
            &&& end.state.warnings == account.warnings
            &&& end.world == account.world
        }),
{
    let begun = started(root, operation, entries);
    let stage0 = Stage { state: begun.0, request: begun.1, world };
    lemma_run_step(stage0, 0);
    let rest = lemma_from(begun.0, world);
    lemma_run_on(stage0, 1, rest);
    1 + rest
}

/// The digits of a number hold no separator.
proof fn lemma_decimal_has_no_separator(n: nat)
    ensures
        forall|i: int| 0 <= i < decimal(n).len() ==> !is_separator(#[trigger] decimal(n)[i]),
    decreases n,
{
    if n >= 10 {
        lemma_decimal_has_no_separator(n / 10);
        assert(decimal(n) == decimal(n / 10).push(digit(n % 10)));
    }
}

/// A numbered name holds no separator where the name that it stands in for holds none.
proof fn lemma_numbered_name_has_no_separator(name: Seq<char>, n: nat)
    requires
        forall|i: int| 0 <= i < name.len() ==> !is_separator(#[trigger] name[i]),
    ensures
        forall|i: int|
            0 <= i < numbered_name(name, n).len() ==> !is_separator(
                #[trigger] numbered_name(name, n)[i],
            ),
{
    lemma_decimal_has_no_separator(n);
    lemma_last_dot_is_inside(name);
}

/// The last dot of a name stands inside the name.
proof fn lemma_last_dot_is_inside(name: Seq<char>)
    ensures
        -1 <= last_dot(name) < name.len(),
    decreases name.len(),
{
    if name.len() > 0 && name.last() != '.' {
        lemma_last_dot_is_inside(name.drop_last());
    }
}

/// A file that is placed goes into the folder of its group, whether under its own name or
/// under a numbered one.
pub proof fn lemma_placed_in_group_folder(files: Set<Seq<char>>, root: Seq<char>, entry: EntryView)
    requires
        settled(files, root, entry) is Placed,
    ensures
        lies_in_folder_of(settled(files, root, entry)->destination, root, entry.group),
{
    let folder = joined(root, folder_name(entry.group)->Ok_0);
    let name = base_name(entry.source_path)->Some_0;
    let target = joined(folder, name);
    let destination = settled(files, root, entry)->destination;
    lemma_last_component(entry.source_path);
    lemma_joined_ends_in_name(folder, name);
    if destination != target {
        lemma_unique_path_is_lowest_free(target, files);
        if exists|n: nat|
            1 <= n < ATTEMPT_CEILING && !files.contains(#[trigger] numbered_path(target, n)) {
            let n = choose|n: nat|
                {
                    &&& 1 <= n < ATTEMPT_CEILING
                    &&& unique_path(target, files) == #[trigger] numbered_path(target, n)
                    &&& !files.contains(numbered_path(target, n))
                    &&& forall|m: nat|
                        1 <= m < n ==> files.contains(#[trigger] numbered_path(target, m))
                };
            lemma_numbered_stays_in_folder(folder, name, n);
            lemma_numbered_name_has_no_separator(name, n);
            lemma_joined_ends_in_name(folder, numbered_name(name, n));
        }
    }
}

/// An entry whose source does not exist changes nothing in the world and places no file; a
/// warning is recorded, and the entries behind it are dealt with as if it were not there.
pub proof fn lemma_missing_source_is_skipped(
    world: World,
    warnings: Seq<WarningView>,
    root: Seq<char>,
    operation: Operation,
    entries: Seq<EntryView>,
    from: nat,
)
    requires
        from < entries.len(),
        folder_name(entries[from as int].group) is Ok,
        !world.files.contains(entries[from as int].source_path),
    ensures
        reconciled(world, warnings, root, operation, entries, from) == reconciled(
            world,
            warnings.push(WarningView::SourceMissing(entries[from as int].source_path)),
            root,
            operation,
            entries,
            from + 1,
        ),
{
}

/// Where the destination of an entry is taken and a numbered alternative below the ceiling
/// is free, the file is written under the lowest such number, in the same folder, to a path
/// at which nothing existed. Nothing is overwritten: every file that existed still exists,
/// but for the source of a move.
pub proof fn lemma_taken_destination_is_numbered(
    world: World,
    root: Seq<char>,
    operation: Operation,
    entry: EntryView,
)
    requires
        settled(world.files, root, entry) is Placed,
        world.files.contains(settled(world.files, root, entry)->target),
        exists|n: nat|
            1 <= n < ATTEMPT_CEILING && !world.files.contains(
                #[trigger] numbered_path(settled(world.files, root, entry)->target, n),
            ),
    ensures
        ({
            let target = settled(world.files, root, entry)->target;
            let destination = settled(world.files, root, entry)->destination;
            let after = transferred(world, operation, entry.source_path, destination);
            &&& exists|n: nat|
                {
                    &&& 1 <= n < ATTEMPT_CEILING
                    &&& destination == #[trigger] numbered_path(target, n)
                    &&& forall|m: nat|
                        1 <= m < n ==> world.files.contains(#[trigger] numbered_path(target, m))
                }
            &&& !world.files.contains(destination)
            &&& destination != target
            &&& lies_in_folder_of(destination, root, entry.group)
            &&& after.files.contains(destination)
            &&& forall|path: Seq<char>|
                world.files.contains(path) && (operation is Copy || path != entry.source_path)
                    ==> #[trigger] after.files.contains(path)
        }),
{
    let target = settled(world.files, root, entry)->target;
    lemma_unique_path_is_lowest_free(target, world.files);
    lemma_placed_in_group_folder(world.files, root, entry);
}

/// A file that is written to a destination at which nothing existed overwrites nothing:
/// every file that existed still exists, but for the source of a move.
pub proof fn lemma_free_destination_keeps_files(
    world: World,
    operation: Operation,
    source: Seq<char>,
    destination: Seq<char>,
)
    requires
        !world.files.contains(destination),
    ensures
        transferred(world, operation, source, destination).files.contains(destination),
        forall|path: Seq<char>|
            world.files.contains(path) && (operation is Copy || path != source)
                ==> #[trigger] transferred(world, operation, source, destination).files.contains(
                path,
            ),
{
}

/// Where every entry from `from` on has its file placed, the batch ends well and has placed
/// one file for each of them, in manifest order: each from the source that its entry names
/// into the folder of its entry's group. What was placed before stays as it was.
pub proof fn lemma_every_entry_is_placed(
    world: World,
    warnings: Seq<WarningView>,
    root: Seq<char>,
    operation: Operation,
    entries: Seq<EntryView>,
    from: nat,
)
    requires
        from <= entries.len(),
        all_placed(world, root, operation, entries, from),
    ensures
        ({
            let account = reconciled(world, warnings, root, operation, entries, from);
            let before = world.placements.len();
            &&& account.result is Ok
            &&& account.world.placements.len() == before + entries.len() - from
            &&& forall|i: int|
                0 <= i < before ==> #[trigger] account.world.placements[i] == world.placements[i]
            &&& forall|k: int|
                from <= k < entries.len() ==> {
                    &&& (#[trigger] account.world.placements[before + k - from]).source
                        == entries[k].source_path
                    &&& lies_in_folder_of(
                        account.world.placements[before + k - from].destination,
                        root,
                        entries[k].group,
                    )
                }
        }),
    decreases entries.len() - from,
{
    if from < entries.len() {
        let entry = entries[from as int];
        let outcome = settled(world.files, root, entry);
        let target = outcome->target;
        let destination = outcome->destination;
        let later = transferred(world, operation, entry.source_path, destination);
        let noted = if world.files.contains(target) {
            warnings.push(WarningView::DestinationTaken { preferred: target, used: destination })
        } else {
            warnings
        };
        lemma_placed_in_group_folder(world.files, root, entry);
        lemma_every_entry_is_placed(later, noted, root, operation, entries, from + 1);
        let account = reconciled(world, warnings, root, operation, entries, from);
        let before = world.placements.len();
        assert forall|k: int| from <= k < entries.len() implies {
            &&& (#[trigger] account.world.placements[before + k - from]).source
                == entries[k].source_path
            &&& lies_in_folder_of(
                account.world.placements[before + k - from].destination,
                root,
                entries[k].group,
            )
        } by {
            if k > from {
                assert(before + k - from == later.placements.len() + k - (from + 1));
            }
        }
    }
}

/// Whether every entry from `from` on names a group whose folder name is accepted and a
/// source that names a file and exists in `files`.
pub open spec fn all_present(files: Set<Seq<char>>, entries: Seq<EntryView>, from: nat) -> bool {
    forall|k: int|
        from <= k < entries.len() ==> {
            &&& folder_name((#[trigger] entries[k]).group) is Ok
            &&& base_name(entries[k].source_path) is Some
            &&& files.contains(entries[k].source_path)
        }
}

/// Whether no two entries from `from` on name the same source.
pub open spec fn sources_differ(entries: Seq<EntryView>, from: nat) -> bool {
    forall|i: int, j: int|
        from <= i < j < entries.len() ==> (#[trigger] entries[i]).source_path != (
        #[trigger] entries[j]).source_path
}

/// Where every entry is well formed and its source exists when the batch begins, every
/// entry has its file placed. A copy takes no file away; for a move, the sources have to
/// differ from one another, since a source that was moved is no longer there.
pub proof fn lemma_present_sources_are_placed(
    world: World,
    root: Seq<char>,
    operation: Operation,
    entries: Seq<EntryView>,
    from: nat,
)
    requires
        all_present(world.files, entries, from),
        operation is Move ==> sources_differ(entries, from),
    ensures
        all_placed(world, root, operation, entries, from),
    decreases entries.len() - from,
{
    if from < entries.len() {
        let entry = entries[from as int];
        let destination = settled(world.files, root, entry)->destination;
        let later = transferred(world, operation, entry.source_path, destination);
        lemma_present_sources_are_placed(later, root, operation, entries, from + 1);
    }
}

/// Whether every entry from `from` on has its file placed at a path at which nothing exists
/// when the entry is reached.
pub open spec fn all_placed_afresh(
    world: World,
    root: Seq<char>,
    operation: Operation,
    entries: Seq<EntryView>,
    from: nat,
) -> bool
    decreases entries.len() - from,
{
    if from >= entries.len() {
        true
    } else {
        match settled(world.files, root, entries[from as int]) {
            Settlement::Placed { target, destination } => {
                &&& !world.files.contains(destination)
                &&& all_placed_afresh(
                    transferred(world, operation, entries[from as int].source_path, destination),
                    root,
                    operation,
                    entries,
                    from + 1,
                )
            },
            _ => false,
        }
    }
}

/// Where every file is placed at a path at which nothing existed, no file is lost: a batch
/// of copies leaves one file more for each entry, all that existed before among them, and a
/// batch of moves leaves as many files as there were.
pub proof fn lemma_files_are_conserved(
    world: World,
    warnings: Seq<WarningView>,
    root: Seq<char>,
    operation: Operation,
    entries: Seq<EntryView>,
    from: nat,
)
    requires
        world.files.finite(),
        from <= entries.len(),
        all_placed_afresh(world, root, operation, entries, from),
    ensures
        ({
            let account = reconciled(world, warnings, root, operation, entries, from);
            &&& account.world.files.finite()
            &&& operation is Copy ==> account.world.files.len() == world.files.len()
                + entries.len() - from
            &&& operation is Copy ==> world.files.subset_of(account.world.files)
            &&& operation is Move ==> account.world.files.len() == world.files.len()
        }),
    decreases entries.len() - from,
{
    if from < entries.len() {
        let entry = entries[from as int];
        let outcome = settled(world.files, root, entry);
        let target = outcome->target;
        let destination = outcome->destination;
        let later = transferred(world, operation, entry.source_path, destination);
        let noted = if world.files.contains(target) {
            warnings.push(WarningView::DestinationTaken { preferred: target, used: destination })
        } else {
            warnings
        };
        lemma_files_are_conserved(later, noted, root, operation, entries, from + 1);
    }
}

/// A file is placed at a path at which nothing exists whenever its target is free or a
/// numbered alternative below the ceiling is: only where all of them are taken is the target
/// written over.
pub proof fn lemma_placed_afresh_below_ceiling(
    files: Set<Seq<char>>,
    root: Seq<char>,
    entry: EntryView,
)
    requires
        settled(files, root, entry) is Placed,
    ensures
        ({
            let target = settled(files, root, entry)->target;
            let destination = settled(files, root, entry)->destination;
            files.contains(destination) <==> {
                &&& destination == target
                &&& files.contains(target)
                &&& forall|n: nat|
                    1 <= n < ATTEMPT_CEILING ==> files.contains(#[trigger] numbered_path(target, n))
            }
        }),
{
    let target = settled(files, root, entry)->target;
    lemma_unique_path_is_lowest_free(target, files);
}

/// Where two entries in a row have the same target, the second file is written under a
/// numbered name, and both files are there afterwards under different paths. This holds
/// where a numbered alternative below the ceiling is free and, for a move, where the two
/// entries stand for different files: the first does not move the file that is at the
/// target, and the second does not move the file that the first has placed.
pub proof fn lemma_second_of_a_target_is_numbered(
    world: World,
    root: Seq<char>,
    operation: Operation,
    first: EntryView,
    second: EntryView,
)
    requires
        settled(world.files, root, first) is Placed,
        ({
            let placed = settled(world.files, root, first);
            let between = transferred(world, operation, first.source_path, placed->destination);
            let again = settled(between.files, root, second);
            &&& again is Placed
            &&& again->target == placed->target
            &&& exists|n: nat|
                1 <= n < ATTEMPT_CEILING && !between.files.contains(
                    #[trigger] numbered_path(placed->target, n),
                )
            &&& operation is Move ==> first.source_path != placed->target && second.source_path
                != placed->destination
        }),
    ensures
        ({
            let placed = settled(world.files, root, first);
            let between = transferred(world, operation, first.source_path, placed->destination);
            let again = settled(between.files, root, second);
            let after = transferred(between, operation, second.source_path, again->destination);
            &&& exists|n: nat|
                1 <= n < ATTEMPT_CEILING && again->destination == #[trigger] numbered_path(
                    placed->target,
                    n,
                )
            &&& again->destination != placed->target
            &&& again->destination != placed->destination
            &&& !between.files.contains(again->destination)
            &&& after.files.contains(placed->destination)
            &&& after.files.contains(again->destination)
        }),
{
    let placed = settled(world.files, root, first);
    let between = transferred(world, operation, first.source_path, placed->destination);
    lemma_taken_destination_is_numbered(between, root, operation, second);
}

} // verus!
