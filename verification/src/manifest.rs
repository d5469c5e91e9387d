//! The manifest: which source file belongs to which group.
//!
//! A manifest is a JSON array of objects. Each object has a string `source_path` and names
//! its group either by an integer `group_label` or by a string `group_name`; where an object
//! has both, the label counts. Other members are ignored. The order of the entries is kept.
use crate::error::{Error, ErrorView, SchemaFailure, text_outcome_view};
use crate::json::{json_as_array, json_as_i64, json_as_str, json_get, parse_json};
use crate::json::{json_document, json_elements, json_integer, json_member, json_text};
use crate::path::{join, joined};
use vstd::prelude::*;

verus! {

/// The group that a file is assigned to.
#[derive(Clone, Debug, PartialEq, Eq)]
pub enum Group {
    /// A numbered group.
    Label(i32),
    /// A named group.
    Name(String),
}

/// The mathematical value of a [`Group`].
pub enum GroupView {
    Label(i32),
    Name(Seq<char>),
}

impl View for Group {
    type V = GroupView;

    open spec fn view(&self) -> GroupView {
        match *self {
            Group::Label(label) => GroupView::Label(label),
            Group::Name(name) => GroupView::Name(name@),
        }
    }
}

/// One assignment of a source file to a group.
#[derive(Clone, Debug, PartialEq, Eq)]
pub struct ManifestEntry {
    /// The path of the file, absolute or relative.
    pub source_path: String,
    /// The group it belongs to.
    pub group: Group,
}

/// The mathematical value of a [`ManifestEntry`].
pub struct EntryView {
    pub source_path: Seq<char>,
    pub group: GroupView,
}

impl View for ManifestEntry {
    type V = EntryView;

    open spec fn view(&self) -> EntryView {
        EntryView { source_path: self.source_path@, group: self.group@ }
    }
}

/// The mathematical values of `entries`, in order.
pub open spec fn entry_views(entries: Seq<ManifestEntry>) -> Seq<EntryView> {
    entries.map_values(|entry: ManifestEntry| entry@)
}

/// What one element of the manifest array holds under the names that the schema knows: each
/// member is there only if the element is an object that has it with the type asked for.
#[derive(Clone, Debug, PartialEq, Eq)]
pub struct RawEntry {
    /// The string under `source_path`.
    pub source_path: Option<String>,
    /// The integer under `group_label`.
    pub group_label: Option<i64>,
    /// The string under `group_name`.
    pub group_name: Option<String>,
}

/// The mathematical value of a [`RawEntry`].
pub struct RawEntryView {
    pub source_path: Option<Seq<char>>,
    pub group_label: Option<i64>,
    pub group_name: Option<Seq<char>>,
}

/// The text that `text` holds, if it holds one.
pub open spec fn text_view(text: Option<String>) -> Option<Seq<char>> {
    match text {
        Some(t) => Some(t@),
        None => None,
    }
}

impl View for RawEntry {
    type V = RawEntryView;

    open spec fn view(&self) -> RawEntryView {
        RawEntryView {
            source_path: text_view(self.source_path),
            group_label: self.group_label,
            group_name: text_view(self.group_name),
        }
    }
}

/// What became of the attempt to read the manifest file.
#[derive(Clone, Debug, PartialEq, Eq)]
pub enum ReadOutcome {
    /// There is no file at the location.
    Missing,
    /// The file is there and could not be read; the text is what the system reported.
    Failed(String),
    /// The file holds this text.
    Text(String),
}

/// The mathematical value of a [`ReadOutcome`].
pub enum ReadOutcomeView {
    Missing,
    Failed(Seq<char>),
    Text(Seq<char>),
}

impl View for ReadOutcome {
    type V = ReadOutcomeView;

    open spec fn view(&self) -> ReadOutcomeView {
        match *self {
            ReadOutcome::Missing => ReadOutcomeView::Missing,
            ReadOutcome::Failed(detail) => ReadOutcomeView::Failed(detail@),
            ReadOutcome::Text(text) => ReadOutcomeView::Text(text@),
        }
    }
}

/// The text under `key` in `item`, where `item` is an object that has a string there.
pub open spec fn member_text(item: serde_json::Value, key: Seq<char>) -> Option<Seq<char>> {
    match json_member(item, key) {
        Some(member) => json_text(member),
        None => None,
    }
}

/// The integer under `key` in `item`, where `item` is an object that has one there.
pub open spec fn member_integer(item: serde_json::Value, key: Seq<char>) -> Option<i64> {
    match json_member(item, key) {
        Some(member) => json_integer(member),
        None => None,
    }
}

/// What `item` holds under the names that the schema knows.
pub open spec fn raw_entry_of(item: serde_json::Value) -> RawEntryView {
    RawEntryView {
        source_path: member_text(item, "source_path"@),
        group_label: member_integer(item, "group_label"@),
        group_name: member_text(item, "group_name"@),
    }
}

/// The entry that `raw` stands for at position `index` of the manifest, or the reason for
/// which it stands for none: it needs a source path, and a label that fits in 32 bits or,
/// without any label, a name.
pub open spec fn checked_entry(raw: RawEntryView, index: int) -> Result<EntryView, ErrorView> {
    match raw.source_path {
        None => Err(ErrorView::Schema(SchemaFailure::MissingSourcePath(index as usize))),
        Some(source_path) => match raw.group_label {
            Some(label) => if i32::MIN <= label <= i32::MAX {
                Ok(EntryView { source_path, group: GroupView::Label(label as i32) })
            } else {
                Err(ErrorView::Schema(SchemaFailure::LabelOutOfRange(index as usize)))
            },
            None => match raw.group_name {
                Some(name) => Ok(EntryView { source_path, group: GroupView::Name(name) }),
                None => Err(ErrorView::Schema(SchemaFailure::MissingGroup(index as usize))),
            },
        },
    }
}

/// The entries that the first `count` of `items` stand for, or the failure of the first
/// among them that stands for none.
pub open spec fn entries_among(items: Seq<serde_json::Value>, count: nat) -> Result<
    Seq<EntryView>,
    ErrorView,
>
    decreases count,
{
    if count == 0 {
        Ok(Seq::empty())
    } else {
        match entries_among(items, (count - 1) as nat) {
            Err(failure) => Err(failure),
            Ok(entries) => match checked_entry(raw_entry_of(items[count - 1]), count - 1) {
                Ok(entry) => Ok(entries.push(entry)),
                Err(failure) => Err(failure),
            },
        }
    }
}

/// The manifest that the JSON value `document` is, or the reason for which it is none.
pub open spec fn manifest_of(document: serde_json::Value) -> Result<Seq<EntryView>, ErrorView> {
    match json_elements(document) {
        Some(items) => entries_among(items, items.len()),
        None => Err(ErrorView::Schema(SchemaFailure::NotAnArray)),
    }
}

/// The manifest that `text` is, or the reason for which it is none.
pub open spec fn manifest_in(text: Seq<char>) -> Result<Seq<EntryView>, ErrorView> {
    match json_document(text) {
        Some(document) => manifest_of(document),
        None => Err(ErrorView::Schema(SchemaFailure::Syntax)),
    }
}

/// What reading the manifest at `location` comes to, given what became of reading the file.
pub open spec fn manifest_read(location: Seq<char>, outcome: ReadOutcomeView) -> Result<
    Seq<EntryView>,
    ErrorView,
> {
    match outcome {
        ReadOutcomeView::Missing => Err(ErrorView::PathNotFound(location)),
        ReadOutcomeView::Failed(detail) => Err(ErrorView::Io { path: location, detail }),
        ReadOutcomeView::Text(text) => manifest_in(text),
    }
}

/// The mathematical value of the result of reading a manifest.
pub open spec fn manifest_view(result: Result<Vec<ManifestEntry>, Error>) -> Result<
    Seq<EntryView>,
    ErrorView,
> {
    match result {
        Ok(entries) => Ok(entry_views(entries@)),
        Err(failure) => Err(failure@),
    }
}

/// The mathematical value of the result of checking one entry.
pub open spec fn checked_view(result: Result<ManifestEntry, Error>) -> Result<
    EntryView,
    ErrorView,
> {
    match result {
        Ok(entry) => Ok(entry@),
        Err(failure) => Err(failure@),
    }
}

/// Where the manifest is, given the application-data directory or the reason for which the
/// host could not name it.
pub open spec fn manifest_location(app_data_root: Result<Seq<char>, Seq<char>>) -> Result<
    Seq<char>,
    ErrorView,
> {
    match app_data_root {
        Ok(root) => Ok(joined(root, "Organization_Structure.json"@)),
        Err(detail) => Err(ErrorView::Environment(detail)),
    }
}

/// The mathematical value of what the host said of the application-data directory.
pub open spec fn root_view(app_data_root: Result<String, String>) -> Result<
    Seq<char>,
    Seq<char>,
> {
    match app_data_root {
        Ok(root) => Ok(root@),
        Err(detail) => Err(detail@),
    }
}

/// The name of the manifest file.
pub fn manifest_file_name() -> (name: &'static str)
    ensures
        name@ == "Organization_Structure.json"@,
{
    "Organization_Structure.json"
}

/// The location of the manifest under the application-data directory `app_data_root`.
pub fn expected_path(app_data_root: &str) -> (location: String)
    ensures
        location@ == joined(app_data_root@, "Organization_Structure.json"@),
{
    join(app_data_root, manifest_file_name())
}

/// The location of the manifest, given the application-data directory as the host resolved
/// it, or the environment failure where the host could not.
pub fn locate_manifest(app_data_root: Result<String, String>) -> (located: Result<String, Error>)
    ensures
        text_outcome_view(located) == manifest_location(root_view(app_data_root)),
{
    match app_data_root {
        Ok(root) => Ok(expected_path(root.as_str())),
        Err(detail) => Err(Error::Environment(detail)),
    }
}

fn text_member(item: &serde_json::Value, key: &str) -> (text: Option<String>)
    ensures
        text_view(text) == member_text(*item, key@),
{
    match json_get(item, key) {
        Some(member) => match json_as_str(member) {
            Some(t) => Some(t.to_owned()),
            None => None,
        },
        None => None,
    }
}

fn integer_member(item: &serde_json::Value, key: &str) -> (number: Option<i64>)
    ensures
        number == member_integer(*item, key@),
{
    match json_get(item, key) {
        Some(member) => json_as_i64(member),
        None => None,
    }
}

/// Reads from one element of the manifest array what the schema knows.
pub fn read_raw_entry(item: &serde_json::Value) -> (raw: RawEntry)
    ensures
        raw@ == raw_entry_of(*item),
{
    RawEntry {
        source_path: text_member(item, "source_path"),
        group_label: integer_member(item, "group_label"),
        group_name: text_member(item, "group_name"),
    }
}

/// The entry that `raw` stands for at position `index` of the manifest, or the schema
/// failure that tells what it lacks.
pub fn entry_from_raw(raw: RawEntry, index: usize) -> (checked: Result<ManifestEntry, Error>)
    ensures
        checked_view(checked) == checked_entry(raw@, index as int),
{
    match raw.source_path {
        None => Err(Error::Schema(SchemaFailure::MissingSourcePath(index))),
        Some(source_path) => match raw.group_label {
            Some(label) => if -2147483648 <= label && label <= 2147483647 {
                Ok(ManifestEntry { source_path, group: Group::Label(label as i32) })
            } else {
                Err(Error::Schema(SchemaFailure::LabelOutOfRange(index)))
            },
            None => match raw.group_name {
                Some(name) => Ok(ManifestEntry { source_path, group: Group::Name(name) }),
                None => Err(Error::Schema(SchemaFailure::MissingGroup(index))),
            },
        },
    }
}

/// The manifest that the JSON value `document` is: its entries in order, or the failure of
/// the first element that is no entry.
pub fn entries_from_json(document: &serde_json::Value) -> (result: Result<
    Vec<ManifestEntry>,
    Error,
>)
    ensures
        manifest_view(result) == manifest_of(*document),
{
    match json_as_array(document) {
        None => Err(Error::Schema(SchemaFailure::NotAnArray)),
        Some(items) => {
            let mut entries: Vec<ManifestEntry> = Vec::new();
            let mut i: usize = 0;
            assert(entry_views(entries@) == Seq::<EntryView>::empty());
            while i < items.len()
                invariant
                    i <= items.len(),
                    json_elements(*document) == Some(items@),
                    entries_among(items@, i as nat) == Ok::<Seq<EntryView>, ErrorView>(
                        entry_views(entries@),
                    ),
                decreases items.len() - i,
            {
                let ghost before = entry_views(entries@);
                match entry_from_raw(read_raw_entry(&items[i]), i) {
                    Ok(entry) => {
                        entries.push(entry);
                        assert(entry_views(entries@) == before.push(entry@));
                    },
                    Err(failure) => {
                        proof {
                            lemma_failure_stays(items@, (i + 1) as nat, items@.len());
                        }
                        return Err(failure);
                    },
                }
                i += 1;
            }
            Ok(entries)
        },
    }
}

/// The manifest that `text` is: its entries in order, or the schema failure that tells why
/// it is none.
pub fn parse_manifest(text: &str) -> (result: Result<Vec<ManifestEntry>, Error>)
    ensures
        manifest_view(result) == manifest_in(text@),
{
    match parse_json(text) {
        Some(document) => entries_from_json(&document),
        None => Err(Error::Schema(SchemaFailure::Syntax)),
    }
}

/// What reading the manifest at `location` comes to, given what became of reading the file:
/// a missing file, an unreadable file and a malformed manifest are told apart.
pub fn manifest_from_read(location: &str, outcome: ReadOutcome) -> (result: Result<
    Vec<ManifestEntry>,
    Error,
>)
    ensures
        manifest_view(result) == manifest_read(location@, outcome@),
{
    match outcome {
        ReadOutcome::Missing => Err(Error::PathNotFound(location.to_owned())),
        ReadOutcome::Failed(detail) => Err(Error::Io { path: location.to_owned(), detail }),
        ReadOutcome::Text(text) => parse_manifest(text.as_str()),
    }
}

/// Once an element is no entry, looking at more elements reports the same failure.
proof fn lemma_failure_stays(items: Seq<serde_json::Value>, count: nat, more: nat)
    requires
        count <= more,
        entries_among(items, count) is Err,
    ensures
        entries_among(items, more) == entries_among(items, count),
    decreases more,
{
    if count < more {
        lemma_failure_stays(items, count, (more - 1) as nat);
    }
}

/// What a manifest comes to, entry by entry: it is read in full exactly when every element
/// stands for an entry, and each entry is then the one at its position; otherwise the
/// failure is that of the first element that stands for none.
pub proof fn lemma_entries_among(items: Seq<serde_json::Value>, count: nat)
    ensures
        match entries_among(items, count) {
            Ok(entries) => {
                &&& entries.len() == count
                &&& forall|i: int|
                    0 <= i < count ==> checked_entry(raw_entry_of(#[trigger] items[i]), i) == Ok::<
                        EntryView,
                        ErrorView,
                    >(entries[i])
            },
            Err(failure) => exists|k: int|
                {
                    &&& 0 <= k < count
                    &&& checked_entry(raw_entry_of(#[trigger] items[k]), k) == Err::<
                        EntryView,
                        ErrorView,
                    >(failure)
                    &&& forall|j: int|
                        0 <= j < k ==> checked_entry(raw_entry_of(#[trigger] items[j]), j) is Ok
                },
        },
    decreases count,
{
    if count > 0 {
        lemma_entries_among(items, (count - 1) as nat);
    }
}

} // verus!
