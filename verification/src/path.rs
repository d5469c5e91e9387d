//! Paths as text: components, file names, extensions, and the numbered names that stand in
//! for a name that is taken.
//!
//! A path is a sequence of characters in which `/` and `\` separate components. Nothing here
//! looks at a file system.
use crate::text::{chars_of, push_all, push_decimal, string_of};
use crate::text::decimal;
use vstd::prelude::*;

verus! {

/// One more than the highest number that is tried in place of a name that is taken.
pub const ATTEMPT_CEILING: u32 = 1000;

/// Whether `c` separates the components of a path.
pub open spec fn is_separator(c: char) -> bool {
    c == '/' || c == '\\'
}

/// Where the last component of `path` begins: behind its last separator, or at the start.
pub open spec fn last_component_start(path: Seq<char>) -> int
    decreases path.len(),
{
    if path.len() == 0 {
        0
    } else if is_separator(path.last()) {
        path.len() as int
    } else {
        last_component_start(path.drop_last())
    }
}

/// What `path` holds before its last component, the separator included.
pub open spec fn parent_prefix(path: Seq<char>) -> Seq<char> {
    path.take(last_component_start(path))
}

/// What `path` holds behind its last separator.
pub open spec fn last_component(path: Seq<char>) -> Seq<char> {
    path.skip(last_component_start(path))
}

/// The name of the file that `path` leads to: its last component, unless that is empty or
/// stands for a folder (`.` or `..`).
pub open spec fn base_name(path: Seq<char>) -> Option<Seq<char>> {
    let name = last_component(path);
    if name.len() == 0 || name == seq!['.'] || name == seq!['.', '.'] {
        None
    } else {
        Some(name)
    }
}

/// The position of the last dot in `name`, or -1 where it has none.
pub open spec fn last_dot(name: Seq<char>) -> int
    decreases name.len(),
{
    if name.len() == 0 {
        -1
    } else if name.last() == '.' {
        name.len() - 1
    } else {
        last_dot(name.drop_last())
    }
}

/// Whether `name` ends in an extension: it has a dot that is not its first character, and it
/// is not the name `..`.
pub open spec fn has_extension(name: Seq<char>) -> bool {
    last_dot(name) > 0 && name != seq!['.', '.']
}

/// `name` without its extension and the dot before it.
pub open spec fn stem(name: Seq<char>) -> Seq<char> {
    if has_extension(name) {
        name.take(last_dot(name))
    } else {
        name
    }
}

/// What follows the last dot of `name`, where it has an extension.
pub open spec fn extension(name: Seq<char>) -> Option<Seq<char>> {
    if has_extension(name) {
        Some(name.skip(last_dot(name) + 1))
    } else {
        None
    }
}

/// The name that is tried in place of `name` at attempt `n`: the stem, an underscore, the
/// number, and the extension as it was.
pub open spec fn numbered_name(name: Seq<char>, n: nat) -> Seq<char> {
    stem(name) + seq!['_'] + decimal(n) + match extension(name) {
        Some(ext) => seq!['.'] + ext,
        None => Seq::empty(),
    }
}

/// `path` with its last component numbered `n`.
pub open spec fn numbered_path(path: Seq<char>, n: nat) -> Seq<char> {
    parent_prefix(path) + numbered_name(last_component(path), n)
}

/// The path of `name` inside `folder`: one `/` is put between them unless `folder` is empty
/// or ends in a separator.
pub open spec fn joined(folder: Seq<char>, name: Seq<char>) -> Seq<char> {
    if folder.len() == 0 {
        name
    } else if is_separator(folder.last()) {
        folder + name
    } else {
        folder + seq!['/'] + name
    }
}

/// The first of the paths `numbered_path(original, from)`, `numbered_path(original, from + 1)`,
/// up to the ceiling, that `occupied` does not hold; `original` itself where it holds them
/// all.
pub open spec fn first_free(original: Seq<char>, occupied: Set<Seq<char>>, from: nat) -> Seq<
    char,
>
    decreases ATTEMPT_CEILING - from,
{
    if from >= ATTEMPT_CEILING {
        original
    } else if !occupied.contains(numbered_path(original, from)) {
        numbered_path(original, from)
    } else {
        first_free(original, occupied, from + 1)
    }
}

/// The path to use in place of `original`, which is taken: the lowest-numbered alternative
/// that `occupied` does not hold, or `original` where every number below the ceiling is taken.
pub open spec fn unique_path(original: Seq<char>, occupied: Set<Seq<char>>) -> Seq<char> {
    first_free(original, occupied, 1)
}

/// The paths that `listed` holds.
pub open spec fn path_set(listed: Seq<String>) -> Set<Seq<char>> {
    Set::new(
        |path: Seq<char>| exists|i: int| 0 <= i < listed.len() && #[trigger] listed[i]@ == path,
    )
}

/// Whether `c` separates the components of a path.
pub fn separates(c: char) -> (yes: bool)
    ensures
        yes == is_separator(c),
{
    c == '/' || c == '\\'
}

fn component_start(path: &[char]) -> (start: usize)
    ensures
        start == last_component_start(path@),
        start <= path.len(),
{
    let mut i: usize = path.len();
    assert(path@.take(i as int) == path@);
    while i > 0
        invariant
            i <= path.len(),
            last_component_start(path@) == last_component_start(path@.take(i as int)),
        decreases i,
    {
        if separates(path[i - 1]) {
            return i;
        }
        assert(path@.take(i as int).drop_last() == path@.take(i - 1));
        i -= 1;
    }
    0
}

fn dot_position(name: &[char]) -> (found: Option<usize>)
    ensures
        match found {
            Some(at) => at == last_dot(name@) && at < name.len(),
            None => last_dot(name@) == -1,
        },
{
    let mut i: usize = name.len();
    assert(name@.take(i as int) == name@);
    while i > 0
        invariant
            i <= name.len(),
            last_dot(name@) == last_dot(name@.take(i as int)),
        decreases i,
    {
        if name[i - 1] == '.' {
            return Some(i - 1);
        }
        assert(name@.take(i as int).drop_last() == name@.take(i - 1));
        i -= 1;
    }
    None
}

/// Where the extension of `name` begins, if it has one: the position of its last dot.
fn extension_dot(name: &[char]) -> (found: Option<usize>)
    ensures
        match found {
            Some(at) => has_extension(name@) && at == last_dot(name@) && 0 < at < name.len(),
            None => !has_extension(name@),
        },
{
    if name.len() == 2 && name[0] == '.' && name[1] == '.' {
        assert(name@ == seq!['.', '.']);
        return None;
    }
    match dot_position(name) {
        Some(at) => if at > 0 {
            assert(name@ != seq!['.', '.']);
            Some(at)
        } else {
            None
        },
        None => None,
    }
}

fn copy_range(chars: &[char], from: usize, to: usize) -> (out: Vec<char>)
    requires
        from <= to <= chars.len(),
    ensures
        out@ == chars@.subrange(from as int, to as int),
{
    let mut out: Vec<char> = Vec::new();
    let mut i: usize = from;
    while i < to
        invariant
            from <= i <= to <= chars.len(),
            out@ == chars@.subrange(from as int, i as int),
        decreases to - i,
    {
        out.push(chars[i]);
        i += 1;
    }
    out
}

/// The name of the file that `path` leads to, if it names one.
pub fn file_name(path: &str) -> (name: Option<String>)
    ensures
        match name {
            Some(text) => base_name(path@) == Some(text@),
            None => base_name(path@) is None,
        },
{
    let chars = chars_of(path);
    let start = component_start(chars.as_slice());
    let name = copy_range(chars.as_slice(), start, chars.len());
    let folder_like = name.len() == 0 || (name.len() == 1 && name[0] == '.') || (name.len() == 2
        && name[0] == '.' && name[1] == '.');
    proof {
        if name.len() == 1 && name[0] == '.' {
            assert(name@ == seq!['.']);
        }
        if name.len() == 2 && name[0] == '.' && name[1] == '.' {
            assert(name@ == seq!['.', '.']);
        }
    }
    if folder_like {
        None
    } else {
        Some(string_of(name.as_slice()))
    }
}

/// The extension of the file name `name`, if it has one.
pub fn extension_of(name: &str) -> (found: Option<String>)
    ensures
        match found {
            Some(text) => extension(name@) == Some(text@),
            None => extension(name@) is None,
        },
{
    let chars = chars_of(name);
    match extension_dot(chars.as_slice()) {
        Some(at) => {
            let ext = copy_range(chars.as_slice(), at + 1, chars.len());
            Some(string_of(ext.as_slice()))
        },
        None => None,
    }
}

/// The path of `name` inside `folder`.
pub fn join(folder: &str, name: &str) -> (path: String)
    ensures
        path@ == joined(folder@, name@),
{
    let mut out = chars_of(folder);
    let tail = chars_of(name);
    if out.len() > 0 && !separates(out[out.len() - 1]) {
        out.push('/');
    }
    push_all(&mut out, tail.as_slice());
    string_of(out.as_slice())
}

/// `path` with its last component numbered `n`: `dir/name.ext` gives `dir/name_1.ext` for 1.
pub fn numbered(path: &str, n: u32) -> (alternative: String)
    ensures
        alternative@ == numbered_path(path@, n as nat),
{
    let chars = chars_of(path);
    let start = component_start(chars.as_slice());
    let name = copy_range(chars.as_slice(), start, chars.len());
    let mut out = copy_range(chars.as_slice(), 0, start);
    match extension_dot(name.as_slice()) {
        Some(at) => {
            let head = copy_range(name.as_slice(), 0, at);
            let ext = copy_range(name.as_slice(), at + 1, name.len());
            push_all(&mut out, head.as_slice());
            out.push('_');
            push_decimal(&mut out, n as u64);
            out.push('.');
            push_all(&mut out, ext.as_slice());
        },
        None => {
            push_all(&mut out, name.as_slice());
            out.push('_');
            push_decimal(&mut out, n as u64);
        },
    }
    string_of(out.as_slice())
}

fn holds(listed: &Vec<String>, path: &String) -> (found: bool)
    ensures
        found == path_set(listed@).contains(path@),
{
    let mut i: usize = 0;
    while i < listed.len()
        invariant
            i <= listed.len(),
            forall|j: int| 0 <= j < i ==> listed@[j]@ != path@,
        decreases listed.len() - i,
    {
        if listed[i] == *path {
            return true;
        }
        i += 1;
    }
    false
}

/// The path to use in place of `original`, which is taken, given the paths that are occupied:
/// the lowest-numbered alternative that is free, or `original` itself where none below the
/// ceiling is.
pub fn generate_unique_filename(original: &str, occupied: &Vec<String>) -> (free: String)
    ensures
        free@ == unique_path(original@, path_set(occupied@)),
{
    let mut n: u32 = 1;
    while n < ATTEMPT_CEILING
        invariant
            1 <= n <= ATTEMPT_CEILING,
            first_free(original@, path_set(occupied@), n as nat) == unique_path(
                original@,
                path_set(occupied@),
            ),
        decreases ATTEMPT_CEILING - n,
    {
        let candidate = numbered(original, n);
        if !holds(occupied, &candidate) {
            return candidate;
        }
        n += 1;
    }
    original.to_owned()
}

/// The last component of a path holds no separator, and a separator stands before it unless
/// it begins the path.
pub proof fn lemma_last_component(path: Seq<char>)
    ensures
        0 <= last_component_start(path) <= path.len(),
        last_component_start(path) > 0 ==> is_separator(path[last_component_start(path) - 1]),
        forall|i: int|
            last_component_start(path) <= i < path.len() ==> !is_separator(#[trigger] path[i]),
        parent_prefix(path) + last_component(path) == path,
    decreases path.len(),
{
    if path.len() > 0 && !is_separator(path.last()) {
        let shorter = path.drop_last();
        lemma_last_component(shorter);
        let start = last_component_start(path);
        assert forall|i: int| start <= i < path.len() implies !is_separator(
            #[trigger] path[i],
        ) by {
            if i < shorter.len() {
                assert(path[i] == shorter[i]);
            }
        }
    }
}

/// A name that holds no separator is the last component of its path inside any folder, and
/// what stands before it is the folder, with the separator that joins them.
pub proof fn lemma_joined_ends_in_name(folder: Seq<char>, name: Seq<char>)
    requires
        forall|i: int| 0 <= i < name.len() ==> !is_separator(#[trigger] name[i]),
    ensures
        last_component(joined(folder, name)) == name,
        parent_prefix(joined(folder, name)) == joined(folder, Seq::empty()),
    decreases name.len(),
{
    if name.len() > 0 {
        let before = joined(folder, name.drop_last());
        lemma_joined_ends_in_name(folder, name.drop_last());
        lemma_last_component(before);
        assert(joined(folder, name).drop_last() == before);
    }
}

/// The alternatives to a path inside a folder stay inside that folder: numbering the path
/// numbers its file name.
pub proof fn lemma_numbered_stays_in_folder(folder: Seq<char>, name: Seq<char>, n: nat)
    requires
        forall|i: int| 0 <= i < name.len() ==> !is_separator(#[trigger] name[i]),
    ensures
        numbered_path(joined(folder, name), n) == joined(folder, numbered_name(name, n)),
{
    lemma_joined_ends_in_name(folder, name);
}

/// What `unique_path` picks: the alternative with the lowest number that is free, every
/// lower number being taken; and the original path exactly when every number below the
/// ceiling is taken.
pub proof fn lemma_unique_path_is_lowest_free(original: Seq<char>, occupied: Set<Seq<char>>)
    ensures
        (forall|n: nat|
            1 <= n < ATTEMPT_CEILING ==> occupied.contains(#[trigger] numbered_path(original, n)))
            ==> unique_path(original, occupied) == original,
        (exists|n: nat|
            1 <= n < ATTEMPT_CEILING && !occupied.contains(#[trigger] numbered_path(original, n)))
            ==> exists|n: nat|
            {
                &&& 1 <= n < ATTEMPT_CEILING
                &&& unique_path(original, occupied) == #[trigger] numbered_path(original, n)
                &&& !occupied.contains(numbered_path(original, n))
                &&& forall|m: nat|
                    1 <= m < n ==> occupied.contains(#[trigger] numbered_path(original, m))
            },
{
    lemma_first_free_from(original, occupied, 1);
}

proof fn lemma_first_free_from(original: Seq<char>, occupied: Set<Seq<char>>, from: nat)
    requires
        1 <= from <= ATTEMPT_CEILING,
    ensures
        (forall|n: nat|
            from <= n < ATTEMPT_CEILING ==> occupied.contains(
                #[trigger] numbered_path(original, n),
            )) ==> first_free(original, occupied, from) == original,
        (exists|n: nat|
            from <= n < ATTEMPT_CEILING && !occupied.contains(
                #[trigger] numbered_path(original, n),
            )) ==> exists|n: nat|
            {
                &&& from <= n < ATTEMPT_CEILING
                &&& first_free(original, occupied, from) == #[trigger] numbered_path(original, n)
                &&& !occupied.contains(numbered_path(original, n))
                &&& forall|m: nat|
                    from <= m < n ==> occupied.contains(#[trigger] numbered_path(original, m))
            },
    decreases ATTEMPT_CEILING - from,
{
    if from < ATTEMPT_CEILING {
        if occupied.contains(numbered_path(original, from)) {
            lemma_first_free_from(original, occupied, from + 1);
        }
    }
}

} // verus!
