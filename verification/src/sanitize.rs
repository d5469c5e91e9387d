//! Turning a free-text group name into a folder name that cannot leave its parent folder.
use crate::error::{Error, ErrorView, ValidationFailure, ValidationFailureView};
use crate::path::{is_separator, separates};
use crate::text::{chars_of, string_of};
use vstd::prelude::*;

verus! {

/// Whether `c` is one of the characters that file systems reserve.
pub open spec fn is_reserved(c: char) -> bool {
    c == '<' || c == '>' || c == ':' || c == '"' || c == '|' || c == '?' || c == '*'
}

/// `name` with every pair of dots replaced by one underscore, pairs taken from the left.
pub open spec fn without_dot_pairs(name: Seq<char>) -> Seq<char>
    decreases name.len(),
{
    if name.len() == 0 {
        name
    } else if name.len() >= 2 && name[0] == '.' && name[1] == '.' {
        seq!['_'] + without_dot_pairs(name.skip(2))
    } else {
        seq![name[0]] + without_dot_pairs(name.skip(1))
    }
}

/// `c`, or an underscore in place of a separator or a reserved character.
pub open spec fn masked(c: char) -> char {
    if is_separator(c) || is_reserved(c) {
        '_'
    } else {
        c
    }
}

/// The folder name that stands for the group name `name`: dot pairs, separators and reserved
/// characters each give way to an underscore.
pub open spec fn sanitized(name: Seq<char>) -> Seq<char> {
    without_dot_pairs(name).map_values(|c: char| masked(c))
}

/// Whether `text` holds nothing but underscores; the empty text does.
pub open spec fn only_underscores(text: Seq<char>) -> bool {
    forall|i: int| 0 <= i < text.len() ==> text[i] == '_'
}

fn reserved(c: char) -> (yes: bool)
    ensures
        yes == is_reserved(c),
{
    c == '<' || c == '>' || c == ':' || c == '"' || c == '|' || c == '?' || c == '*'
}

/// The folder name for the group name `name`, or the refusal of a name of which nothing but
/// underscores would be left.
pub fn sanitize_filename(name: &str) -> (result: Result<String, Error>)
    ensures
        match result {
            Ok(folder) => folder@ == sanitized(name@) && !only_underscores(sanitized(name@)),
            Err(error) => only_underscores(sanitized(name@)) && error@ == ErrorView::Validation(
                ValidationFailureView::GroupNameRejected(name@),
            ),
        },
{
    let chars = chars_of(name);
    let mut out: Vec<char> = Vec::new();
    let mut blank = true;
    let ghost mut kept: Seq<char> = Seq::empty();
    let mut i: usize = 0;
    assert(chars@.skip(0) == chars@);
    while i < chars.len()
        invariant
            i <= chars.len(),
            kept + without_dot_pairs(chars@.skip(i as int)) == without_dot_pairs(chars@),
            out@ == kept.map_values(|c: char| masked(c)),
            blank == only_underscores(out@),
        decreases chars.len() - i,
    {
        let ghost rest = chars@.skip(i as int);
        let c = chars[i];
        let emitted = if c == '.' && i + 1 < chars.len() && chars[i + 1] == '.' {
            proof {
                assert(rest.skip(2) == chars@.skip(i + 2));
            }
            i += 2;
            '_'
        } else {
            proof {
                assert(rest.skip(1) == chars@.skip(i + 1));
            }
            i += 1;
            c
        };
        let shown = if separates(emitted) || reserved(emitted) {
            '_'
        } else {
            emitted
        };
        proof {
            kept = kept.push(emitted);
        }
        let ghost before = out@;
        out.push(shown);
        blank = blank && shown == '_';
        proof {
            if only_underscores(out@) {
                assert(out@[before.len() as int] == '_');
                assert forall|j: int| 0 <= j < before.len() implies before[j] == '_' by {
                    assert(out@[j] == '_');
                }
            }
        }
    }
    if blank {
        Err(Error::Validation(ValidationFailure::GroupNameRejected(name.to_owned())))
    } else {
        Ok(string_of(out.as_slice()))
    }
}

/// What is left of a name without its dot pairs starts with a dot only where the name starts
/// with a single one, and holds no two dots in a row.
proof fn lemma_dot_pairs_are_gone(name: Seq<char>)
    ensures
        without_dot_pairs(name).len() <= name.len(),
        without_dot_pairs(name).len() > 0 && without_dot_pairs(name)[0] == '.' ==> name.len() > 0
            && name[0] == '.' && (name.len() == 1 || name[1] != '.'),
        forall|i: int|
            0 <= i < without_dot_pairs(name).len() - 1 ==> !(#[trigger] without_dot_pairs(name)[i]
                == '.' && without_dot_pairs(name)[i + 1] == '.'),
    decreases name.len(),
{
    if name.len() >= 2 && name[0] == '.' && name[1] == '.' {
        lemma_dot_pairs_are_gone(name.skip(2));
    } else if name.len() > 0 {
        lemma_dot_pairs_are_gone(name.skip(1));
    }
}

/// A sanitized name cannot leave the folder it is put in: it holds no path separator, no
/// reserved character and no two dots in a row, and it is no longer than the name it came
/// from.
pub proof fn lemma_sanitized_is_safe(name: Seq<char>)
    ensures
        sanitized(name).len() <= name.len(),
        forall|i: int|
            0 <= i < sanitized(name).len() ==> !is_separator(#[trigger] sanitized(name)[i])
                && !is_reserved(sanitized(name)[i]),
        forall|i: int|
            0 <= i < sanitized(name).len() - 1 ==> !(#[trigger] sanitized(name)[i] == '.'
                && sanitized(name)[i + 1] == '.'),
{
    lemma_dot_pairs_are_gone(name);
}

/// A name made of nothing but separators, reserved characters and underscores is refused,
/// and so is the empty name.
pub proof fn lemma_disallowed_only_is_rejected(name: Seq<char>)
    requires
        forall|i: int|
            0 <= i < name.len() ==> is_separator(#[trigger] name[i]) || is_reserved(name[i])
                || name[i] == '_',
    ensures
        only_underscores(sanitized(name)),
    decreases name.len(),
{
    if name.len() > 0 {
        let rest = name.skip(1);
        lemma_disallowed_only_is_rejected(rest);
        assert forall|i: int| 0 <= i < sanitized(name).len() implies sanitized(name)[i] == '_' by {
            if i >= 1 {
                assert(sanitized(rest)[i - 1] == '_');
            }
        }
    }
}

} // verus!
