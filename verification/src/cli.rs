//! Checks on what the user typed: command-line arguments and configured names.
use crate::discovery::{has_control, is_control};
use crate::text::concat2;
use vstd::prelude::*;
use vstd::utf8::*;

verus! {

/// Texts joined with single spaces.
pub open spec fn joined(words: Seq<Seq<char>>) -> Seq<char>
    decreases words.len(),
{
    if words.len() == 0 {
        Seq::empty()
    } else if words.len() == 1 {
        words[0]
    } else {
        joined(words.drop_last()) + " "@ + words.last()
    }
}

pub open spec fn texts(words: Seq<String>) -> Seq<Seq<char>> {
    Seq::new(words.len(), |i: int| words[i]@)
}

/// Refuses any argument left after the command was read.
pub fn ensure_no_extra_arguments(extra: Vec<String>) -> (checked: Result<(), String>)
    ensures
        extra@.len() == 0 ==> checked is Ok,
        extra@.len() > 0 ==> (checked matches Err(m) && m@ == "unexpected arguments: "@ + joined(
            texts(extra@),
        )),
{
    if extra.len() == 0 {
        return Ok(());
    }
    let mut words = extra[0].clone();
    let mut i: usize = 1;
    assert(texts(extra@).subrange(0, 1) =~= seq![extra@[0]@]);
    while i < extra.len()
        invariant
            1 <= i <= extra@.len(),
            words@ == joined(texts(extra@).subrange(0, i as int)),
        decreases extra@.len() - i,
    {
        words.append(" ");
        words.append(extra[i].as_str());
        assert(texts(extra@).subrange(0, i + 1).drop_last() =~= texts(extra@).subrange(
            0,
            i as int,
        ));
        i = i + 1;
    }
    assert(texts(extra@).subrange(0, extra@.len() as int) =~= texts(extra@));
    Err(concat2("unexpected arguments: ", words.as_str()))
}

/// What is wrong with a configured screen name, if anything; `label` names
/// the setting in the message.
pub open spec fn screen_name_fault(name: Seq<char>, label: Seq<char>) -> Option<Seq<char>> {
    if name.len() == 0 || exists|i: int| 0 <= i < name.len() && is_control(#[trigger] name[i]) {
        Some(label + " must be non-empty and contain no control characters"@)
    } else if encode_utf8(name).len() > 63 {
        Some(label + " cannot exceed 63 UTF-8 bytes"@)
    } else {
        None
    }
}

pub fn validate_screen_name(name: &str, label: &str) -> (checked: Result<(), String>)
    ensures
        match screen_name_fault(name@, label@) {
            None => checked is Ok,
            Some(m) => checked matches Err(e) && e@ == m,
        },
{
    if name.is_empty() || has_control(name) {
        return Err(concat2(label, " must be non-empty and contain no control characters"));
    }
    if name.as_bytes().len() > 63 {
        return Err(concat2(label, " cannot exceed 63 UTF-8 bytes"));
    }
    Ok(())
}

} // verus!
