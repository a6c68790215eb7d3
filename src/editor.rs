use vstd::prelude::*;
use crate::text::str_equals;

verus! {

/// What to do after the editor has been closed on a record's text.
#[derive(Debug, Clone, Copy, PartialEq, Eq, Structural)]
pub enum EditStep {
    /// The text was not changed: stop without saving.
    Finish,
    /// The text changed and parses as a record: save it and stop.
    Save,
    /// The text changed but does not parse: open the editor again.
    Retry,
}

/// The step that follows an editing round, given the text before it, the text
/// after it, and whether the latter parses as a record.
pub open spec fn step_after(previous: Seq<char>, edited: Seq<char>, parses: bool) -> EditStep {
    if previous == edited {
        EditStep::Finish
    } else if parses {
        EditStep::Save
    } else {
        EditStep::Retry
    }
}

/// Decides how an editing session goes on after the editor was closed.
pub fn edit_step(previous: &str, edited: &str, parses: bool) -> (r: EditStep)
    ensures
        r == step_after(previous@, edited@, parses),
{
    if str_equals(edited, previous) {
        EditStep::Finish
    } else if parses {
        EditStep::Save
    } else {
        EditStep::Retry
    }
}

} // verus!
