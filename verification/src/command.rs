use vstd::prelude::*;

verus! {

/// The closed set of commands the dispatcher understands; each one arrives
/// paired with an optional string argument.
#[derive(Clone, Copy, Debug, PartialEq, Eq, Structural)]
pub enum Command {
    MoveToTag,
    GotoTag,
    Execute,
    CloseWindow,
    SwapTags,
}

} // verus!
