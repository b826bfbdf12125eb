use vstd::prelude::*;
use crate::models::WindowHandle;

verus! {

/// A deferred instruction queued for the external display executor.
#[derive(Clone, Debug, PartialEq, Eq, Structural)]
pub enum DisplayAction {
    KillWindow(WindowHandle),
}

} // verus!
