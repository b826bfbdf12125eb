use vstd::prelude::*;
use crate::models::{has_handle, Manager, Window};

verus! {

/// Take note of a newly created window. A handle the manager already knows
/// is refused, so handles stay unique; a new window is appended.
pub fn created(manager: &mut Manager, window: Window) -> (r: bool)
    ensures
        r == !has_handle(old(manager).windows@, window.handle),
        r ==> final(manager).windows@ == old(manager).windows@.push(window),
        !r ==> *final(manager) == *old(manager),
        final(manager).workspaces == old(manager).workspaces,
        final(manager).focused_workspace_history == old(manager).focused_workspace_history,
        final(manager).focused_window_history == old(manager).focused_window_history,
        final(manager).focused_tag_history == old(manager).focused_tag_history,
        final(manager).actions == old(manager).actions,
{
    let mut i: usize = 0;
    while i < manager.windows.len()
        invariant
            i <= manager.windows@.len(),
            *manager == *old(manager),
            forall|j: int|
                #![trigger manager.windows@[j]]
                0 <= j < i ==> manager.windows@[j].handle != window.handle,
        decreases manager.windows@.len() - i,
    {
        if manager.windows[i].handle == window.handle {
            return false;
        }
        i += 1;
    }
    manager.windows.push(window);
    true
}

} // verus!
