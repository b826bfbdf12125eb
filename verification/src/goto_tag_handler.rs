use vstd::prelude::*;
use crate::focus_handler::{focus_tag, spec_focus_tag, tag_shallow};
use crate::models::Manager;

verus! {

/// Navigate to `tag`: focus it (propagating to the workspaces displaying
/// it) and report success.
pub fn process(manager: &mut Manager, tag: String) -> (r: bool)
    requires
        tag_shallow(old(manager).workspaces@, tag@),
    ensures
        ({
            let p = spec_focus_tag(
                old(manager).tag_hist(),
                old(manager).ws_hist(),
                old(manager).workspaces@,
                tag@,
            );
            final(manager).tag_hist() == p.0 && final(manager).ws_hist() == p.1
        }),
        final(manager).workspaces == old(manager).workspaces,
        final(manager).windows == old(manager).windows,
        final(manager).focused_window_history == old(manager).focused_window_history,
        final(manager).actions == old(manager).actions,
        old(manager).histories_bounded() ==> final(manager).histories_bounded(),
        r == true,
{
    focus_tag(manager, &tag);
    true
}

} // verus!
