use vstd::prelude::*;
use crate::digits::{dec_chars, dec_string};
use crate::models::{views_of, Manager, Screen, Workspace};

verus! {

/// A new screen brings a new workspace into being: it is named after its
/// position in the workspace sequence and displays the matching default tag,
/// the decimal name of position plus one.
pub fn process(manager: &mut Manager, _screen: Screen) -> (r: bool)
    requires
        old(manager).workspaces@.len() < usize::MAX,
    ensures
        final(manager).workspaces@.len() == old(manager).workspaces@.len() + 1,
        final(manager).workspaces@.take(old(manager).workspaces@.len() as int) == old(manager).workspaces@,
        final(manager).workspaces@.last().name@ == dec_chars(old(manager).workspaces@.len() as nat),
        views_of(final(manager).workspaces@.last().tags@) == seq![
            dec_chars((old(manager).workspaces@.len() + 1) as nat),
        ],
        final(manager).windows == old(manager).windows,
        final(manager).focused_workspace_history == old(manager).focused_workspace_history,
        final(manager).focused_window_history == old(manager).focused_window_history,
        final(manager).focused_tag_history == old(manager).focused_tag_history,
        final(manager).actions == old(manager).actions,
        r == true,
{
    let index = manager.workspaces.len();
    let name = dec_string(index);
    let tag = dec_string(index + 1);
    let mut tags: Vec<String> = Vec::new();
    tags.push(tag);
    let ws = Workspace { name, tags };
    manager.workspaces.push(ws);
    proof {
        assert(manager.workspaces@.take(old(manager).workspaces@.len() as int) =~= old(manager).workspaces@);
        assert(views_of(manager.workspaces@.last().tags@) =~= seq![
            dec_chars((old(manager).workspaces@.len() + 1) as nat),
        ]);
    }
    true
}

} // verus!
