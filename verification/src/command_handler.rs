use vstd::prelude::*;
use crate::command::Command;
use crate::display_action::DisplayAction;
use crate::focus_handler::{spec_focus_tag, tag_shallow};
use crate::goto_tag_handler;
use crate::models::{
    first_with_handle, lemma_first_with_handle_none, lemma_first_with_handle_some, views_of,
    Manager,
};

verus! {

/// Dispatch one command with its optional string argument. The result says
/// whether the command was handled as a state change:
/// - `MoveToTag` retags the focused window to exactly the given tag and is
///   the only command reporting `true`; without an argument or a focused
///   window it does nothing.
/// - `GotoTag` focuses the given tag; without an argument it does nothing.
/// - `Execute` asks for an external process; spawning is the caller's
///   affair and the command never reports a state change.
/// - `CloseWindow` queues a kill action for the focused window, if any.
/// - `SwapTags` is a placeholder and does nothing.
#[verifier::loop_isolation(false)]
pub fn process(manager: &mut Manager, command: Command, val: Option<String>) -> (r: bool)
    requires
        command is GotoTag && val is Some ==> tag_shallow(
            old(manager).workspaces@,
            val->Some_0@,
        ),
    ensures
        (match command {
            Command::MoveToTag => {
                if val is Some && old(manager).spec_focused_window() is Some {
                    let j = first_with_handle(
                        old(manager).windows@,
                        old(manager).win_hist()[0],
                    )->Some_0;
                    &&& r == true
                    &&& final(manager).windows@.len() == old(manager).windows@.len()
                    &&& forall|i: int|
                        #![trigger final(manager).windows@[i]]
                        0 <= i < old(manager).windows@.len() && i != j ==> final(manager).windows@[i] == old(manager).windows@[i]
                    &&& final(manager).windows@[j].handle == old(manager).windows@[j].handle
                    &&& final(manager).windows@[j].transient == old(manager).windows@[j].transient
                    &&& views_of(final(manager).windows@[j].tags@) == seq![val->Some_0@]
                    &&& final(manager).workspaces == old(manager).workspaces
                    &&& final(manager).focused_workspace_history == old(manager).focused_workspace_history
                    &&& final(manager).focused_window_history == old(manager).focused_window_history
                    &&& final(manager).focused_tag_history == old(manager).focused_tag_history
                    &&& final(manager).actions == old(manager).actions
                } else {
                    r == false && *final(manager) == *old(manager)
                }
            },
            Command::GotoTag => {
                if val is Some {
                    let p = spec_focus_tag(
                        old(manager).tag_hist(),
                        old(manager).ws_hist(),
                        old(manager).workspaces@,
                        val->Some_0@,
                    );
                    &&& r == true
                    &&& final(manager).tag_hist() == p.0
                    &&& final(manager).ws_hist() == p.1
                    &&& final(manager).workspaces == old(manager).workspaces
                    &&& final(manager).windows == old(manager).windows
                    &&& final(manager).focused_window_history == old(manager).focused_window_history
                    &&& final(manager).actions == old(manager).actions
                    &&& (old(manager).histories_bounded() ==> final(manager).histories_bounded())
                } else {
                    r == false && *final(manager) == *old(manager)
                }
            },
            Command::Execute => r == false && *final(manager) == *old(manager),
            Command::CloseWindow => {
                if old(manager).spec_focused_window() is Some {
                    &&& r == false
                    &&& final(manager).actions@ == old(manager).actions@.push(
                        DisplayAction::KillWindow(old(manager).spec_focused_window()->Some_0.handle),
                    )
                    &&& final(manager).workspaces == old(manager).workspaces
                    &&& final(manager).windows == old(manager).windows
                    &&& final(manager).focused_workspace_history == old(manager).focused_workspace_history
                    &&& final(manager).focused_window_history == old(manager).focused_window_history
                    &&& final(manager).focused_tag_history == old(manager).focused_tag_history
                } else {
                    r == false && *final(manager) == *old(manager)
                }
            },
            Command::SwapTags => r == false && *final(manager) == *old(manager),
        }),
{
    match command {
        Command::MoveToTag => {
            match val {
                Some(tag) => {
                    if manager.focused_window_history.len() > 0 {
                        let h = manager.focused_window_history[0];
                        let mut j: usize = 0;
                        while j < manager.windows.len()
                            invariant
                                j <= manager.windows@.len(),
                                *manager == *old(manager),
                                old(manager).win_hist().len() > 0,
                                h == old(manager).win_hist()[0],
                                forall|i: int|
                                    #![trigger manager.windows@[i]]
                                    0 <= i < j ==> manager.windows@[i].handle != h,
                            decreases manager.windows@.len() - j,
                        {
                            if manager.windows[j].handle == h {
                                proof {
                                    lemma_first_with_handle_some(
                                        old(manager).windows@,
                                        h,
                                        j as int,
                                    );
                                }
                                let mut w = manager.windows.remove(j);
                                w.clear_tags();
                                w.tag(tag);
                                let ghost retagged = w;
                                manager.windows.insert(j, w);
                                proof {
                                    assert(manager.windows@ =~= old(manager).windows@.update(
                                        j as int,
                                        retagged,
                                    ));
                                    assert(views_of(retagged.tags@) =~= seq![val->Some_0@]);
                                }
                                return true;
                            }
                            j += 1;
                        }
                        proof {
                            lemma_first_with_handle_none(old(manager).windows@, h);
                        }
                        false
                    } else {
                        false
                    }
                },
                None => false,
            }
        },
        Command::GotoTag => {
            match val {
                Some(tag) => goto_tag_handler::process(manager, tag),
                None => false,
            }
        },
        Command::Execute => false,
        Command::CloseWindow => {
            let mut fh = None;
            match manager.focused_window() {
                Some(w) => {
                    fh = Some(w.handle);
                },
                None => {},
            }
            match fh {
                Some(h) => {
                    manager.actions.push(DisplayAction::KillWindow(h));
                },
                None => {},
            }
            false
        },
        Command::SwapTags => false,
    }
}

} // verus!
