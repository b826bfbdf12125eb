use vstd::prelude::*;
use crate::history::{push_capped, spec_push_capped, HISTORY_LIMIT};
use crate::models::{
    first_with_handle, has_handle, lemma_first_with_handle_props, views_of, Manager, Window,
    Workspace,
};

verus! {

// ------------------------------------------------------------------
// The mathematical model of focus propagation.
//
// Focusing a tag records it at the front of the tag history and then walks
// the workspaces: each one displaying that tag, and not already the focused
// workspace at its turn, has its index recorded at the front of the
// workspace history. Focusing a workspace records the indices of the
// workspaces bearing its name, then focuses each of its tags in turn; a
// window likewise records its handle, then focuses each of its tags.
//
// The walk is flattened here to one level. That is exactly the cyclic
// propagation with no-op suppression whenever every workspace that displays
// a focused tag displays nothing else (`tag_shallow`): the back-propagation
// from such a workspace to its tags finds each of them already focused and
// stops. The focus operations therefore require `tag_shallow` of the tags
// they propagate; beyond that class the cyclic propagation has no bounded
// unfolding at all.
// ------------------------------------------------------------------

/// The name of the workspace the workspace history currently points at.
pub open spec fn focused_name(wh: Seq<usize>, wss: Seq<Workspace>) -> Option<Seq<char>> {
    if wh.len() > 0 && (wh[0] as int) < wss.len() {
        Some(wss[wh[0] as int].name@)
    } else {
        None
    }
}

/// Every workspace displaying tag `t` displays nothing but `t`, so focus
/// propagation out of `t` cannot cascade further.
pub open spec fn tag_shallow(wss: Seq<Workspace>, t: Seq<char>) -> bool {
    forall|i: int|
        #![trigger wss[i]]
        0 <= i < wss.len() && wss[i].spec_has_tag(t) ==> wss[i].tags_all(t)
}

/// `tag_shallow` for every tag in the list.
pub open spec fn shallow_tags(wss: Seq<Workspace>, tags: Seq<String>) -> bool {
    forall|k: int| #![trigger tags[k]] 0 <= k < tags.len() ==> tag_shallow(wss, tags[k]@)
}

/// One sweep over the first `k` workspaces on behalf of tag `t`: each one
/// displaying `t`, and not the focused workspace at its turn, has its index
/// recorded at the front of the workspace history.
pub open spec fn ws_pass(wh: Seq<usize>, wss: Seq<Workspace>, t: Seq<char>, k: int) -> Seq<usize>
    decreases k,
{
    if k <= 0 {
        wh
    } else {
        let prev = ws_pass(wh, wss, t, k - 1);
        if wss[k - 1].spec_has_tag(t) && focused_name(prev, wss) != Some(wss[k - 1].name@) {
            spec_push_capped(prev, (k - 1) as usize)
        } else {
            prev
        }
    }
}

/// The tag and workspace histories after focusing tag `t`: unchanged when
/// `t` is already the focused tag, else `t` is recorded and the workspaces
/// displaying it are focused in order.
pub open spec fn spec_focus_tag(
    th: Seq<Seq<char>>,
    wh: Seq<usize>,
    wss: Seq<Workspace>,
    t: Seq<char>,
) -> (Seq<Seq<char>>, Seq<usize>) {
    if th.len() > 0 && th[0] == t {
        (th, wh)
    } else {
        (spec_push_capped(th, t), ws_pass(wh, wss, t, wss.len() as int))
    }
}

/// Focusing the first `k` tags of `tags`, one after the other.
pub open spec fn tags_pass(
    th: Seq<Seq<char>>,
    wh: Seq<usize>,
    wss: Seq<Workspace>,
    tags: Seq<Seq<char>>,
    k: int,
) -> (Seq<Seq<char>>, Seq<usize>)
    decreases k,
{
    if k <= 0 {
        (th, wh)
    } else {
        let p = tags_pass(th, wh, wss, tags, k - 1);
        spec_focus_tag(p.0, p.1, wss, tags[k - 1])
    }
}

/// One sweep over the first `k` workspaces: each one bearing `name` has its
/// index recorded at the front of the workspace history.
pub open spec fn name_pass(wh: Seq<usize>, wss: Seq<Workspace>, name: Seq<char>, k: int) -> Seq<
    usize,
>
    decreases k,
{
    if k <= 0 {
        wh
    } else {
        let prev = name_pass(wh, wss, name, k - 1);
        if wss[k - 1].name@ == name {
            spec_push_capped(prev, (k - 1) as usize)
        } else {
            prev
        }
    }
}

/// The tag and workspace histories after focusing workspace `w`: unchanged
/// when a workspace of that name is already focused, else the indices of the
/// workspaces named like `w` are recorded and every tag `w` displays is
/// focused in turn.
pub open spec fn spec_focus_workspace(
    th: Seq<Seq<char>>,
    wh: Seq<usize>,
    wss: Seq<Workspace>,
    w: Workspace,
) -> (Seq<Seq<char>>, Seq<usize>) {
    if focused_name(wh, wss) == Some(w.name@) {
        (th, wh)
    } else {
        let wh1 = name_pass(wh, wss, w.name@, wss.len() as int);
        tags_pass(th, wh1, wss, views_of(w.tags@), w.tags@.len() as int)
    }
}

/// The tag, workspace and window histories after focusing window `w`:
/// unchanged when the focused window carries `w`'s handle already, else the
/// handle is recorded and every tag of `w` is focused in turn.
pub open spec fn spec_focus_window(
    th: Seq<Seq<char>>,
    wh: Seq<usize>,
    winh: Seq<crate::models::WindowHandle>,
    wss: Seq<Workspace>,
    wins: Seq<Window>,
    w: Window,
) -> (Seq<Seq<char>>, Seq<usize>, Seq<crate::models::WindowHandle>) {
    if winh.len() > 0 && has_handle(wins, winh[0]) && winh[0] == w.handle {
        (th, wh, winh)
    } else {
        let winh1 = spec_push_capped(winh, w.handle);
        let p = tags_pass(th, wh, wss, views_of(w.tags@), w.tags@.len() as int);
        (p.0, p.1, winh1)
    }
}

// ------------------------------------------------------------------
// Helper lemmas.
// ------------------------------------------------------------------

/// Taking string views commutes with a capped push.
proof fn lemma_views_push_capped(h: Seq<String>, x: String)
    ensures
        views_of(spec_push_capped(h, x)) == spec_push_capped(views_of(h), x@),
{
    let a = views_of(spec_push_capped(h, x));
    let b = spec_push_capped(views_of(h), x@);
    assert forall|i: int| 0 <= i < a.len() implies a[i] == b[i] by {
        if i > 0 {
            if h.len() >= HISTORY_LIMIT as int {
                assert(h.take(HISTORY_LIMIT as int - 1)[i - 1] == h[i - 1]);
                assert(views_of(h).take(HISTORY_LIMIT as int - 1)[i - 1] == views_of(h)[i - 1]);
            }
        }
    }
    assert(a =~= b);
}

/// A workspace sweep keeps the history within its capacity.
pub proof fn lemma_ws_pass_bounded(wh: Seq<usize>, wss: Seq<Workspace>, t: Seq<char>, k: int)
    requires
        wh.len() <= HISTORY_LIMIT as int,
    ensures
        ws_pass(wh, wss, t, k).len() <= HISTORY_LIMIT as int,
    decreases (if k <= 0 { 0int } else { k }),
{
    if k <= 0 {
    } else {
        lemma_ws_pass_bounded(wh, wss, t, k - 1);
    }
}

/// A name sweep keeps the history within its capacity.
pub proof fn lemma_name_pass_bounded(wh: Seq<usize>, wss: Seq<Workspace>, name: Seq<char>, k: int)
    requires
        wh.len() <= HISTORY_LIMIT as int,
    ensures
        name_pass(wh, wss, name, k).len() <= HISTORY_LIMIT as int,
    decreases (if k <= 0 { 0int } else { k }),
{
    if k <= 0 {
    } else {
        lemma_name_pass_bounded(wh, wss, name, k - 1);
    }
}

/// Focusing a list of tags keeps both histories within their capacity.
pub proof fn lemma_tags_pass_bounded(
    th: Seq<Seq<char>>,
    wh: Seq<usize>,
    wss: Seq<Workspace>,
    tags: Seq<Seq<char>>,
    k: int,
)
    requires
        th.len() <= HISTORY_LIMIT as int,
        wh.len() <= HISTORY_LIMIT as int,
    ensures
        tags_pass(th, wh, wss, tags, k).0.len() <= HISTORY_LIMIT as int,
        tags_pass(th, wh, wss, tags, k).1.len() <= HISTORY_LIMIT as int,
    decreases (if k <= 0 { 0int } else { k }),
{
    if k <= 0 {
    } else {
        lemma_tags_pass_bounded(th, wh, wss, tags, k - 1);
        let p = tags_pass(th, wh, wss, tags, k - 1);
        lemma_ws_pass_bounded(p.1, wss, tags[k - 1], wss.len() as int);
    }
}

// ------------------------------------------------------------------
// The focus operations.
// ------------------------------------------------------------------

/// Mark `tag` as the focused tag and focus every workspace displaying it.
/// A tag that is focused already leaves the state untouched.
pub fn focus_tag(manager: &mut Manager, tag: &String)
    requires
        tag_shallow(old(manager).workspaces@, tag@),
    ensures
        ({
            let r = spec_focus_tag(
                old(manager).tag_hist(),
                old(manager).ws_hist(),
                old(manager).workspaces@,
                tag@,
            );
            final(manager).tag_hist() == r.0 && final(manager).ws_hist() == r.1
        }),
        final(manager).workspaces == old(manager).workspaces,
        final(manager).windows == old(manager).windows,
        final(manager).focused_window_history == old(manager).focused_window_history,
        final(manager).actions == old(manager).actions,
        old(manager).histories_bounded() ==> final(manager).histories_bounded(),
{
    match manager.focused_tag() {
        Some(t) => {
            if t == *tag {
                return;
            }
        },
        None => {},
    }
    push_capped(&mut manager.focused_tag_history, tag.clone());
    proof {
        lemma_views_push_capped(old(manager).focused_tag_history@, *tag);
    }
    let ghost old_m = *old(manager);
    let ghost th1 = manager.tag_hist();
    let mut i: usize = 0;
    while i < manager.workspaces.len()
        invariant
            i <= manager.workspaces@.len(),
            manager.workspaces == old_m.workspaces,
            manager.windows == old_m.windows,
            manager.focused_window_history == old_m.focused_window_history,
            manager.actions == old_m.actions,
            manager.tag_hist() == th1,
            manager.ws_hist() == ws_pass(old_m.ws_hist(), old_m.workspaces@, tag@, i as int),
        decreases manager.workspaces@.len() - i,
    {
        let ghost prev = manager.ws_hist();
        let has = manager.workspaces[i].has_tag(tag);
        let mut not_focused = true;
        match manager.focused_workspace() {
            Some(fws) => {
                if fws.name == manager.workspaces[i].name {
                    not_focused = false;
                }
            },
            None => {},
        }
        proof {
            assert(not_focused == (focused_name(prev, old_m.workspaces@) != Some(
                old_m.workspaces@[i as int].name@,
            )));
        }
        if has && not_focused {
            push_capped(&mut manager.focused_workspace_history, i);
        }
        proof {
            assert(manager.ws_hist() == ws_pass(
                old_m.ws_hist(),
                old_m.workspaces@,
                tag@,
                i as int + 1,
            ));
        }
        i += 1;
    }
    proof {
        if old(manager).histories_bounded() {
            lemma_ws_pass_bounded(
                old_m.ws_hist(),
                old_m.workspaces@,
                tag@,
                old_m.workspaces@.len() as int,
            );
        }
    }
}

/// Mark `workspace` as the focused workspace and focus every tag it
/// displays. A workspace whose name is focused already leaves the state
/// untouched.
pub fn focus_workspace(manager: &mut Manager, workspace: &Workspace)
    requires
        shallow_tags(old(manager).workspaces@, workspace.tags@),
    ensures
        ({
            let r = spec_focus_workspace(
                old(manager).tag_hist(),
                old(manager).ws_hist(),
                old(manager).workspaces@,
                *workspace,
            );
            final(manager).tag_hist() == r.0 && final(manager).ws_hist() == r.1
        }),
        final(manager).workspaces == old(manager).workspaces,
        final(manager).windows == old(manager).windows,
        final(manager).focused_window_history == old(manager).focused_window_history,
        final(manager).actions == old(manager).actions,
        old(manager).histories_bounded() ==> final(manager).histories_bounded(),
{
    match manager.focused_workspace() {
        Some(fws) => {
            if fws.name == workspace.name {
                return;
            }
        },
        None => {},
    }
    let ghost old_m = *old(manager);
    let mut i: usize = 0;
    while i < manager.workspaces.len()
        invariant
            i <= manager.workspaces@.len(),
            manager.workspaces == old_m.workspaces,
            manager.windows == old_m.windows,
            manager.focused_window_history == old_m.focused_window_history,
            manager.focused_tag_history == old_m.focused_tag_history,
            manager.actions == old_m.actions,
            manager.ws_hist() == name_pass(
                old_m.ws_hist(),
                old_m.workspaces@,
                workspace.name@,
                i as int,
            ),
        decreases manager.workspaces@.len() - i,
    {
        if manager.workspaces[i].name == workspace.name {
            push_capped(&mut manager.focused_workspace_history, i);
        }
        proof {
            assert(manager.ws_hist() == name_pass(
                old_m.ws_hist(),
                old_m.workspaces@,
                workspace.name@,
                i as int + 1,
            ));
        }
        i += 1;
    }
    let ghost wh1 = manager.ws_hist();
    let mut k: usize = 0;
    while k < workspace.tags.len()
        invariant
            k <= workspace.tags@.len(),
            manager.workspaces == old_m.workspaces,
            manager.windows == old_m.windows,
            manager.focused_window_history == old_m.focused_window_history,
            manager.actions == old_m.actions,
            shallow_tags(old_m.workspaces@, workspace.tags@),
            ({
                let p = tags_pass(
                    old_m.tag_hist(),
                    wh1,
                    old_m.workspaces@,
                    views_of(workspace.tags@),
                    k as int,
                );
                manager.tag_hist() == p.0 && manager.ws_hist() == p.1
            }),
        decreases workspace.tags@.len() - k,
    {
        focus_tag(manager, &workspace.tags[k]);
        k += 1;
    }
    proof {
        if old(manager).histories_bounded() {
            lemma_name_pass_bounded(
                old_m.ws_hist(),
                old_m.workspaces@,
                workspace.name@,
                old_m.workspaces@.len() as int,
            );
            lemma_tags_pass_bounded(
                old_m.tag_hist(),
                wh1,
                old_m.workspaces@,
                views_of(workspace.tags@),
                workspace.tags@.len() as int,
            );
        }
    }
}

/// Mark `window` as the focused window and focus every tag it belongs to.
/// A window whose handle is focused already leaves the state untouched.
pub fn focus_window(manager: &mut Manager, window: &Window)
    requires
        shallow_tags(old(manager).workspaces@, window.tags@),
    ensures
        ({
            let r = spec_focus_window(
                old(manager).tag_hist(),
                old(manager).ws_hist(),
                old(manager).win_hist(),
                old(manager).workspaces@,
                old(manager).windows@,
                *window,
            );
            final(manager).tag_hist() == r.0 && final(manager).ws_hist() == r.1
                && final(manager).win_hist() == r.2
        }),
        final(manager).workspaces == old(manager).workspaces,
        final(manager).windows == old(manager).windows,
        final(manager).actions == old(manager).actions,
        old(manager).histories_bounded() ==> final(manager).histories_bounded(),
{
    match manager.focused_window() {
        Some(fw) => {
            if fw.handle == window.handle {
                proof {
                    lemma_first_with_handle_props(
                        old(manager).windows@,
                        old(manager).win_hist()[0],
                    );
                    let j = first_with_handle(
                        old(manager).windows@,
                        old(manager).win_hist()[0],
                    )->Some_0;
                    assert(old(manager).windows@[j].handle == old(manager).win_hist()[0]);
                    assert(has_handle(old(manager).windows@, old(manager).win_hist()[0]));
                }
                return;
            }
        },
        None => {},
    }
    proof {
        let o = *old(manager);
        if o.win_hist().len() > 0 && has_handle(o.windows@, o.win_hist()[0]) {
            lemma_first_some_of_has_handle(o.windows@, o.win_hist()[0]);
            lemma_first_with_handle_props(o.windows@, o.win_hist()[0]);
        }
    }
    push_capped(&mut manager.focused_window_history, window.handle);
    let ghost old_m = *old(manager);
    let ghost winh1 = manager.win_hist();
    let mut k: usize = 0;
    while k < window.tags.len()
        invariant
            k <= window.tags@.len(),
            manager.workspaces == old_m.workspaces,
            manager.windows == old_m.windows,
            manager.win_hist() == winh1,
            manager.actions == old_m.actions,
            shallow_tags(old_m.workspaces@, window.tags@),
            ({
                let p = tags_pass(
                    old_m.tag_hist(),
                    old_m.ws_hist(),
                    old_m.workspaces@,
                    views_of(window.tags@),
                    k as int,
                );
                manager.tag_hist() == p.0 && manager.ws_hist() == p.1
            }),
        decreases window.tags@.len() - k,
    {
        focus_tag(manager, &window.tags[k]);
        k += 1;
    }
    proof {
        if old(manager).histories_bounded() {
            lemma_tags_pass_bounded(
                old_m.tag_hist(),
                old_m.ws_hist(),
                old_m.workspaces@,
                views_of(window.tags@),
                window.tags@.len() as int,
            );
        }
    }
}

/// Decide `tag_shallow` at run time: whether every workspace displaying
/// `tag` displays nothing else, the condition under which the focus
/// operations may be called on behalf of `tag`.
#[verifier::loop_isolation(false)]
pub fn tag_propagates_shallowly(manager: &Manager, tag: &String) -> (r: bool)
    ensures
        r == tag_shallow(manager.workspaces@, tag@),
{
    let mut i: usize = 0;
    while i < manager.workspaces.len()
        invariant
            i <= manager.workspaces@.len(),
            forall|k: int|
                #![trigger manager.workspaces@[k]]
                0 <= k < i && manager.workspaces@[k].spec_has_tag(tag@)
                    ==> manager.workspaces@[k].tags_all(tag@),
        decreases manager.workspaces@.len() - i,
    {
        if manager.workspaces[i].has_tag(tag) {
            let ws = &manager.workspaces[i];
            let mut j: usize = 0;
            while j < ws.tags.len()
                invariant
                    j <= ws.tags@.len(),
                    forall|l: int| #![trigger ws.tags@[l]] 0 <= l < j ==> ws.tags@[l]@ == tag@,
                decreases ws.tags@.len() - j,
            {
                if !(ws.tags[j] == *tag) {
                    return false;
                }
                j += 1;
            }
            proof {
                assert(manager.workspaces@[i as int].tags_all(tag@));
            }
        }
        i += 1;
    }
    true
}

/// A handle carried by some window is found by the first-match search.
pub proof fn lemma_first_some_of_has_handle(ws: Seq<Window>, h: crate::models::WindowHandle)
    requires
        has_handle(ws, h),
    ensures
        first_with_handle(ws, h) is Some,
    decreases ws.len(),
{
    if ws.len() == 0 {
    } else if ws[0].handle == h {
    } else {
        let j = choose|i: int| 0 <= i < ws.len() && #[trigger] ws[i].handle == h;
        assert(j != 0);
        assert(ws.drop_first()[j - 1] == ws[j]);
        assert(has_handle(ws.drop_first(), h));
        lemma_first_some_of_has_handle(ws.drop_first(), h);
    }
}

} // verus!
