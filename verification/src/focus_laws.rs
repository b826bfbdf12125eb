use vstd::prelude::*;
use crate::focus_handler::{
    focused_name, name_pass, spec_focus_tag, spec_focus_window, spec_focus_workspace, tags_pass,
    ws_pass,
};
use crate::history::spec_push_capped;
use crate::models::{has_handle, views_of, Window, WindowHandle, Workspace};

verus! {

/// No two workspaces bear the same name.
pub open spec fn names_unique(wss: Seq<Workspace>) -> bool {
    forall|i: int, j: int|
        #![trigger wss[i], wss[j]]
        0 <= i < j < wss.len() ==> wss[i].name@ != wss[j].name@
}

/// A workspace sweep on behalf of a tag whose workspaces all bear the
/// focused name changes nothing.
proof fn lemma_ws_pass_already_focused(
    wh: Seq<usize>,
    wss: Seq<Workspace>,
    t: Seq<char>,
    k: int,
    n: Seq<char>,
)
    requires
        focused_name(wh, wss) == Some(n),
        forall|i: int| #![trigger wss[i]] 0 <= i < k && wss[i].spec_has_tag(t) ==> wss[i].name@ == n,
    ensures
        ws_pass(wh, wss, t, k) == wh,
    decreases (if k <= 0 { 0int } else { k }),
{
    if k <= 0 {
    } else {
        lemma_ws_pass_already_focused(wh, wss, t, k - 1, n);
    }
}

/// Focusing tags whose workspaces all bear the focused name leaves the
/// workspace history untouched.
proof fn lemma_tags_pass_keeps_workspace(
    th: Seq<Seq<char>>,
    wh: Seq<usize>,
    wss: Seq<Workspace>,
    tags: Seq<Seq<char>>,
    k: int,
    n: Seq<char>,
)
    requires
        focused_name(wh, wss) == Some(n),
        forall|j: int, i: int|
            #![trigger tags[j], wss[i]]
            0 <= j < k && 0 <= i < wss.len() && wss[i].spec_has_tag(tags[j]) ==> wss[i].name@ == n,
    ensures
        tags_pass(th, wh, wss, tags, k).1 == wh,
    decreases (if k <= 0 { 0int } else { k }),
{
    if k <= 0 {
    } else {
        lemma_tags_pass_keeps_workspace(th, wh, wss, tags, k - 1, n);
        let p = tags_pass(th, wh, wss, tags, k - 1);
        if !(p.0.len() > 0 && p.0[0] == tags[k - 1]) {
            lemma_ws_pass_already_focused(wh, wss, tags[k - 1], wss.len() as int, n);
        }
    }
}

/// A name sweep that finds the name records its last bearer as the focus.
proof fn lemma_name_pass_focuses(wh: Seq<usize>, wss: Seq<Workspace>, name: Seq<char>, k: int)
    requires
        wss.len() <= usize::MAX,
        k <= wss.len(),
        exists|j: int| #![trigger wss[j]] 0 <= j < k && wss[j].name@ == name,
    ensures
        focused_name(name_pass(wh, wss, name, k), wss) == Some(name),
    decreases (if k <= 0 { 0int } else { k }),
{
    if wss[k - 1].name@ == name {
        let prev = name_pass(wh, wss, name, k - 1);
        assert(spec_push_capped(prev, (k - 1) as usize)[0] == (k - 1) as usize);
    } else {
        let j = choose|j: int| 0 <= j < k && #[trigger] wss[j].name@ == name;
        assert(0 <= j < k - 1);
        lemma_name_pass_focuses(wh, wss, name, k - 1);
    }
}

/// A workspace sweep for a displayed tag ends with a workspace displaying
/// that tag as the focus.
proof fn lemma_ws_pass_focuses(wh: Seq<usize>, wss: Seq<Workspace>, t: Seq<char>, k: int)
    requires
        names_unique(wss),
        wss.len() <= usize::MAX,
        k <= wss.len(),
        exists|i: int| #![trigger wss[i]] 0 <= i < k && wss[i].spec_has_tag(t),
    ensures
        ({
            let wh2 = ws_pass(wh, wss, t, k);
            wh2.len() > 0 && (wh2[0] as int) < wss.len() && wss[wh2[0] as int].spec_has_tag(t)
        }),
    decreases (if k <= 0 { 0int } else { k }),
{
    let prev = ws_pass(wh, wss, t, k - 1);
    if wss[k - 1].spec_has_tag(t) {
        if focused_name(prev, wss) != Some(wss[k - 1].name@) {
            assert(spec_push_capped(prev, (k - 1) as usize)[0] == (k - 1) as usize);
        } else {
            assert((prev[0] as int) < wss.len());
            assert(wss[prev[0] as int].name@ == wss[k - 1].name@);
            if (prev[0] as int) != k - 1 {
                assert(false);
            }
        }
    } else {
        let i = choose|i: int| 0 <= i < k && #[trigger] wss[i].spec_has_tag(t);
        assert(0 <= i < k - 1);
        lemma_ws_pass_focuses(wh, wss, t, k - 1);
    }
}

/// Focusing a non-empty list of tags leaves the last of them focused.
proof fn lemma_tags_pass_last(
    th: Seq<Seq<char>>,
    wh: Seq<usize>,
    wss: Seq<Workspace>,
    tags: Seq<Seq<char>>,
    k: int,
)
    requires
        1 <= k,
    ensures
        tags_pass(th, wh, wss, tags, k).0.len() > 0,
        tags_pass(th, wh, wss, tags, k).0[0] == tags[k - 1],
{
    let p = tags_pass(th, wh, wss, tags, k - 1);
    if !(p.0.len() > 0 && p.0[0] == tags[k - 1]) {
        assert(spec_push_capped(p.0, tags[k - 1])[0] == tags[k - 1]);
    }
}

// ------------------------------------------------------------------
// The laws of the focus operations, stated over their specifications.
// ------------------------------------------------------------------

/// Focusing the same tag twice in a row: the second call finds the tag
/// focused already and changes nothing at all.
pub proof fn lemma_focus_tag_idempotent(
    th: Seq<Seq<char>>,
    wh: Seq<usize>,
    wss: Seq<Workspace>,
    t: Seq<char>,
)
    ensures
        ({
            let r1 = spec_focus_tag(th, wh, wss, t);
            spec_focus_tag(r1.0, r1.1, wss, t) == r1
        }),
{
    if !(th.len() > 0 && th[0] == t) {
        assert(spec_push_capped(th, t)[0] == t);
    }
}

/// Focusing the same workspace twice in a row: when the manager holds a
/// workspace of that name, and no workspace displays one of its tags under
/// another name, the second call changes nothing at all.
pub proof fn lemma_focus_workspace_idempotent(
    th: Seq<Seq<char>>,
    wh: Seq<usize>,
    wss: Seq<Workspace>,
    w: Workspace,
)
    requires
        wss.len() <= usize::MAX,
        exists|j: int| #![trigger wss[j]] 0 <= j < wss.len() && wss[j].name@ == w.name@,
        forall|k: int, i: int|
            #![trigger w.tags@[k], wss[i]]
            0 <= k < w.tags@.len() && 0 <= i < wss.len() && wss[i].spec_has_tag(w.tags@[k]@)
                ==> wss[i].name@ == w.name@,
    ensures
        ({
            let r1 = spec_focus_workspace(th, wh, wss, w);
            spec_focus_workspace(r1.0, r1.1, wss, w) == r1
        }),
{
    if focused_name(wh, wss) != Some(w.name@) {
        let wh1 = name_pass(wh, wss, w.name@, wss.len() as int);
        lemma_name_pass_focuses(wh, wss, w.name@, wss.len() as int);
        let tv = views_of(w.tags@);
        assert forall|j: int, i: int|
            #![trigger tv[j], wss[i]]
        0 <= j < tv.len() && 0 <= i < wss.len() && wss[i].spec_has_tag(tv[j]) implies wss[i].name@ == w.name@ by {
            assert(tv[j] == w.tags@[j]@);
        }
        lemma_tags_pass_keeps_workspace(th, wh1, wss, tv, w.tags@.len() as int, w.name@);
    }
}

/// Focusing the same window twice in a row: when the manager holds a window
/// of that handle, the second call changes nothing at all.
pub proof fn lemma_focus_window_idempotent(
    th: Seq<Seq<char>>,
    wh: Seq<usize>,
    winh: Seq<WindowHandle>,
    wss: Seq<Workspace>,
    wins: Seq<Window>,
    w: Window,
)
    requires
        has_handle(wins, w.handle),
    ensures
        ({
            let r1 = spec_focus_window(th, wh, winh, wss, wins, w);
            spec_focus_window(r1.0, r1.1, r1.2, wss, wins, w) == r1
        }),
{
    if !(winh.len() > 0 && has_handle(wins, winh[0]) && winh[0] == w.handle) {
        assert(spec_push_capped(winh, w.handle)[0] == w.handle);
    }
}

/// Focusing a tag that some workspace displays, and that was not focused
/// already, makes the tag the focused tag and leaves a workspace displaying
/// it as the focused workspace.
pub proof fn lemma_focus_tag_focuses_workspace(
    th: Seq<Seq<char>>,
    wh: Seq<usize>,
    wss: Seq<Workspace>,
    t: Seq<char>,
)
    requires
        names_unique(wss),
        wss.len() <= usize::MAX,
        th.len() == 0 || th[0] != t,
        exists|i: int| #![trigger wss[i]] 0 <= i < wss.len() && wss[i].spec_has_tag(t),
    ensures
        ({
            let r = spec_focus_tag(th, wh, wss, t);
            &&& r.0.len() > 0 && r.0[0] == t
            &&& r.1.len() > 0 && (r.1[0] as int) < wss.len()
            &&& wss[r.1[0] as int].spec_has_tag(t)
        }),
{
    assert(spec_push_capped(th, t)[0] == t);
    lemma_ws_pass_focuses(wh, wss, t, wss.len() as int);
}

/// Focusing a workspace that was not focused already makes the last of its
/// displayed tags the focused tag.
pub proof fn lemma_focus_workspace_focuses_tag(
    th: Seq<Seq<char>>,
    wh: Seq<usize>,
    wss: Seq<Workspace>,
    w: Workspace,
)
    requires
        w.tags@.len() > 0,
        focused_name(wh, wss) != Some(w.name@),
    ensures
        ({
            let r = spec_focus_workspace(th, wh, wss, w);
            r.0.len() > 0 && r.0[0] == w.tags@[w.tags@.len() - 1]@
        }),
{
    let wh1 = name_pass(wh, wss, w.name@, wss.len() as int);
    lemma_tags_pass_last(th, wh1, wss, views_of(w.tags@), w.tags@.len() as int);
    assert(views_of(w.tags@)[w.tags@.len() - 1] == w.tags@[w.tags@.len() - 1]@);
}

/// Focusing a window that was not focused already makes the last of its
/// tags the focused tag.
pub proof fn lemma_focus_window_focuses_tag(
    th: Seq<Seq<char>>,
    wh: Seq<usize>,
    winh: Seq<WindowHandle>,
    wss: Seq<Workspace>,
    wins: Seq<Window>,
    w: Window,
)
    requires
        w.tags@.len() > 0,
        !(winh.len() > 0 && has_handle(wins, winh[0]) && winh[0] == w.handle),
    ensures
        ({
            let r = spec_focus_window(th, wh, winh, wss, wins, w);
            r.0.len() > 0 && r.0[0] == w.tags@[w.tags@.len() - 1]@
        }),
{
    lemma_tags_pass_last(th, wh, wss, views_of(w.tags@), w.tags@.len() as int);
    assert(views_of(w.tags@)[w.tags@.len() - 1] == w.tags@[w.tags@.len() - 1]@);
}

/// Focusing a tag with no prior tag focus always records it as the focus.
pub proof fn lemma_first_focus_tag(
    th: Seq<Seq<char>>,
    wh: Seq<usize>,
    wss: Seq<Workspace>,
    t: Seq<char>,
)
    requires
        th.len() == 0,
    ensures
        ({
            let r = spec_focus_tag(th, wh, wss, t);
            r.0.len() > 0 && r.0[0] == t
        }),
{
    assert(spec_push_capped(th, t)[0] == t);
}

/// Focusing a workspace with no prior workspace focus always succeeds: when
/// the manager holds a workspace of that name, and no workspace displays one
/// of its tags under another name, it becomes the focused workspace.
pub proof fn lemma_first_focus_workspace(
    th: Seq<Seq<char>>,
    wh: Seq<usize>,
    wss: Seq<Workspace>,
    w: Workspace,
)
    requires
        wh.len() == 0,
        wss.len() <= usize::MAX,
        exists|j: int| #![trigger wss[j]] 0 <= j < wss.len() && wss[j].name@ == w.name@,
        forall|k: int, i: int|
            #![trigger w.tags@[k], wss[i]]
            0 <= k < w.tags@.len() && 0 <= i < wss.len() && wss[i].spec_has_tag(w.tags@[k]@)
                ==> wss[i].name@ == w.name@,
    ensures
        focused_name(spec_focus_workspace(th, wh, wss, w).1, wss) == Some(w.name@),
{
    let wh1 = name_pass(wh, wss, w.name@, wss.len() as int);
    lemma_name_pass_focuses(wh, wss, w.name@, wss.len() as int);
    let tv = views_of(w.tags@);
    assert forall|j: int, i: int|
        #![trigger tv[j], wss[i]]
        0 <= j < tv.len() && 0 <= i < wss.len() && wss[i].spec_has_tag(tv[j]) implies wss[i].name@ == w.name@ by {
        assert(tv[j] == w.tags@[j]@);
    }
    lemma_tags_pass_keeps_workspace(th, wh1, wss, tv, w.tags@.len() as int, w.name@);
}

/// Focusing a window with no prior window focus always records its handle
/// as the focus.
pub proof fn lemma_first_focus_window(
    th: Seq<Seq<char>>,
    wh: Seq<usize>,
    winh: Seq<WindowHandle>,
    wss: Seq<Workspace>,
    wins: Seq<Window>,
    w: Window,
)
    requires
        winh.len() == 0,
    ensures
        ({
            let r = spec_focus_window(th, wh, winh, wss, wins, w);
            r.2.len() > 0 && r.2[0] == w.handle
        }),
{
    assert(spec_push_capped(winh, w.handle)[0] == w.handle);
}

} // verus!
