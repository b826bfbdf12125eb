use vstd::prelude::*;
use crate::display_action::DisplayAction;
use crate::history::HISTORY_LIMIT;

verus! {

/// Identifies a window towards the window system; comparable and copiable.
#[derive(Clone, Copy, Debug, PartialEq, Eq, Structural)]
pub enum WindowHandle {
    MockHandle(i32),
}

/// The character sequences of a sequence of strings.
pub open spec fn views_of(s: Seq<String>) -> Seq<Seq<char>> {
    s.map_values(|x: String| x@)
}

/// Membership of the tag name `t` in a list of tag names.
pub open spec fn tags_contain(tags: Seq<String>, t: Seq<char>) -> bool {
    exists|i: int| #![trigger tags[i]] 0 <= i < tags.len() && tags[i]@ == t
}

/// A window: a unique handle, an optional transient owner, and the tags it
/// currently belongs to (kept free of duplicates).
#[derive(Clone, Debug)]
pub struct Window {
    pub handle: WindowHandle,
    pub transient: Option<WindowHandle>,
    pub tags: Vec<String>,
}

impl Window {
    pub open spec fn spec_has_tag(self, t: Seq<char>) -> bool {
        tags_contain(self.tags@, t)
    }

    pub fn new(handle: WindowHandle, transient: Option<WindowHandle>) -> (w: Window)
        ensures
            w.handle == handle,
            w.transient == transient,
            w.tags@.len() == 0,
    {
        Window { handle, transient, tags: Vec::new() }
    }

    /// Whether this window belongs to tag `tag`.
    pub fn has_tag(&self, tag: &String) -> (r: bool)
        ensures
            r == self.spec_has_tag(tag@),
    {
        let mut i: usize = 0;
        while i < self.tags.len()
            invariant
                i <= self.tags@.len(),
                forall|j: int| #![trigger self.tags@[j]] 0 <= j < i ==> self.tags@[j]@ != tag@,
            decreases self.tags@.len() - i,
        {
            if self.tags[i] == *tag {
                return true;
            }
            i += 1;
        }
        false
    }

    /// Add membership of `tag`; a tag already present is not recorded twice.
    pub fn tag(&mut self, tag: String)
        ensures
            final(self).handle == old(self).handle,
            final(self).transient == old(self).transient,
            old(self).spec_has_tag(tag@) ==> final(self).tags == old(self).tags,
            !old(self).spec_has_tag(tag@) ==> final(self).tags@ == old(self).tags@.push(tag),
    {
        if !self.has_tag(&tag) {
            self.tags.push(tag);
        }
    }

    /// Remove every tag membership.
    pub fn clear_tags(&mut self)
        ensures
            final(self).handle == old(self).handle,
            final(self).transient == old(self).transient,
            final(self).tags@.len() == 0,
    {
        self.tags = Vec::new();
    }
}

/// A named display region and the tags it currently shows. A workspace is
/// identified by its name: the manager never holds two workspaces of one name.
#[derive(Clone, Debug)]
pub struct Workspace {
    pub name: String,
    pub tags: Vec<String>,
}

impl Workspace {
    pub open spec fn spec_has_tag(self, t: Seq<char>) -> bool {
        tags_contain(self.tags@, t)
    }

    /// Every tag this workspace shows is exactly `t`.
    pub open spec fn tags_all(self, t: Seq<char>) -> bool {
        forall|i: int| #![trigger self.tags@[i]] 0 <= i < self.tags@.len() ==> self.tags@[i]@ == t
    }

    /// Whether this workspace currently displays tag `tag`.
    pub fn has_tag(&self, tag: &String) -> (r: bool)
        ensures
            r == self.spec_has_tag(tag@),
    {
        let mut i: usize = 0;
        while i < self.tags.len()
            invariant
                i <= self.tags@.len(),
                forall|j: int| #![trigger self.tags@[j]] 0 <= j < i ==> self.tags@[j]@ != tag@,
            decreases self.tags@.len() - i,
        {
            if self.tags[i] == *tag {
                return true;
            }
            i += 1;
        }
        false
    }
}

/// A physical output; its creation is what brings a workspace into being.
#[derive(Clone, Debug)]
pub struct Screen {
    pub width: i32,
    pub height: i32,
}

impl Default for Screen {
    fn default() -> (s: Screen)
        ensures
            s.width == 0,
            s.height == 0,
    {
        Screen { width: 0, height: 0 }
    }
}

/// Index of the first window carrying handle `h`, if any.
pub open spec fn first_with_handle(ws: Seq<Window>, h: WindowHandle) -> Option<int>
    decreases ws.len(),
{
    if ws.len() == 0 {
        None
    } else if ws[0].handle == h {
        Some(0int)
    } else {
        match first_with_handle(ws.drop_first(), h) {
            Some(j) => Some(j + 1),
            None => None,
        }
    }
}

/// Some window in `ws` carries handle `h`.
pub open spec fn has_handle(ws: Seq<Window>, h: WindowHandle) -> bool {
    exists|i: int| #![trigger ws[i]] 0 <= i < ws.len() && ws[i].handle == h
}

pub proof fn lemma_first_with_handle_some(ws: Seq<Window>, h: WindowHandle, j: int)
    requires
        0 <= j < ws.len(),
        ws[j].handle == h,
        forall|i: int| #![trigger ws[i]] 0 <= i < j ==> ws[i].handle != h,
    ensures
        first_with_handle(ws, h) == Some(j),
    decreases j,
{
    if j == 0 {
    } else {
        assert(ws[0].handle != h);
        assert forall|i: int| #![trigger ws.drop_first()[i]] 0 <= i < j - 1 implies ws.drop_first()[i].handle
            != h by {
            assert(ws.drop_first()[i] == ws[i + 1]);
        }
        assert(ws.drop_first()[j - 1] == ws[j]);
        lemma_first_with_handle_some(ws.drop_first(), h, j - 1);
    }
}

pub proof fn lemma_first_with_handle_none(ws: Seq<Window>, h: WindowHandle)
    requires
        forall|i: int| #![trigger ws[i]] 0 <= i < ws.len() ==> ws[i].handle != h,
    ensures
        first_with_handle(ws, h) is None,
    decreases ws.len(),
{
    if ws.len() == 0 {
    } else {
        assert(ws[0].handle != h);
        assert forall|i: int| #![trigger ws.drop_first()[i]] 0 <= i < ws.drop_first().len() implies ws.drop_first()[i].handle
            != h by {
            assert(ws.drop_first()[i] == ws[i + 1]);
        }
        lemma_first_with_handle_none(ws.drop_first(), h);
    }
}

/// A found index is in bounds, matches, and nothing before it matches.
pub proof fn lemma_first_with_handle_props(ws: Seq<Window>, h: WindowHandle)
    requires
        first_with_handle(ws, h) is Some,
    ensures
        0 <= first_with_handle(ws, h)->Some_0 < ws.len(),
        ws[first_with_handle(ws, h)->Some_0].handle == h,
    decreases ws.len(),
{
    if ws.len() == 0 {
    } else if ws[0].handle == h {
    } else {
        lemma_first_with_handle_props(ws.drop_first(), h);
        let j = first_with_handle(ws.drop_first(), h)->Some_0;
        assert(ws.drop_first()[j] == ws[j + 1]);
    }
}

/// Owns all entities, the queue of pending display actions, and the three
/// bounded focus histories. The front of each history is the current focus.
pub struct Manager {
    pub workspaces: Vec<Workspace>,
    pub windows: Vec<Window>,
    pub focused_workspace_history: Vec<usize>,
    pub focused_window_history: Vec<WindowHandle>,
    pub focused_tag_history: Vec<String>,
    pub actions: Vec<DisplayAction>,
}

impl Manager {
    /// The tag focus history, most recent first, as character sequences.
    pub open spec fn tag_hist(self) -> Seq<Seq<char>> {
        views_of(self.focused_tag_history@)
    }

    /// The workspace focus history, most recent first, as workspace indices.
    pub open spec fn ws_hist(self) -> Seq<usize> {
        self.focused_workspace_history@
    }

    /// The window focus history, most recent first, as window handles.
    pub open spec fn win_hist(self) -> Seq<WindowHandle> {
        self.focused_window_history@
    }

    /// The currently focused tag: the front of the tag history.
    pub open spec fn spec_focused_tag(self) -> Option<Seq<char>> {
        if self.tag_hist().len() > 0 {
            Some(self.tag_hist()[0])
        } else {
            None
        }
    }

    /// The currently focused workspace: the one at the index the front of the
    /// workspace history records, absent when the history is empty or stale.
    pub open spec fn spec_focused_workspace(self) -> Option<Workspace> {
        if self.ws_hist().len() > 0 && (self.ws_hist()[0] as int) < self.workspaces@.len() {
            Some(self.workspaces@[self.ws_hist()[0] as int])
        } else {
            None
        }
    }

    /// The currently focused window: the first one carrying the handle at the
    /// front of the window history, absent when the history is empty or no
    /// window carries that handle.
    pub open spec fn spec_focused_window(self) -> Option<Window> {
        if self.win_hist().len() > 0 {
            match first_with_handle(self.windows@, self.win_hist()[0]) {
                Some(j) => Some(self.windows@[j]),
                None => None,
            }
        } else {
            None
        }
    }

    /// No history exceeds its capacity.
    pub open spec fn histories_bounded(self) -> bool {
        &&& self.tag_hist().len() <= HISTORY_LIMIT as int
        &&& self.ws_hist().len() <= HISTORY_LIMIT as int
        &&& self.win_hist().len() <= HISTORY_LIMIT as int
    }

    /// The workspace at the front of the workspace history, if any.
    pub fn focused_workspace(&self) -> (r: Option<&Workspace>)
        ensures
            (match r {
                Some(w) => self.spec_focused_workspace() == Some(*w),
                None => self.spec_focused_workspace() is None,
            }),
    {
        if self.focused_workspace_history.len() > 0 {
            let idx = self.focused_workspace_history[0];
            if idx < self.workspaces.len() {
                return Some(&self.workspaces[idx]);
            }
        }
        None
    }

    /// The window whose handle stands at the front of the window history.
    pub fn focused_window(&self) -> (r: Option<&Window>)
        ensures
            (match r {
                Some(w) => self.spec_focused_window() == Some(*w),
                None => self.spec_focused_window() is None,
            }),
    {
        if self.focused_window_history.len() == 0 {
            return None;
        }
        let h = self.focused_window_history[0];
        let mut j: usize = 0;
        while j < self.windows.len()
            invariant
                j <= self.windows@.len(),
                h == self.win_hist()[0],
                self.win_hist().len() > 0,
                forall|i: int| #![trigger self.windows@[i]] 0 <= i < j ==> self.windows@[i].handle != h,
            decreases self.windows@.len() - j,
        {
            if self.windows[j].handle == h {
                proof {
                    lemma_first_with_handle_some(self.windows@, h, j as int);
                }
                return Some(&self.windows[j]);
            }
            j += 1;
        }
        proof {
            lemma_first_with_handle_none(self.windows@, h);
        }
        None
    }

    /// The tag name at the front of the tag history, if any.
    pub fn focused_tag(&self) -> (r: Option<String>)
        ensures
            (match r {
                Some(t) => self.spec_focused_tag() == Some(t@),
                None => self.spec_focused_tag() is None,
            }),
    {
        if self.focused_tag_history.len() > 0 {
            Some(self.focused_tag_history[0].clone())
        } else {
            None
        }
    }
}

impl Default for Manager {
    /// A manager with no entities, no pending actions, and empty histories.
    fn default() -> (m: Manager)
        ensures
            m.workspaces@.len() == 0,
            m.windows@.len() == 0,
            m.ws_hist().len() == 0,
            m.win_hist().len() == 0,
            m.tag_hist().len() == 0,
            m.actions@.len() == 0,
    {
        Manager {
            workspaces: Vec::new(),
            windows: Vec::new(),
            focused_workspace_history: Vec::new(),
            focused_window_history: Vec::new(),
            focused_tag_history: Vec::new(),
            actions: Vec::new(),
        }
    }
}

} // verus!
