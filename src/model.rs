//! The window manager's model: screens of workspaces of windows, the
//! requests it sends to the display server, and its
//! consistency invariant with the lemmas that keep it.
use vstd::prelude::*;
use crate::config::Config;
use crate::keys::KeybindSet;
use crate::layouts::{Area, Placement};
use crate::screens::{Screen, Workspace};

verus! {

/// A request to the display server.
#[derive(Debug, PartialEq)]
pub enum Request {
    /// Move and resize a window.
    Configure(Placement),
    /// Set a window's border width.
    BorderWidth(u32, u32),
    /// Set a window's border color.
    BorderColor(u32, u32),
    /// Subscribe to a new window's enter, property and structure events.
    Watch(u32),
    MapWindow(u32),
    UnmapWindow(u32),
    /// Give a window the input focus.
    Focus(u32),
    /// Give the root window the input focus.
    FocusRoot,
    /// Put a window on top of the stack.
    Raise(u32),
    /// Move a window to a position.
    MoveTo(u32, i32, i32),
    /// Resize a window.
    Resize(u32, u32, u32),
    /// Set or clear a window's fullscreen state marker.
    FullscreenState(u32, bool),
    /// Publish the workspace a window is on.
    Desktop(u32, usize),
    /// Publish the current workspace.
    CurrentDesktop(usize),
    /// Publish the list of all managed windows.
    ClientList(Vec<u32>),
    /// Close a window's client.
    Kill(u32),
    /// Start an external program.
    Spawn(String),
    /// Stop the window manager.
    Quit,
}

/// What a mouse drag started with: the pointer's offset from the window and
/// the window's position.
#[derive(Clone, Copy, Debug, PartialEq, Eq, Structural)]
pub struct Drag {
    pub diff_x: i32,
    pub diff_y: i32,
    pub pos_x: i32,
    pub pos_y: i32,
    pub window: u32,
}

/// The window manager.
#[derive(Debug)]
pub struct Lapin {
    pub config: Config,
    pub keybinds: KeybindSet,
    /// The screens (monitors).
    pub screens: Vec<Screen>,
    /// Index of the screen with the focus.
    pub current_scr: usize,
    /// The mouse drag in progress, if any.
    pub drag: Option<Drag>,
    /// Time (ms) of the last window creation or destruction.
    pub last_map: u64,
    /// Time (ms) of the last focus change made by the pointer.
    pub last_mouse_change_focus: u64,
}

/// Each `Configure` request of a list of placements.
pub open spec fn configures(ps: Seq<Placement>) -> Seq<Request> {
    ps.map_values(|p: Placement| Request::Configure(p))
}

/// Appends a `Configure` request for each placement.
pub(crate) fn push_placements(out: &mut Vec<Request>, ps: Vec<Placement>)
    ensures
        final(out)@ == old(out)@ + configures(ps@),
{
    let ghost start = out@;
    let mut i: usize = 0;
    while i < ps.len()
        invariant
            0 <= i <= ps@.len(),
            out@ == start + configures(ps@.subrange(0, i as int)),
        decreases ps@.len() - i,
    {
        out.push(Request::Configure(ps[i]));
        i = i + 1;
        proof {
            assert(configures(ps@.subrange(0, i as int)) =~= configures(ps@.subrange(0, i - 1)).push(
                Request::Configure(ps@[i - 1]),
            ));
        }
    }
    assert(ps@.subrange(0, ps@.len() as int) =~= ps@);
}

/// The windows of one workspace, managed then out-of-layout.
pub open spec fn workspace_list(w: Workspace) -> Seq<u32> {
    w.windows@ + w.ool_windows@
}

/// The windows of the first `k` workspaces of a screen.
pub open spec fn screen_list(sc: Screen, k: int) -> Seq<u32>
    decreases k,
{
    if k <= 0 {
        Seq::empty()
    } else {
        screen_list(sc, k - 1) + workspace_list(sc.workspaces@[k - 1])
    }
}

/// The windows of the first `s` screens.
pub open spec fn screens_list(scs: Seq<Screen>, s: int) -> Seq<u32>
    decreases s,
{
    if s <= 0 {
        Seq::empty()
    } else {
        screens_list(scs, s - 1) + screen_list(scs[s - 1], scs[s - 1].workspaces@.len() as int)
    }
}

impl Lapin {
    /// Workspace `k` of screen `s`.
    pub open spec fn ws(&self, s: int, k: int) -> Workspace {
        self.screens@[s].workspaces@[k]
    }

    /// List `o` of workspace `k` of screen `s`.
    pub open spec fn cell(&self, s: int, k: int, o: bool) -> Seq<u32> {
        self.ws(s, k).ring(o)
    }

    /// Whether `(s, k)` names a workspace.
    pub open spec fn valid_cell(&self, s: int, k: int) -> bool {
        0 <= s < self.screens@.len() && 0 <= k < self.screens@[s].workspaces@.len()
    }

    /// Whether window `w` is in list `o` of workspace `k` of screen `s`.
    pub open spec fn holds(&self, s: int, k: int, o: bool, w: u32) -> bool {
        self.valid_cell(s, k) && self.cell(s, k, o).contains(w)
    }

    /// Whether the model tracks window `w`.
    pub open spec fn is_managed(&self, w: u32) -> bool {
        exists|s: int, k: int, o: bool| #[trigger] self.holds(s, k, o, w)
    }

    /// Every managed window is in exactly one list of one workspace of one
    /// screen, and once in it.
    pub open spec fn unique(&self) -> bool {
        &&& forall|s: int, k: int, o: bool|
            self.valid_cell(s, k) ==> #[trigger] self.cell(s, k, o).no_duplicates()
        &&& forall|w: u32, s1: int, k1: int, o1: bool, s2: int, k2: int, o2: bool|
            #[trigger] self.holds(s1, k1, o1, w) && #[trigger] self.holds(s2, k2, o2, w) ==> s1 == s2
                && k1 == k2 && o1 == o2
    }

    /// Index of the current workspace of the current screen.
    pub open spec fn cur_wk(&self) -> int {
        self.screens@[self.current_scr as int].current_wk as int
    }

    /// The current workspace.
    pub open spec fn cur(&self) -> Workspace {
        self.ws(self.current_scr as int, self.cur_wk())
    }

    /// The model is consistent: there is a layout, a screen and, on every
    /// screen, a workspace; every index names something; every workspace's
    /// focus is valid; and no window is in two places.
    pub open spec fn wf(&self) -> bool {
        &&& self.config.layouts@.len() >= 1
        &&& self.screens@.len() >= 1
        &&& self.current_scr < self.screens@.len()
        &&& forall|s: int|
            0 <= s < self.screens@.len() ==> (#[trigger] self.screens@[s]).workspaces@.len() >= 1
                && self.screens@[s].current_wk < self.screens@[s].workspaces@.len()
        &&& forall|s: int, k: int|
            self.valid_cell(s, k) ==> (#[trigger] self.ws(s, k)).focus_ok() && self.ws(s, k).layout
                < self.config.layouts@.len()
        &&& self.unique()
    }

    /// Both models have as many screens, and workspaces on each.
    pub open spec fn same_shape(&self, other: &Lapin) -> bool {
        &&& self.screens@.len() == other.screens@.len()
        &&& forall|s: int|
            0 <= s < self.screens@.len() ==> (#[trigger] self.screens@[s]).workspaces@.len()
                == other.screens@[s].workspaces@.len()
    }

    /// Every list but list `o` of workspace `(s, k)` is the same in both.
    pub open spec fn same_but(&self, other: &Lapin, s: int, k: int, o: bool) -> bool {
        forall|s2: int, k2: int, o2: bool|
            self.valid_cell(s2, k2) && !(s2 == s && k2 == k && o2 == o) ==> #[trigger] other.cell(s2, k2, o2)
                == self.cell(s2, k2, o2)
    }

    /// Every list but two is the same in both.
    pub open spec fn same_but2(
        &self,
        other: &Lapin,
        s1: int,
        k1: int,
        o1: bool,
        s2: int,
        k2: int,
        o2: bool,
    ) -> bool {
        forall|s: int, k: int, o: bool|
            self.valid_cell(s, k) && !(s == s1 && k == k1 && o == o1) && !(s == s2 && k == k2 && o == o2)
                ==> #[trigger] other.cell(s, k, o) == self.cell(s, k, o)
    }

    /// The list of all managed windows, screen by screen, workspace by
    /// workspace, managed windows before out-of-layout ones.
    pub open spec fn client_list(&self) -> Seq<u32> {
        screens_list(self.screens@, self.screens@.len() as int)
    }

    /// The focused window of the current workspace.
    pub open spec fn focused_spec(&self) -> Option<u32> {
        self.cur().focused_window_spec()
    }
}

pub(crate) proof fn lemma_seq_insert_front(s: Seq<u32>, w: u32)
    requires
        s.no_duplicates(),
        !s.contains(w),
    ensures
        s.insert(0, w).no_duplicates(),
        forall|x: u32| #[trigger] s.insert(0, w).contains(x) <==> (x == w || s.contains(x)),
{
    let t = s.insert(0, w);
    assert forall|x: u32| #[trigger] t.contains(x) <==> (x == w || s.contains(x)) by {
        if t.contains(x) {
            let i = choose|i: int| 0 <= i < t.len() && t[i] == x;
            if i > 0 {
                assert(s[i - 1] == x);
            }
        }
        if s.contains(x) {
            let i = choose|i: int| 0 <= i < s.len() && s[i] == x;
            assert(t[i + 1] == x);
        }
        if x == w {
            assert(t[0] == w);
        }
    }
    assert forall|i: int, j: int| 0 <= i < t.len() && 0 <= j < t.len() && i != j implies t[i] != t[j] by {
        if i > 0 && j > 0 {
            assert(t[i] == s[i - 1] && t[j] == s[j - 1]);
        } else if i == 0 {
            assert(s.contains(t[j]));
        } else {
            assert(s.contains(t[i]));
        }
    }
}

pub(crate) proof fn lemma_seq_remove(s: Seq<u32>, i: int)
    requires
        s.no_duplicates(),
        0 <= i < s.len(),
    ensures
        s.remove(i).no_duplicates(),
        forall|x: u32| #[trigger] s.remove(i).contains(x) <==> (s.contains(x) && x != s[i]),
{
    let t = s.remove(i);
    assert forall|x: u32| #[trigger] t.contains(x) <==> (s.contains(x) && x != s[i]) by {
        if t.contains(x) {
            let j = choose|j: int| 0 <= j < t.len() && t[j] == x;
            if j < i {
                assert(s[j] == x);
            } else {
                assert(s[j + 1] == x);
            }
        }
        if s.contains(x) && x != s[i] {
            let j = choose|j: int| 0 <= j < s.len() && s[j] == x;
            if j < i {
                assert(t[j] == x);
            } else {
                assert(j != i);
                assert(t[j - 1] == x);
            }
        }
    }
    assert forall|a: int, b: int| 0 <= a < t.len() && 0 <= b < t.len() && a != b implies t[a] != t[b] by {
        let a2 = if a < i {
            a
        } else {
            a + 1
        };
        let b2 = if b < i {
            b
        } else {
            b + 1
        };
        assert(t[a] == s[a2] && t[b] == s[b2]);
    }
}

/// When one list changes and keeps no duplicate, and every window it holds
/// was already there or is `fresh`, a window the model did not track,
/// uniqueness is kept.
pub(crate) proof fn lemma_replace_cell(a: &Lapin, b: &Lapin, s: int, k: int, o: bool, fresh: Option<u32>)
    requires
        a.unique(),
        a.same_shape(b),
        a.valid_cell(s, k),
        a.same_but(b, s, k, o),
        b.cell(s, k, o).no_duplicates(),
        forall|x: u32|
            #[trigger] b.cell(s, k, o).contains(x) ==> a.cell(s, k, o).contains(x) || (fresh == Some(x)
                && !a.is_managed(x)),
    ensures
        b.unique(),
        forall|x: u32| #[trigger] b.is_managed(x) ==> a.is_managed(x) || fresh == Some(x),
{
    assert forall|s2: int, k2: int, o2: bool| b.valid_cell(s2, k2) implies #[trigger] b.cell(
        s2,
        k2,
        o2,
    ).no_duplicates() by {
        assert(a.valid_cell(s2, k2));
        if !(s2 == s && k2 == k && o2 == o) {
            assert(b.cell(s2, k2, o2) == a.cell(s2, k2, o2));
            assert(a.cell(s2, k2, o2).no_duplicates());
        }
    }
    assert forall|x: u32, s1: int, k1: int, o1: bool| #[trigger] b.holds(s1, k1, o1, x) implies a.holds(
        s1,
        k1,
        o1,
        x,
    ) || (s1 == s && k1 == k && o1 == o && fresh == Some(x) && !a.is_managed(x)) by {
        assert(a.valid_cell(s1, k1));
        if !(s1 == s && k1 == k && o1 == o) {
            assert(b.cell(s1, k1, o1) == a.cell(s1, k1, o1));
        }
    }
    assert forall|x: u32, s1: int, k1: int, o1: bool, s2: int, k2: int, o2: bool|
        #[trigger] b.holds(s1, k1, o1, x) && #[trigger] b.holds(s2, k2, o2, x) implies s1 == s2 && k1 == k2
        && o1 == o2 by {
        if a.holds(s1, k1, o1, x) && a.holds(s2, k2, o2, x) {
        } else if a.holds(s1, k1, o1, x) {
            assert(a.is_managed(x));
        } else if a.holds(s2, k2, o2, x) {
            assert(a.is_managed(x));
        }
    }
    assert forall|x: u32| #[trigger] b.is_managed(x) implies a.is_managed(x) || fresh == Some(x) by {
        let (s1, k1, o1) = choose|s1: int, k1: int, o1: bool| #[trigger] b.holds(s1, k1, o1, x);
        if a.holds(s1, k1, o1, x) {
        }
    }
}

/// Moving a window from one list to the front of another keeps uniqueness
/// and the set of is_managed windows.
pub(crate) proof fn lemma_move_cell(
    a: &Lapin,
    b: &Lapin,
    s1: int,
    k1: int,
    o1: bool,
    i: int,
    s2: int,
    k2: int,
    o2: bool,
)
    requires
        a.unique(),
        a.same_shape(b),
        a.valid_cell(s1, k1),
        a.valid_cell(s2, k2),
        !(s1 == s2 && k1 == k2 && o1 == o2),
        0 <= i < a.cell(s1, k1, o1).len(),
        a.same_but2(b, s1, k1, o1, s2, k2, o2),
        b.cell(s1, k1, o1) == a.cell(s1, k1, o1).remove(i),
        b.cell(s2, k2, o2) == a.cell(s2, k2, o2).insert(0, a.cell(s1, k1, o1)[i]),
    ensures
        b.unique(),
        forall|x: u32| #[trigger] b.is_managed(x) <==> a.is_managed(x),
{
    let w = a.cell(s1, k1, o1)[i];
    assert(a.holds(s1, k1, o1, w));
    assert(!a.cell(s2, k2, o2).contains(w)) by {
        if a.cell(s2, k2, o2).contains(w) {
            assert(a.holds(s2, k2, o2, w));
        }
    }
    lemma_seq_remove(a.cell(s1, k1, o1), i);
    lemma_seq_insert_front(a.cell(s2, k2, o2), w);
    assert forall|s: int, k: int, o: bool| b.valid_cell(s, k) implies #[trigger] b.cell(
        s,
        k,
        o,
    ).no_duplicates() by {
        assert(a.valid_cell(s, k));
        if !(s == s1 && k == k1 && o == o1) && !(s == s2 && k == k2 && o == o2) {
            assert(b.cell(s, k, o) == a.cell(s, k, o));
            assert(a.cell(s, k, o).no_duplicates());
        }
    }
    // where a window is held after the move
    assert forall|x: u32, s: int, k: int, o: bool| #[trigger] b.holds(s, k, o, x) implies (x == w && s
        == s2 && k == k2 && o == o2) || (x != w && a.holds(s, k, o, x)) by {
        assert(a.valid_cell(s, k));
        if s == s1 && k == k1 && o == o1 {
        } else if s == s2 && k == k2 && o == o2 {
            if x != w {
                assert(a.cell(s, k, o).contains(x));
            }
        } else {
            assert(b.cell(s, k, o) == a.cell(s, k, o));
            if x == w {
                assert(a.holds(s, k, o, x));
            }
        }
    }
    assert forall|x: u32, p1: int, q1: int, r1: bool, p2: int, q2: int, r2: bool|
        #[trigger] b.holds(p1, q1, r1, x) && #[trigger] b.holds(p2, q2, r2, x) implies p1 == p2 && q1 == q2
        && r1 == r2 by {
        if x != w {
            assert(a.holds(p1, q1, r1, x) && a.holds(p2, q2, r2, x));
        }
    }
    assert forall|x: u32| #[trigger] b.is_managed(x) <==> a.is_managed(x) by {
        if b.is_managed(x) {
            let (s, k, o) = choose|s: int, k: int, o: bool| #[trigger] b.holds(s, k, o, x);
            if x == w {
                assert(a.holds(s1, k1, o1, x));
            } else {
                assert(a.holds(s, k, o, x));
            }
        }
        if a.is_managed(x) {
            let (s, k, o) = choose|s: int, k: int, o: bool| #[trigger] a.holds(s, k, o, x);
            if x == w {
                assert(b.cell(s2, k2, o2)[0] == w);
                assert(b.holds(s2, k2, o2, x));
            } else {
                assert(b.valid_cell(s, k));
                if s == s1 && k == k1 && o == o1 {
                    assert(b.holds(s, k, o, x));
                } else if s == s2 && k == k2 && o == o2 {
                    assert(b.holds(s, k, o, x));
                } else {
                    assert(b.cell(s, k, o) == a.cell(s, k, o));
                    assert(b.holds(s, k, o, x));
                }
            }
        }
    }
}

/// In a consistent model every managed window is in exactly one list of
/// exactly one workspace of one screen, and only once in that list.
pub proof fn lemma_window_in_one_place(l: &Lapin, w: u32)
    requires
        l.wf(),
        l.is_managed(w),
    ensures
        exists|s: int, k: int, o: bool|
            #[trigger] l.holds(s, k, o, w) && forall|s2: int, k2: int, o2: bool|
                #[trigger] l.holds(s2, k2, o2, w) ==> s2 == s && k2 == k && o2 == o,
        forall|s: int, k: int, o: bool, i: int, j: int|
            l.holds(s, k, o, w) && 0 <= i < l.cell(s, k, o).len() && 0 <= j < l.cell(s, k, o).len() && #[trigger] l.cell(s, k, o)[i] == w
                && #[trigger] l.cell(s, k, o)[j] == w ==> i == j,
{
    let (s, k, o) = choose|s: int, k: int, o: bool| #[trigger] l.holds(s, k, o, w);
    assert(l.holds(s, k, o, w));
    assert forall|s: int, k: int, o: bool, i: int, j: int|
        l.holds(s, k, o, w) && 0 <= i < l.cell(s, k, o).len() && 0 <= j < l.cell(s, k, o).len() && #[trigger] l.cell(s, k, o)[i] == w
            && #[trigger] l.cell(s, k, o)[j] == w implies i == j by {
        assert(l.cell(s, k, o).no_duplicates());
    }
}

/// In a consistent model the focus of every workspace is valid: an index
/// into the list its mode selects, and nowhere exactly when the workspace
/// holds no window.
pub proof fn lemma_focus_valid(l: &Lapin, s: int, k: int)
    requires
        l.wf(),
        l.valid_cell(s, k),
    ensures
        l.ws(s, k).focused matches Some(i) ==> i < l.ws(s, k).ring(l.ws(s, k).ool_focus).len(),
        l.ws(s, k).focused is None <==> (l.ws(s, k).windows@.len() == 0 && l.ws(s, k).ool_windows@.len() == 0),
{
    assert(l.ws(s, k).focus_ok());
}

} // verus!
