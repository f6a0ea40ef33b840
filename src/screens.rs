//! Screens and their workspaces: two ordered window lists per workspace, a
//! focus cursor over them, and the navigation rules on that cursor.
use vstd::prelude::*;
use crate::layouts::Area;

verus! {

/// Position of a window in the two lists read as one ring: managed windows
/// first, then the out-of-layout ones.
pub open spec fn ring_index(managed: int, ool: bool, i: int) -> int {
    if ool {
        managed + i
    } else {
        i
    }
}

/// Whether `(ool, i)` names a window of a workspace holding `managed` and
/// `floating` windows.
pub open spec fn valid_pos(managed: int, floating: int, ool: bool, i: int) -> bool {
    0 <= i < (if ool {
        floating
    } else {
        managed
    })
}

/// One step of focus navigation. The managed and the out-of-layout lists are
/// two rings: stepping past an end moves to the other ring (to its start going
/// forward, to its end going back) unless that one is empty, in which case
/// the step wraps in the same ring. Nothing moves with one window or none.
pub open spec fn cycle_step(managed: int, floating: int, ool: bool, i: int, previous: bool) -> (bool, int) {
    let this = if ool {
        floating
    } else {
        managed
    };
    let other = if ool {
        managed
    } else {
        floating
    };
    if managed + floating <= 1 {
        (ool, i)
    } else if previous {
        if i - 1 < 0 {
            if other > 0 {
                (!ool, other - 1)
            } else {
                (ool, this - 1)
            }
        } else {
            (ool, i - 1)
        }
    } else {
        if i + 1 >= this {
            if other > 0 {
                (!ool, 0)
            } else {
                (ool, 0)
            }
        } else {
            (ool, i + 1)
        }
    }
}

/// `j` forward steps from `(ool, i)`.
pub open spec fn cycle_iter(managed: int, floating: int, ool: bool, i: int, j: nat) -> (bool, int)
    decreases j,
{
    if j == 0 {
        (ool, i)
    } else {
        let p = cycle_iter(managed, floating, ool, i, (j - 1) as nat);
        cycle_step(managed, floating, p.0, p.1, false)
    }
}

/// Where the focus goes after a window left a workspace, given the list
/// (`ool`) and index `i` it had: the same list if it still holds a window,
/// else the other one, else nowhere; the index is clamped to the list.
pub open spec fn refocus_spec(managed: int, floating: int, i: int, ool: bool) -> Option<(int, bool)> {
    let mode = if ool && floating > 0 {
        Some(true)
    } else if managed > 0 {
        Some(false)
    } else if floating > 0 {
        Some(true)
    } else {
        None
    };
    match mode {
        None => None,
        Some(m) => {
            let len = if m {
                floating
            } else {
                managed
            };
            Some((if i >= len { len - 1 } else { i }, m))
        },
    }
}

/// A step of navigation moves one place along the combined ring, wrapping
/// from its end to its start (going forward) and from its start to its end
/// (going back).
pub proof fn lemma_cycle_step_ring(managed: int, floating: int, ool: bool, i: int, previous: bool)
    requires
        managed >= 0,
        floating >= 0,
        valid_pos(managed, floating, ool, i),
    ensures
        ({
            let p = cycle_step(managed, floating, ool, i, previous);
            let k = managed + floating;
            &&& valid_pos(managed, floating, p.0, p.1)
            &&& !previous ==> ring_index(managed, p.0, p.1) == (ring_index(managed, ool, i) + 1) % k
            &&& previous ==> ring_index(managed, p.0, p.1) == (ring_index(managed, ool, i) + k - 1) % k
        }),
{
    let k = managed + floating;
    let r = ring_index(managed, ool, i);
    assert(0 <= r < k);
    if k == 1 {
        assert((r + 1) % 1 == 0);
        assert((r + 1 - 1) % 1 == 0);
    } else {
        if r + 1 < k {
            assert((r + 1) % k == r + 1) by {
                vstd::arithmetic::div_mod::lemma_small_mod((r + 1) as nat, k as nat);
            }
        } else {
            assert((r + 1) % k == 0) by {
                vstd::arithmetic::div_mod::lemma_mod_self_0(k);
            }
        }
        if r >= 1 {
            assert((r + k - 1) % k == r - 1) by {
                vstd::arithmetic::div_mod::lemma_mod_add_multiples_vanish(r - 1, k);
                vstd::arithmetic::div_mod::lemma_small_mod((r - 1) as nat, k as nat);
            }
        } else {
            assert((r + k - 1) % k == k - 1) by {
                vstd::arithmetic::div_mod::lemma_small_mod((k - 1) as nat, k as nat);
            }
        }
    }
}

/// Repeated forward steps walk the combined ring in order.
pub proof fn lemma_cycle_iter_ring(managed: int, floating: int, ool: bool, i: int, j: nat)
    requires
        managed >= 0,
        floating >= 0,
        valid_pos(managed, floating, ool, i),
    ensures
        ({
            let p = cycle_iter(managed, floating, ool, i, j);
            &&& valid_pos(managed, floating, p.0, p.1)
            &&& ring_index(managed, p.0, p.1) == (ring_index(managed, ool, i) + j) % (managed + floating)
        }),
    decreases j,
{
    let k = managed + floating;
    if j == 0 {
        vstd::arithmetic::div_mod::lemma_small_mod(ring_index(managed, ool, i) as nat, k as nat);
    } else {
        lemma_cycle_iter_ring(managed, floating, ool, i, (j - 1) as nat);
        let p = cycle_iter(managed, floating, ool, i, (j - 1) as nat);
        lemma_cycle_step_ring(managed, floating, p.0, p.1, false);
        let r = ring_index(managed, ool, i);
        vstd::arithmetic::div_mod::lemma_add_mod_noop(r + j - 1, 1, k);
        if k > 1 {
            vstd::arithmetic::div_mod::lemma_small_mod(1, k as nat);
        }
        if k == 1 {
            assert(1int % 1 == 0);
            vstd::arithmetic::div_mod::lemma_mod_self_0(1);
        }
        vstd::arithmetic::div_mod::lemma_mod_twice(r + j - 1, k);
    }
}

/// Two positions of one workspace with the same ring index are the same.
proof fn lemma_ring_index_injective(managed: int, floating: int, o1: bool, i1: int, o2: bool, i2: int)
    requires
        valid_pos(managed, floating, o1, i1),
        valid_pos(managed, floating, o2, i2),
        ring_index(managed, o1, i1) == ring_index(managed, o2, i2),
    ensures
        o1 == o2,
        i1 == i2,
{
}

/// Navigating forward from any window of a workspace of `k` windows visits
/// every window exactly once in `k` steps, then is back where it started,
/// however the windows are shared between the two lists.
pub proof fn lemma_cycle_coverage(managed: int, floating: int, ool: bool, i: int)
    requires
        managed >= 0,
        floating >= 0,
        valid_pos(managed, floating, ool, i),
    ensures
        cycle_iter(managed, floating, ool, i, (managed + floating) as nat) == (ool, i),
        forall|j1: nat, j2: nat|
            j1 < j2 < managed + floating ==> cycle_iter(managed, floating, ool, i, j1) != cycle_iter(
                managed,
                floating,
                ool,
                i,
                j2,
            ),
        forall|o: bool, t: int|
            valid_pos(managed, floating, o, t) ==> exists|j: nat|
                j < managed + floating && cycle_iter(managed, floating, ool, i, j) == (o, t),
{
    let k = managed + floating;
    let r = ring_index(managed, ool, i);
    lemma_cycle_iter_ring(managed, floating, ool, i, k as nat);
    let pk = cycle_iter(managed, floating, ool, i, k as nat);
    assert((r + k) % k == r) by {
        vstd::arithmetic::div_mod::lemma_mod_add_multiples_vanish(r, k);
        vstd::arithmetic::div_mod::lemma_small_mod(r as nat, k as nat);
    }
    lemma_ring_index_injective(managed, floating, pk.0, pk.1, ool, i);
    assert forall|j1: nat, j2: nat| j1 < j2 < managed + floating implies cycle_iter(
        managed,
        floating,
        ool,
        i,
        j1,
    ) != cycle_iter(managed, floating, ool, i, j2) by {
        lemma_cycle_iter_ring(managed, floating, ool, i, j1);
        lemma_cycle_iter_ring(managed, floating, ool, i, j2);
        if cycle_iter(managed, floating, ool, i, j1) == cycle_iter(managed, floating, ool, i, j2) {
            vstd::arithmetic::div_mod::lemma_fundamental_div_mod(r + j1, k);
            vstd::arithmetic::div_mod::lemma_fundamental_div_mod(r + j2, k);
            assert((r + j1) / k <= (r + j2) / k) by {
                vstd::arithmetic::div_mod::lemma_div_is_ordered(r + j1, r + j2, k);
            }
            assert((r + j2) / k <= (r + j1) / k + 1) by {
                vstd::arithmetic::div_mod::lemma_div_is_ordered(r + j2, r + j1 + k, k);
                vstd::arithmetic::div_mod::lemma_div_plus_one(r + j1, k);
            }
            assert(false) by (nonlinear_arith)
                requires
                    r + j1 == k * ((r + j1) / k) + (r + j1) % k,
                    r + j2 == k * ((r + j2) / k) + (r + j2) % k,
                    (r + j1) % k == (r + j2) % k,
                    (r + j1) / k <= (r + j2) / k <= (r + j1) / k + 1,
                    j1 < j2 < k,
            ;
        }
    }
    assert forall|o: bool, t: int| valid_pos(managed, floating, o, t) implies exists|j: nat|
        j < managed + floating && cycle_iter(managed, floating, ool, i, j) == (o, t) by {
        let q = ring_index(managed, o, t);
        let j: nat = (if q >= r {
            q - r
        } else {
            q - r + k
        }) as nat;
        lemma_cycle_iter_ring(managed, floating, ool, i, j);
        let pj = cycle_iter(managed, floating, ool, i, j);
        if q >= r {
            vstd::arithmetic::div_mod::lemma_small_mod(q as nat, k as nat);
        } else {
            vstd::arithmetic::div_mod::lemma_mod_add_multiples_vanish(q, k);
            vstd::arithmetic::div_mod::lemma_small_mod(q as nat, k as nat);
        }
        lemma_ring_index_injective(managed, floating, pj.0, pj.1, o, t);
    }
}

/// After the last window of a list of `n` is taken out while focused at
/// `n - 1`, the focus moves to `n - 2` in the same list, or to the other
/// list if that one was the last window there, or nowhere if none is left.
pub proof fn lemma_removal_clamp(n: int, other: int, ool: bool)
    requires
        n >= 1,
        other >= 0,
    ensures
        ({
            let (managed, floating) = if ool {
                (other, n - 1)
            } else {
                (n - 1, other)
            };
            let r = refocus_spec(managed, floating, n - 1, ool);
            &&& n > 1 ==> r == Some((n - 2, ool))
            &&& n == 1 && other > 0 ==> (r matches Some((i, m)) && m == !ool && 0 <= i < other)
            &&& n == 1 && other == 0 ==> r is None
        }),
{
}

/// A run of positions where each is one forward step from the one before
/// (as successive calls of next-window produce) is the forward iteration
/// from the first: so `lemma_cycle_coverage` applies to it.
pub proof fn lemma_steps_are_iteration(managed: int, floating: int, ps: Seq<(bool, int)>)
    requires
        ps.len() >= 1,
        forall|j: int| 0 <= j < ps.len() - 1 ==> #[trigger] ps[j + 1] == cycle_step(managed, floating, ps[j].0, ps[j].1, false),
    ensures
        forall|j: int| 0 <= j < ps.len() ==> #[trigger] ps[j] == cycle_iter(managed, floating, ps[0].0, ps[0].1, j as nat),
{
    assert forall|j: int| 0 <= j < ps.len() implies #[trigger] ps[j] == cycle_iter(managed, floating, ps[0].0, ps[0].1, j as nat) by {
        lemma_steps_prefix(managed, floating, ps, j);
    }
}

proof fn lemma_steps_prefix(managed: int, floating: int, ps: Seq<(bool, int)>, j: int)
    requires
        0 <= j < ps.len(),
        forall|t: int| 0 <= t < ps.len() - 1 ==> #[trigger] ps[t + 1] == cycle_step(managed, floating, ps[t].0, ps[t].1, false),
    ensures
        ps[j] == cycle_iter(managed, floating, ps[0].0, ps[0].1, j as nat),
    decreases j,
{
    if j > 0 {
        lemma_steps_prefix(managed, floating, ps, j - 1);
        assert(ps[(j - 1) + 1] == cycle_step(managed, floating, ps[j - 1].0, ps[j - 1].1, false));
    }
}

/// The removal policy always leaves a valid focus: nowhere exactly when
/// both lists are empty, else an index of the list it selects.
pub proof fn lemma_refocus_valid(managed: int, floating: int, i: int, ool: bool)
    requires
        managed >= 0,
        floating >= 0,
        i >= 0,
    ensures
        refocus_spec(managed, floating, i, ool) is None <==> (managed == 0 && floating == 0),
        refocus_spec(managed, floating, i, ool) matches Some((j, m)) ==> 0 <= j < (if m {
            floating
        } else {
            managed
        }),
{
}

/// A virtual workspace.
#[derive(Debug)]
pub struct Workspace {
    pub name: &'static str,
    /// Index of the focused window in the list `ool_focus` selects.
    pub focused: Option<usize>,
    /// Whether the focus is on the out-of-layout list.
    pub ool_focus: bool,
    /// The managed windows, master first.
    pub windows: Vec<u32>,
    /// The out-of-layout (floating) windows, top of the stack first.
    pub ool_windows: Vec<u32>,
    /// Index of the active layout in the registry.
    pub layout: usize,
    pub respect_reserved_space: bool,
}

impl Workspace {
    /// One of the two lists.
    pub open spec fn ring(&self, ool: bool) -> Seq<u32> {
        if ool {
            self.ool_windows@
        } else {
            self.windows@
        }
    }

    /// The focus cursor is nowhere exactly when the workspace is empty, and
    /// otherwise names a window of the list it selects.
    pub open spec fn focus_ok(&self) -> bool {
        &&& (self.focused is None <==> (self.windows@.len() == 0 && self.ool_windows@.len() == 0))
        &&& (self.focused matches Some(i) ==> i < self.ring(self.ool_focus).len())
    }

    /// The focused window, if any.
    pub open spec fn focused_window_spec(&self) -> Option<u32> {
        match self.focused {
            Some(i) => Some(self.ring(self.ool_focus)[i as int]),
            None => None,
        }
    }

    /// An empty workspace named `name`, on the first layout, respecting the
    /// reserved space.
    pub fn new(name: &'static str) -> (r: Workspace)
        ensures
            r.name == name,
            r.focused is None,
            !r.ool_focus,
            r.windows@.len() == 0,
            r.ool_windows@.len() == 0,
            r.layout == 0,
            r.respect_reserved_space,
            r.focus_ok(),
    {
        Workspace {
            name,
            focused: None,
            ool_focus: false,
            windows: Vec::new(),
            ool_windows: Vec::new(),
            layout: 0,
            respect_reserved_space: true,
        }
    }

    /// The focused window, if any.
    pub fn focused_window(&self) -> (r: Option<u32>)
        requires
            self.focus_ok(),
        ensures
            r == self.focused_window_spec(),
    {
        match self.focused {
            Some(i) => if self.ool_focus {
                Some(self.ool_windows[i])
            } else {
                Some(self.windows[i])
            },
            None => None,
        }
    }

    /// Inserts `w` at the front of one list. The focus stays on the window it
    /// was on; an empty workspace gets its focus on `w`.
    pub fn insert_window(&mut self, w: u32, ool: bool)
        requires
            old(self).focus_ok(),
        ensures
            final(self).focus_ok(),
            final(self).ring(ool) == old(self).ring(ool).insert(0, w),
            final(self).ring(!ool) == old(self).ring(!ool),
            old(self).focused is Some ==> final(self).focused_window_spec() == old(
                self,
            ).focused_window_spec() && final(self).ool_focus == old(self).ool_focus,
            old(self).focused is None ==> final(self).focused == Some(0usize) && final(self).ool_focus
                == ool,
            final(self).name == old(self).name,
            final(self).layout == old(self).layout,
            final(self).respect_reserved_space == old(self).respect_reserved_space,
    {
        let ghost before = *self;
        if ool {
            self.ool_windows.insert(0, w);
        } else {
            self.windows.insert(0, w);
        }
        let n = if ool {
            self.ool_windows.len()
        } else {
            self.windows.len()
        };
        assert(n == before.ring(ool).len() + 1);
        match self.focused {
            None => {
                self.focused = Some(0);
                self.ool_focus = ool;
            },
            Some(i) => {
                if self.ool_focus == ool {
                    self.focused = Some(i + 1);
                }
            },
        }
    }

    /// Puts the focus cursor on window `i` of one list.
    pub fn focus_at(&mut self, i: usize, ool: bool)
        requires
            i < old(self).ring(ool).len(),
        ensures
            final(self).focused == Some(i),
            final(self).ool_focus == ool,
            final(self).focus_ok(),
            final(self).windows == old(self).windows,
            final(self).ool_windows == old(self).ool_windows,
            final(self).name == old(self).name,
            final(self).layout == old(self).layout,
            final(self).respect_reserved_space == old(self).respect_reserved_space,
    {
        self.focused = Some(i);
        self.ool_focus = ool;
    }

    /// Takes window `i` out of one list and moves the focus by the removal
    /// policy from that window's place; returns the window.
    pub fn remove_and_refocus(&mut self, i: usize, ool: bool) -> (w: u32)
        requires
            old(self).focus_ok(),
            i < old(self).ring(ool).len(),
        ensures
            w == old(self).ring(ool)[i as int],
            final(self).focus_ok(),
            final(self).ring(ool) == old(self).ring(ool).remove(i as int),
            final(self).ring(!ool) == old(self).ring(!ool),
            ({
                let r = refocus_spec(
                    final(self).windows@.len() as int,
                    final(self).ool_windows@.len() as int,
                    i as int,
                    ool,
                );
                &&& r is None ==> final(self).focused is None
                &&& r matches Some((j, m)) ==> final(self).focused == Some(j as usize)
                    && final(self).ool_focus == m
            }),
            final(self).name == old(self).name,
            final(self).layout == old(self).layout,
            final(self).respect_reserved_space == old(self).respect_reserved_space,
    {
        let w = if ool {
            self.ool_windows.remove(i)
        } else {
            self.windows.remove(i)
        };
        self.refocus(i, ool);
        w
    }

    /// Applies the removal policy from position `(ool, i)`.
    fn refocus(&mut self, i: usize, ool: bool)
        ensures
            ({
                let r = refocus_spec(
                    old(self).windows@.len() as int,
                    old(self).ool_windows@.len() as int,
                    i as int,
                    ool,
                );
                &&& r is None ==> final(self).focused is None
                &&& r matches Some((j, m)) ==> final(self).focused == Some(j as usize)
                    && final(self).ool_focus == m
            }),
            final(self).focus_ok(),
            final(self).windows == old(self).windows,
            final(self).ool_windows == old(self).ool_windows,
            final(self).name == old(self).name,
            final(self).layout == old(self).layout,
            final(self).respect_reserved_space == old(self).respect_reserved_space,
    {
        let mode = if ool && self.ool_windows.len() > 0 {
            true
        } else if self.windows.len() > 0 {
            false
        } else if self.ool_windows.len() > 0 {
            true
        } else {
            self.focused = None;
            return ;
        };
        let len = if mode {
            self.ool_windows.len()
        } else {
            self.windows.len()
        };
        let j = if i >= len {
            len - 1
        } else {
            i
        };
        self.focused = Some(j);
        self.ool_focus = mode;
    }

    /// Takes window `i` out of one list while keeping the focus on the window
    /// it was on; if that was the window taken out, the removal policy moves
    /// it from its place. Returns the window.
    pub fn remove_keep_focus(&mut self, i: usize, ool: bool) -> (w: u32)
        requires
            old(self).focus_ok(),
            i < old(self).ring(ool).len(),
        ensures
            w == old(self).ring(ool)[i as int],
            final(self).focus_ok(),
            final(self).ring(ool) == old(self).ring(ool).remove(i as int),
            final(self).ring(!ool) == old(self).ring(!ool),
            old(self).focused_window_spec() != Some(w) ==> final(self).focused_window_spec() == old(
                self,
            ).focused_window_spec(),
            final(self).name == old(self).name,
            final(self).layout == old(self).layout,
            final(self).respect_reserved_space == old(self).respect_reserved_space,
    {
        let ghost before = *self;
        let w = if ool {
            self.ool_windows.remove(i)
        } else {
            self.windows.remove(i)
        };
        let f = self.focused.unwrap();
        if self.ool_focus == ool && f > i {
            self.focused = Some(f - 1);
            assert(self.ring(ool) == before.ring(ool).remove(i as int));
        } else if self.ool_focus == ool && f == i {
            proof {
                assert(before.focused_window_spec() == Some(w));
            }
            self.refocus(i, ool);
        } else {
            assert(self.ring(self.ool_focus)[f as int] == before.ring(self.ool_focus)[f as int]);
        }
        w
    }

    /// Moves the focus one step along the two rings (`previous` for
    /// backwards); returns the new position.
    pub fn cycle(&mut self, previous: bool) -> (r: (bool, usize))
        requires
            old(self).focus_ok(),
            old(self).focused is Some,
        ensures
            ({
                let p = cycle_step(
                    old(self).windows@.len() as int,
                    old(self).ool_windows@.len() as int,
                    old(self).ool_focus,
                    old(self).focused->0 as int,
                    previous,
                );
                &&& r.0 == p.0 && r.1 == p.1
                &&& final(self).focused == Some(r.1)
                &&& final(self).ool_focus == r.0
            }),
            final(self).focus_ok(),
            final(self).windows == old(self).windows,
            final(self).ool_windows == old(self).ool_windows,
            final(self).name == old(self).name,
            final(self).layout == old(self).layout,
            final(self).respect_reserved_space == old(self).respect_reserved_space,
    {
        let i = self.focused.unwrap();
        let ool = self.ool_focus;
        let a = self.windows.len();
        let b = self.ool_windows.len();
        proof {
            lemma_cycle_step_ring(a as int, b as int, ool, i as int, previous);
        }
        if (a == 0 && b <= 1) || (a == 1 && b == 0) {
            return (ool, i);
        }
        let (this, other) = if ool {
            (b, a)
        } else {
            (a, b)
        };
        let (o, j) = if previous {
            if i == 0 {
                if other > 0 {
                    (!ool, other - 1)
                } else {
                    (ool, this - 1)
                }
            } else {
                (ool, i - 1)
            }
        } else {
            if i + 1 >= this {
                if other > 0 {
                    (!ool, 0)
                } else {
                    (ool, 0)
                }
            } else {
                (ool, i + 1)
            }
        };
        self.focused = Some(j);
        self.ool_focus = o;
        (o, j)
    }

    /// Moves the focused window to the front of the other list and focuses it
    /// there; returns it.
    pub fn toggle_ool(&mut self) -> (w: u32)
        requires
            old(self).focus_ok(),
            old(self).focused is Some,
        ensures
            Some(w) == old(self).focused_window_spec(),
            final(self).focus_ok(),
            final(self).ring(old(self).ool_focus) == old(self).ring(old(self).ool_focus).remove(
                old(self).focused->0 as int,
            ),
            final(self).ring(!old(self).ool_focus) == old(self).ring(!old(self).ool_focus).insert(0, w),
            final(self).ool_focus == !old(self).ool_focus,
            final(self).focused == Some(0usize),
            final(self).name == old(self).name,
            final(self).layout == old(self).layout,
            final(self).respect_reserved_space == old(self).respect_reserved_space,
    {
        let i = self.focused.unwrap();
        if self.ool_focus {
            let w = self.ool_windows.remove(i);
            self.windows.insert(0, w);
            self.ool_focus = false;
            self.focused = Some(0);
            w
        } else {
            let w = self.windows.remove(i);
            self.ool_windows.insert(0, w);
            self.ool_focus = true;
            self.focused = Some(0);
            w
        }
    }

    /// Swaps managed windows `i` and `j` and focuses `j`.
    fn swap_managed(&mut self, i: usize, j: usize)
        requires
            old(self).focus_ok(),
            i < old(self).windows@.len(),
            j < old(self).windows@.len(),
        ensures
            final(self).windows@ == old(self).windows@.update(i as int, old(self).windows@[j as int]).update(
                j as int,
                old(self).windows@[i as int],
            ),
            final(self).ool_windows == old(self).ool_windows,
            final(self).focused == Some(j),
            !final(self).ool_focus,
            final(self).focus_ok(),
            final(self).name == old(self).name,
            final(self).layout == old(self).layout,
            final(self).respect_reserved_space == old(self).respect_reserved_space,
    {
        let a = self.windows[i];
        let b = self.windows[j];
        self.windows.set(i, b);
        self.windows.set(j, a);
        self.focused = Some(j);
        self.ool_focus = false;
    }

    /// Swaps the focused managed window with the next slave (wrapping to the
    /// first slave after the last); the focus follows it. Nothing happens on
    /// the master, on a floating focus or with no focus.
    pub fn swap_with_next_slave(&mut self)
        requires
            old(self).focus_ok(),
        ensures
            final(self).focus_ok(),
            final(self).ool_windows == old(self).ool_windows,
            ({
                let n = old(self).windows@.len() as int;
                match old(self).focused {
                    Some(c) if !old(self).ool_focus && c > 0 => {
                        let nx = if c == n - 1 {
                            1
                        } else {
                            c + 1
                        };
                        &&& final(self).windows@ == old(self).windows@.update(
                            c as int,
                            old(self).windows@[nx],
                        ).update(nx, old(self).windows@[c as int])
                        &&& final(self).focused == Some(nx as usize)
                        &&& !final(self).ool_focus
                    },
                    _ => final(self).windows == old(self).windows && final(self).focused == old(
                        self,
                    ).focused && final(self).ool_focus == old(self).ool_focus,
                }
            }),
            final(self).name == old(self).name,
            final(self).layout == old(self).layout,
            final(self).respect_reserved_space == old(self).respect_reserved_space,
    {
        if self.ool_focus {
            return ;
        }
        if let Some(c) = self.focused {
            if c == 0 {
                return ;
            }
            let nx = if c == self.windows.len() - 1 {
                1
            } else {
                c + 1
            };
            self.swap_managed(c, nx);
        }
    }

    /// Swaps the focused managed window with the previous slave (wrapping to
    /// the last one before the first slave); the focus follows it. Nothing
    /// happens on the master, on a floating focus or with no focus.
    pub fn swap_with_prev_slave(&mut self)
        requires
            old(self).focus_ok(),
        ensures
            final(self).focus_ok(),
            final(self).ool_windows == old(self).ool_windows,
            ({
                let n = old(self).windows@.len() as int;
                match old(self).focused {
                    Some(c) if !old(self).ool_focus && c > 0 => {
                        let pv = if c == 1 {
                            n - 1
                        } else {
                            c - 1
                        };
                        &&& final(self).windows@ == old(self).windows@.update(
                            c as int,
                            old(self).windows@[pv],
                        ).update(pv, old(self).windows@[c as int])
                        &&& final(self).focused == Some(pv as usize)
                        &&& !final(self).ool_focus
                    },
                    _ => final(self).windows == old(self).windows && final(self).focused == old(
                        self,
                    ).focused && final(self).ool_focus == old(self).ool_focus,
                }
            }),
            final(self).name == old(self).name,
            final(self).layout == old(self).layout,
            final(self).respect_reserved_space == old(self).respect_reserved_space,
    {
        if self.ool_focus {
            return ;
        }
        if let Some(c) = self.focused {
            if c == 0 {
                return ;
            }
            let pv = if c == 1 {
                self.windows.len() - 1
            } else {
                c - 1
            };
            self.swap_managed(c, pv);
        }
    }

    /// Swaps the focused managed window with the master, or the master with
    /// the first slave when the master is focused; the focus follows it.
    /// Nothing happens with fewer than two managed windows or a floating focus.
    pub fn change_master(&mut self)
        requires
            old(self).focus_ok(),
        ensures
            final(self).focus_ok(),
            final(self).ool_windows == old(self).ool_windows,
            ({
                match old(self).focused {
                    Some(c) if !old(self).ool_focus && old(self).windows@.len() >= 2 => {
                        let other: int = if c == 0 {
                            1
                        } else {
                            0
                        };
                        &&& final(self).windows@ == old(self).windows@.update(
                            c as int,
                            old(self).windows@[other],
                        ).update(other, old(self).windows@[c as int])
                        &&& final(self).focused == Some(other as usize)
                        &&& !final(self).ool_focus
                    },
                    _ => final(self).windows == old(self).windows && final(self).focused == old(
                        self,
                    ).focused && final(self).ool_focus == old(self).ool_focus,
                }
            }),
            final(self).name == old(self).name,
            final(self).layout == old(self).layout,
            final(self).respect_reserved_space == old(self).respect_reserved_space,
    {
        if self.ool_focus || self.windows.len() < 2 {
            return ;
        }
        if let Some(c) = self.focused {
            let other: usize = if c == 0 {
                1
            } else {
                0
            };
            self.swap_managed(c, other);
        }
    }

    /// Rotates the managed list up (the master goes to the end); the focus
    /// index moves with it, so it stays on the same place of the stack.
    pub fn rotate_up(&mut self)
        requires
            old(self).focus_ok(),
        ensures
            final(self).focus_ok(),
            final(self).ool_windows == old(self).ool_windows,
            final(self).ool_focus == old(self).ool_focus,
            ({
                match old(self).focused {
                    Some(c) if !old(self).ool_focus => {
                        &&& final(self).windows@ == old(self).windows@.drop_first().push(
                            old(self).windows@[0],
                        )
                        &&& final(self).focused == Some(
                            if c == 0 {
                                (old(self).windows@.len() - 1) as usize
                            } else {
                                (c - 1) as usize
                            },
                        )
                    },
                    _ => final(self).windows == old(self).windows && final(self).focused == old(
                        self,
                    ).focused,
                }
            }),
            final(self).name == old(self).name,
            final(self).layout == old(self).layout,
            final(self).respect_reserved_space == old(self).respect_reserved_space,
    {
        if self.ool_focus {
            return ;
        }
        if let Some(c) = self.focused {
            let first = self.windows.remove(0);
            self.windows.push(first);
            self.focused = Some(
                if c == 0 {
                    self.windows.len() - 1
                } else {
                    c - 1
                },
            );
        }
    }

    /// Rotates the managed list down (the last window becomes the master);
    /// the focus index moves with it.
    pub fn rotate_down(&mut self)
        requires
            old(self).focus_ok(),
        ensures
            final(self).focus_ok(),
            final(self).ool_windows == old(self).ool_windows,
            final(self).ool_focus == old(self).ool_focus,
            ({
                let n = old(self).windows@.len() as int;
                match old(self).focused {
                    Some(c) if !old(self).ool_focus => {
                        &&& final(self).windows@ == old(self).windows@.drop_last().insert(
                            0,
                            old(self).windows@[n - 1],
                        )
                        &&& final(self).focused == Some(
                            if c == n - 1 {
                                0usize
                            } else {
                                (c + 1) as usize
                            },
                        )
                    },
                    _ => final(self).windows == old(self).windows && final(self).focused == old(
                        self,
                    ).focused,
                }
            }),
            final(self).name == old(self).name,
            final(self).layout == old(self).layout,
            final(self).respect_reserved_space == old(self).respect_reserved_space,
    {
        if self.ool_focus {
            return ;
        }
        if let Some(c) = self.focused {
            let n = self.windows.len();
            let last = self.windows.remove(n - 1);
            self.windows.insert(0, last);
            self.focused = Some(
                if c == n - 1 {
                    0
                } else {
                    c + 1
                },
            );
        }
    }
}

/// A physical screen (monitor) with its own workspaces.
#[derive(Debug)]
pub struct Screen {
    pub workspaces: Vec<Workspace>,
    pub current_wk: usize,
    pub width: u16,
    pub height: u16,
    pub x: i16,
    pub y: i16,
}

impl Screen {
    /// The screen's whole rectangle.
    pub open spec fn area_spec(&self) -> Area {
        Area { width: self.width, height: self.height, x: self.x, y: self.y }
    }

    /// A screen of the given geometry with one empty workspace per name, the
    /// first one current.
    pub fn new(names: &Vec<&'static str>, width: u16, height: u16, x: i16, y: i16) -> (r: Screen)
        ensures
            r.workspaces@.len() == names@.len(),
            forall|k: int|
                0 <= k < names@.len() ==> {
                    let w = #[trigger] r.workspaces@[k];
                    &&& w.name == names@[k]
                    &&& w.windows@.len() == 0
                    &&& w.ool_windows@.len() == 0
                    &&& w.focused is None
                    &&& !w.ool_focus
                    &&& w.layout == 0
                    &&& w.respect_reserved_space
                },
            r.current_wk == 0,
            r.width == width,
            r.height == height,
            r.x == x,
            r.y == y,
    {
        let mut workspaces: Vec<Workspace> = Vec::new();
        let mut i: usize = 0;
        while i < names.len()
            invariant
                0 <= i <= names@.len(),
                workspaces@.len() == i,
                forall|k: int|
                    0 <= k < i ==> {
                        let w = #[trigger] workspaces@[k];
                        &&& w.name == names@[k]
                        &&& w.windows@.len() == 0
                        &&& w.ool_windows@.len() == 0
                        &&& w.focused is None
                        &&& !w.ool_focus
                        &&& w.layout == 0
                        &&& w.respect_reserved_space
                    },
            decreases names@.len() - i,
        {
            workspaces.push(Workspace::new(names[i]));
            i = i + 1;
        }
        Screen { workspaces, current_wk: 0, width, height, x, y }
    }

    /// The current workspace.
    pub fn current_workspace(&mut self) -> (r: &mut Workspace)
        requires
            old(self).current_wk < old(self).workspaces@.len(),
        ensures
            *r == old(self).workspaces@[old(self).current_wk as int],
            final(self).workspaces@ == old(self).workspaces@.update(old(self).current_wk as int, *final(r)),
            final(self).current_wk == old(self).current_wk,
            final(self).area_spec() == old(self).area_spec(),
    {
        &mut self.workspaces[self.current_wk]
    }

    /// The screen's whole rectangle.
    pub fn area(&self) -> (r: Area)
        ensures
            r == self.area_spec(),
    {
        Area { width: self.width, height: self.height, x: self.x, y: self.y }
    }
}

} // verus!
