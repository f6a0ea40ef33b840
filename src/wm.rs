//! The window manager core: every operation on the model. Each operation
//! changes the model and returns the requests the display server must be
//! sent, in order.
use vstd::prelude::*;
use vstd::string::StringSliceAdditionalSpecFns;
use crate::keys::{Command, KeybindSet};
use crate::layouts::{Area, Layout, Placement, Rect};
use crate::config::Config;
use crate::model::{
    lemma_move_cell, lemma_replace_cell, lemma_seq_insert_front, lemma_seq_remove, push_placements, screen_list,
    screens_list,
};
use crate::screens::{Screen, Workspace};
pub use crate::model::{configures, Drag, Lapin, Request};

verus! {
/// `v`, held within the `i16` range.
pub open spec fn clamp_i16(v: int) -> int {
    if v > i16::MAX {
        i16::MAX as int
    } else if v < i16::MIN {
        i16::MIN as int
    } else {
        v
    }
}

/// The requests that give `w` the focus: input focus, optionally the top
/// of the stack, and the focused border color.
pub open spec fn focus_requests(w: u32, raise: bool, color: u32) -> Seq<Request> {
    if raise {
        seq![Request::Focus(w), Request::Raise(w), Request::BorderColor(w, color)]
    } else {
        seq![Request::Focus(w), Request::BorderColor(w, color)]
    }
}

impl Lapin {
    /// The active layout of the current workspace.
    pub open spec fn layout_spec(&self) -> Layout {
        self.config.layouts@[self.cur().layout as int]
    }

    /// The area the layout of the current workspace may use: the current
    /// screen, less the reserved space when the workspace respects it.
    pub open spec fn usable_area(&self) -> Area {
        let sc = self.screens@[self.current_scr as int];
        let (t, r, b, l) = self.config.reserved_space;
        if self.cur().respect_reserved_space {
            Area {
                width: crate::layouts::sat(sc.width - r - l) as u16,
                height: crate::layouts::sat(sc.height - t - b) as u16,
                x: clamp_i16(sc.x + l) as i16,
                y: clamp_i16(sc.y + t) as i16,
            }
        } else {
            sc.area_spec()
        }
    }

    /// Where window `win` is: `(screen, workspace, index, out of layout)`.
    pub fn window_location(&self, win: u32) -> (r: Option<(usize, usize, usize, bool)>)
        requires
            self.wf(),
        ensures
            r matches Some((s, k, i, o)) ==> self.valid_cell(s as int, k as int) && i < self.cell(
                s as int,
                k as int,
                o,
            ).len() && self.cell(s as int, k as int, o)[i as int] == win,
            r is None <==> !self.is_managed(win),
    {
        let mut s: usize = 0;
        while s < self.screens.len()
            invariant
                self.wf(),
                0 <= s <= self.screens@.len(),
                forall|s2: int, k2: int, o2: bool| 0 <= s2 < s ==> !#[trigger] self.holds(s2, k2, o2, win),
            decreases self.screens@.len() - s,
        {
            let screen = &self.screens[s];
            let mut k: usize = 0;
            while k < screen.workspaces.len()
                invariant
                    self.wf(),
                    0 <= s < self.screens@.len(),
                    *screen == self.screens@[s as int],
                    0 <= k <= screen.workspaces@.len(),
                    forall|s2: int, k2: int, o2: bool| 0 <= s2 < s ==> !#[trigger] self.holds(s2, k2, o2, win),
                    forall|k2: int, o2: bool| 0 <= k2 < k ==> !#[trigger] self.holds(s as int, k2, o2, win),
                decreases screen.workspaces@.len() - k,
            {
                let ws = &screen.workspaces[k];
                let mut i: usize = 0;
                while i < ws.windows.len()
                    invariant
                        *ws == self.ws(s as int, k as int),
                        self.valid_cell(s as int, k as int),
                        0 <= i <= ws.windows@.len(),
                        forall|j: int| 0 <= j < i ==> ws.windows@[j] != win,
                    decreases ws.windows@.len() - i,
                {
                    if ws.windows[i] == win {
                        proof {
                            assert(self.cell(s as int, k as int, false)[i as int] == win);
                            assert(self.holds(s as int, k as int, false, win));
                        }
                        return Some((s, k, i, false));
                    }
                    i = i + 1;
                }
                let mut i: usize = 0;
                while i < ws.ool_windows.len()
                    invariant
                        *ws == self.ws(s as int, k as int),
                        self.valid_cell(s as int, k as int),
                        0 <= i <= ws.ool_windows@.len(),
                        forall|j: int| 0 <= j < i ==> ws.ool_windows@[j] != win,
                    decreases ws.ool_windows@.len() - i,
                {
                    if ws.ool_windows[i] == win {
                        proof {
                            assert(self.cell(s as int, k as int, true)[i as int] == win);
                            assert(self.holds(s as int, k as int, true, win));
                        }
                        return Some((s, k, i, true));
                    }
                    i = i + 1;
                }
                proof {
                    assert(!self.cell(s as int, k as int, false).contains(win));
                    assert(!self.cell(s as int, k as int, true).contains(win));
                }
                k = k + 1;
            }
            s = s + 1;
        }
        None
    }

    /// The focused window of the current workspace, if any.
    pub fn get_focused_window(&self) -> (r: Option<u32>)
        requires
            self.wf(),
        ensures
            r == self.focused_spec(),
    {
        self.screens[self.current_scr].workspaces[self.screens[self.current_scr].current_wk].focused_window()
    }

    /// The list of all managed windows, as published to clients.
    pub fn client_list_exec(&self) -> (r: Vec<u32>)
        ensures
            r@ == self.client_list(),
    {
        let mut out: Vec<u32> = Vec::new();
        let mut s: usize = 0;
        while s < self.screens.len()
            invariant
                0 <= s <= self.screens@.len(),
                out@ == screens_list(self.screens@, s as int),
            decreases self.screens@.len() - s,
        {
            let screen = &self.screens[s];
            let ghost base = out@;
            let mut k: usize = 0;
            while k < screen.workspaces.len()
                invariant
                    0 <= s < self.screens@.len(),
                    *screen == self.screens@[s as int],
                    0 <= k <= screen.workspaces@.len(),
                    base == screens_list(self.screens@, s as int),
                    out@ == base + screen_list(*screen, k as int),
                decreases screen.workspaces@.len() - k,
            {
                let ws = &screen.workspaces[k];
                let ghost before = out@;
                let mut i: usize = 0;
                while i < ws.windows.len()
                    invariant
                        0 <= i <= ws.windows@.len(),
                        out@ == before + ws.windows@.subrange(0, i as int),
                    decreases ws.windows@.len() - i,
                {
                    out.push(ws.windows[i]);
                    i = i + 1;
                    proof {
                        assert(out@ =~= before + ws.windows@.subrange(0, i as int));
                    }
                }
                let mut i: usize = 0;
                while i < ws.ool_windows.len()
                    invariant
                        0 <= i <= ws.ool_windows@.len(),
                        out@ == before + ws.windows@ + ws.ool_windows@.subrange(0, i as int),
                    decreases ws.ool_windows@.len() - i,
                {
                    out.push(ws.ool_windows[i]);
                    i = i + 1;
                    proof {
                        assert(out@ =~= before + ws.windows@ + ws.ool_windows@.subrange(0, i as int));
                    }
                }
                proof {
                    assert(ws.windows@.subrange(0, ws.windows@.len() as int) =~= ws.windows@);
                    assert(ws.ool_windows@.subrange(0, ws.ool_windows@.len() as int) =~= ws.ool_windows@);
                    assert(out@ =~= base + screen_list(*screen, k + 1));
                }
                k = k + 1;
            }
            s = s + 1;
        }
        out
    }

    /// The active layout of the current workspace.
    pub fn current_layout(&self) -> (r: &Layout)
        requires
            self.wf(),
        ensures
            *r == self.layout_spec(),
    {
        let ws = &self.screens[self.current_scr].workspaces[self.screens[self.current_scr].current_wk];
        &self.config.layouts[ws.layout]
    }

    /// The area the layout of the current workspace may use, as `(width,
    /// height, x, y)`.
    pub fn calculate_layout_coordinates(&self) -> (r: Area)
        requires
            self.wf(),
        ensures
            r == self.usable_area(),
    {
        let sc = &self.screens[self.current_scr];
        let ws = &sc.workspaces[sc.current_wk];
        let (t, r, b, l) = self.config.reserved_space;
        if ws.respect_reserved_space {
            let w: i32 = sc.width as i32 - r as i32 - l as i32;
            let h: i32 = sc.height as i32 - t as i32 - b as i32;
            let x: i32 = sc.x as i32 + l as i32;
            let y: i32 = sc.y as i32 + t as i32;
            Area {
                width: if w > 0 { w as u16 } else { 0 },
                height: if h > 0 { h as u16 } else { 0 },
                x: if x > i16::MAX as i32 { i16::MAX } else { x as i16 },
                y: if y > i16::MAX as i32 { i16::MAX } else { y as i16 },
            }
        } else {
            sc.area()
        }
    }

    /// Appends the requests that give `w` the focus.
    fn push_focus(&self, out: &mut Vec<Request>, w: u32, raise: bool)
        ensures
            final(out)@ == old(out)@ + focus_requests(w, raise, self.config.border_color_focus),
    {
        out.push(Request::Focus(w));
        if raise {
            out.push(Request::Raise(w));
        }
        out.push(Request::BorderColor(w, self.config.border_color_focus));
        assert(final(out)@ =~= old(out)@ + focus_requests(w, raise, self.config.border_color_focus));
    }
}



impl Lapin {
    /// Puts window `w`, which the model does not hold, at the front of list
    /// `ool` of workspace `t` of the current screen; on the displayed
    /// workspace it takes the focus, elsewhere the focus stays where it was
    /// (an empty workspace focuses it).
    fn place_new_window(&mut self, w: u32, t: usize, ool: bool)
        requires
            old(self).wf(),
            !old(self).is_managed(w),
            t < old(self).screens@[old(self).current_scr as int].workspaces@.len(),
        ensures
            final(self).wf(),
            ({
                let cs = old(self).current_scr as int;
                &&& old(self).ws_frame(final(self), cs, t as int)
                &&& old(self).same_shape(final(self))
                &&& final(self).cell(cs, t as int, ool) == old(self).cell(cs, t as int, ool).insert(0, w)
                &&& old(self).same_but(final(self), cs, t as int, ool)
                &&& final(self).is_managed(w)
                &&& forall|x: u32| #[trigger] final(self).is_managed(x) ==> old(self).is_managed(x) || x == w
                &&& forall|s: int|
                    0 <= s < old(self).screens@.len() ==> #[trigger] final(self).screens@[s].current_wk == old(
                        self,
                    ).screens@[s].current_wk
                &&& final(self).config == old(self).config
                &&& t == old(self).cur_wk() ==> final(self).cur().focused == Some(0usize)
                    && final(self).cur().ool_focus == ool
                &&& t != old(self).cur_wk() ==> final(self).cur() == old(self).cur()
                &&& t != old(self).cur_wk() && old(self).ws(cs, t as int).focused is None ==> final(self).ws(
                    cs,
                    t as int,
                ).focused == Some(0usize) && final(self).ws(cs, t as int).ool_focus == ool
                &&& t != old(self).cur_wk() && old(self).ws(cs, t as int).focused is Some ==> final(self).ws(
                    cs,
                    t as int,
                ).focused_window_spec() == old(self).ws(cs, t as int).focused_window_spec()
            }),
    {
        let cs = self.current_scr;
        let ck = self.screens[cs].current_wk;
        let ghost a = *self;
        assert(self.valid_cell(cs as int, t as int));
        assert(self.ws(cs as int, t as int).focus_ok());
        self.screens[cs].workspaces[t].insert_window(w, ool);
        if t == ck {
            self.screens[cs].workspaces[t].focus_at(0, ool);
        }
        proof {
            let b = *self;
            a.lemma_ws_frame(&b, cs as int, t as int);
            assert(b.cell(cs as int, t as int, !ool) == a.cell(cs as int, t as int, !ool));
            assert(a.same_but(&b, cs as int, t as int, ool));
            assert(!a.cell(cs as int, t as int, ool).contains(w)) by {
                if a.cell(cs as int, t as int, ool).contains(w) {
                    assert(a.holds(cs as int, t as int, ool, w));
                }
            }
            assert(a.cell(cs as int, t as int, ool).no_duplicates());
            lemma_seq_insert_front(a.cell(cs as int, t as int, ool), w);
            lemma_replace_cell(&a, &b, cs as int, t as int, ool, Some(w));
            a.lemma_ws_frame_wf(&b, cs as int, t as int);
            assert(b.cell(cs as int, t as int, ool)[0] == w);
            assert(b.holds(cs as int, t as int, ool, w));
            assert forall|s2: int| 0 <= s2 < a.screens@.len() implies #[trigger] b.screens@[s2].current_wk
                == a.screens@[s2].current_wk by {
                if s2 != cs {
                    assert(b.screens@[s2] == a.screens@[s2]);
                }
            }
        }
    }
}

impl Lapin {
    /// The requests of managing window `w` (all but the final client list),
    /// from the model before (`self`) and after (`fin`), with the rules'
    /// directive `d` and the workspace `t` it goes to: border color and event
    /// subscription, the layout's border when the rules keep one, the old
    /// focus's plain border, the screen's area and the fullscreen marker for
    /// a fullscreen rule, then, when `t` is displayed, the layout's new
    /// placements, the map and the focus; last the window's workspace hint.
    pub open spec fn manage_requests(&self, fin: &Lapin, w: u32, d: crate::rules::Directive, t: int) -> Seq<Request> {
        self.manage_head(w, d) + self.manage_shown(fin, w, t) + seq![Request::Desktop(w, t as usize)]
    }

    /// The requests of managing `w` sent before it enters the model.
    #[verifier::opaque]
    pub open spec fn manage_head(&self, w: u32, d: crate::rules::Directive) -> Seq<Request> {
        let sc = self.screens@[self.current_scr as int];
        seq![Request::BorderColor(w, self.config.border_color), Request::Watch(w)] + (if d.draw_border {
            seq![Request::BorderWidth(w, self.layout_spec().border_width_spec() as u32)]
        } else {
            Seq::empty()
        }) + (match self.focused_spec() {
            Some(p) => seq![Request::BorderColor(p, self.config.border_color)],
            None => Seq::empty(),
        }) + (if d.fullscreen {
            seq![
                Request::Configure(
                    Placement {
                        window: w,
                        rect: Rect { x: sc.x as i32, y: sc.y as i32, width: sc.width as u32, height: sc.height as u32 },
                    },
                ),
                Request::FullscreenState(w, true),
            ]
        } else {
            Seq::empty()
        })
    }

    /// The requests of managing `w` on workspace `t` once it is in the
    /// model `fin`: when `t` is displayed, the layout's new placements, the
    /// map and the focus.
    pub open spec fn manage_shown(&self, fin: &Lapin, w: u32, t: int) -> Seq<Request> {
        if t == self.cur_wk() {
            configures(fin.layout_spec().newwin_spec(fin.cur().windows@, fin.usable_area())) + seq![
                Request::MapWindow(w),
            ] + focus_requests(w, true, self.config.border_color_focus)
        } else {
            Seq::empty()
        }
    }
}

impl Lapin {
    /// Only workspace `(s, k)` may differ between the two models.
    pub open spec fn ws_frame(&self, b: &Lapin, s: int, k: int) -> bool {
        &&& b.screens@.len() == self.screens@.len()
        &&& b.current_scr == self.current_scr
        &&& b.config.layouts@.len() == self.config.layouts@.len()
        &&& forall|s2: int|
            0 <= s2 < self.screens@.len() && s2 != s ==> #[trigger] b.screens@[s2] == self.screens@[s2]
        &&& b.screens@[s].workspaces@.len() == self.screens@[s].workspaces@.len()
        &&& b.screens@[s].current_wk == self.screens@[s].current_wk
        &&& b.screens@[s].area_spec() == self.screens@[s].area_spec()
        &&& forall|k2: int| 0 <= k2 < self.screens@[s].workspaces@.len() && k2 != k ==> #[trigger] b.ws(s, k2) == self.ws(s, k2)
    }

    proof fn lemma_ws_frame(&self, b: &Lapin, s: int, k: int)
        requires
            self.valid_cell(s, k),
            self.ws_frame(b, s, k),
        ensures
            self.same_shape(b),
            forall|s2: int, k2: int, o: bool|
                self.valid_cell(s2, k2) && !(s2 == s && k2 == k) ==> #[trigger] b.cell(s2, k2, o) == self.cell(
                    s2,
                    k2,
                    o,
                ),
            b.ws(s, k).ring(false) == self.ws(s, k).ring(false) ==> self.same_but(b, s, k, true),
            b.ws(s, k).ring(true) == self.ws(s, k).ring(true) ==> self.same_but(b, s, k, false),
    {
        assert forall|s2: int, k2: int, o: bool| self.valid_cell(s2, k2) && !(s2 == s && k2 == k) implies #[trigger] b.cell(
            s2,
            k2,
            o,
        ) == self.cell(s2, k2, o) by {
            if s2 != s {
                assert(b.screens@[s2] == self.screens@[s2]);
            } else {
                assert(b.ws(s, k2) == self.ws(s, k2));
            }
        }
        assert forall|s2: int| 0 <= s2 < self.screens@.len() implies (#[trigger] self.screens@[s2]).workspaces@.len()
            == b.screens@[s2].workspaces@.len() by {
            if s2 != s {
                assert(b.screens@[s2] == self.screens@[s2]);
            }
        }
    }

    proof fn lemma_ws_frame_wf(&self, b: &Lapin, s: int, k: int)
        requires
            self.wf(),
            self.valid_cell(s, k),
            self.ws_frame(b, s, k),
            b.ws(s, k).focus_ok(),
            b.ws(s, k).layout < b.config.layouts@.len(),
            b.unique(),
        ensures
            b.wf(),
    {
        self.lemma_ws_frame(b, s, k);
        assert forall|s2: int| 0 <= s2 < b.screens@.len() implies (#[trigger] b.screens@[s2]).workspaces@.len()
            >= 1 && b.screens@[s2].current_wk < b.screens@[s2].workspaces@.len() by {
            if s2 != s {
                assert(b.screens@[s2] == self.screens@[s2]);
            }
        }
        assert forall|s2: int, k2: int| b.valid_cell(s2, k2) implies (#[trigger] b.ws(s2, k2)).focus_ok()
            && b.ws(s2, k2).layout < b.config.layouts@.len() by {
            assert(self.valid_cell(s2, k2));
            assert(self.ws(s2, k2).focus_ok());
            if s2 != s {
                assert(b.screens@[s2] == self.screens@[s2]);
            } else if k2 != k {
                assert(b.ws(s, k2) == self.ws(s, k2));
            }
        }
    }

    /// Starts managing window `w` (already managed ones, and those that
    /// bypass the window manager by `override_redirect`, are left alone). The
    /// rules, given the window's class, choose the workspace of the current
    /// screen (the current one when the rule names none there), whether it
    /// floats and whether it gets a border; it goes to the front of its list.
    /// On the displayed workspace it is laid out, mapped and focused;
    /// elsewhere it waits for its workspace to be shown.
    pub fn manage_window(&mut self, w: u32, override_redirect: bool, class: &Option<(String, String)>) -> (r: Vec<
        Request,
    >)
        requires
            old(self).wf(),
        ensures
            final(self).wf(),
            old(self).is_managed(w) || override_redirect ==> *final(self) == *old(self) && r@.len() == 0,
            !old(self).is_managed(w) && !override_redirect ==> ({
                let cs = old(self).current_scr as int;
                let d = crate::rules::directive_for(
                    old(self).config.rules@,
                    match class {
                        Some((a, b)) => Some((a@, b@)),
                        None => None,
                    },
                    old(self).cur_wk() as usize,
                );
                let t: int = if d.workspace < old(self).screens@[cs].workspaces@.len() {
                    d.workspace as int
                } else {
                    old(self).cur_wk()
                };
                &&& final(self).cell(cs, t, d.floating) == old(self).cell(cs, t, d.floating).insert(0, w)
                &&& old(self).same_but(final(self), cs, t, d.floating)
                &&& final(self).is_managed(w)
                &&& forall|x: u32| #[trigger] final(self).is_managed(x) ==> old(self).is_managed(x) || x == w
                &&& final(self).current_scr == old(self).current_scr
                &&& final(self).cur_wk() == old(self).cur_wk()
                &&& t == old(self).cur_wk() ==> final(self).cur().focused == Some(0usize)
                    && final(self).cur().ool_focus == d.floating && r@.contains(Request::MapWindow(w))
                    && r@.contains(Request::Focus(w))
                &&& t != old(self).cur_wk() ==> !r@.contains(Request::MapWindow(w))
                    && final(self).cur() == old(self).cur()
                &&& r@.contains(Request::Desktop(w, t as usize))
                &&& r@.last() matches Request::ClientList(l) && l@ == final(self).client_list()
                &&& r@.drop_last() == old(self).manage_requests(final(self), w, d, t)
                &&& d.fullscreen ==> ({
                    let sc = old(self).screens@[cs];
                    &&& r@.contains(
                        Request::Configure(
                            Placement {
                                window: w,
                                rect: Rect {
                                    x: sc.x as i32,
                                    y: sc.y as i32,
                                    width: sc.width as u32,
                                    height: sc.height as u32,
                                },
                            },
                        ),
                    )
                    &&& r@.contains(Request::FullscreenState(w, true))
                })
                &&& old(self).same_shape(final(self))
                &&& forall|s: int|
                    0 <= s < old(self).screens@.len() ==> #[trigger] final(self).screens@[s].current_wk == old(
                        self,
                    ).screens@[s].current_wk
                &&& t != old(self).cur_wk() && old(self).ws(cs, t).focused is None ==> final(self).ws(cs, t).focused
                    == Some(0usize) && final(self).ws(cs, t).ool_focus == d.floating
                &&& t != old(self).cur_wk() && old(self).ws(cs, t).focused is Some ==> final(self).ws(
                    cs,
                    t,
                ).focused_window_spec() == old(self).ws(cs, t).focused_window_spec()
            }),
    {
        if override_redirect || self.window_location(w).is_some() {
            return Vec::new();
        }
        let cs = self.current_scr;
        let ck = self.screens[cs].current_wk;
        let d = crate::rules::apply_rules(&self.config.rules, class, ck);
        let ghost start = *self;
        let t = if d.workspace < self.screens[cs].workspaces.len() {
            d.workspace
        } else {
            ck
        };
        let mut out = self.manage_head_requests(w, d);
        self.place_new_window(w, t, d.floating);
        if t == ck {
            let mut shown = self.manage_shown_requests(w);
            out.append(&mut shown);
        }
        proof {
            assert(out@ =~= start.manage_head(w, d) + start.manage_shown(&*self, w, t as int));
        }
        out.push(Request::Desktop(w, t));
        let ghost prefix = out@;
        out.push(Request::ClientList(self.client_list_exec()));
        proof {
            assert(prefix =~= start.manage_requests(&*self, w, d, t as int));
            assert(out@.drop_last() =~= prefix);
            let sh = start.manage_shown(&*self, w, t as int);
            let hd = start.manage_head(w, d);
            assert(out@[hd.len() + sh.len() as int] == Request::Desktop(w, t));
            if d.fullscreen {
                start.lemma_manage_head_fullscreen(w, d);
                assert(out@[hd.len() - 2] == hd[hd.len() - 2]);
                assert(out@[hd.len() - 1] == hd[hd.len() - 1]);
            }
            if t == ck {
                let c = configures(self.layout_spec().newwin_spec(self.cur().windows@, self.usable_area()));
                assert(sh[c.len() as int] == Request::MapWindow(w));
                assert(out@[hd.len() + c.len() as int] == Request::MapWindow(w));
                assert(sh[c.len() + 1int] == Request::Focus(w));
                assert(out@[hd.len() + c.len() + 1int] == Request::Focus(w));
            } else {
                start.lemma_manage_head_fullscreen(w, d);
                assert forall|j: int| 0 <= j < out@.len() implies out@[j] != Request::MapWindow(w) by {
                    if j < hd.len() {
                        assert(out@[j] == hd[j]);
                    }
                }
            }
        }
        out
    }

    /// With a fullscreen directive the head requests end with the screen's
    /// area for the window and its fullscreen marker; none of them maps it.
    pub proof fn lemma_manage_head_fullscreen(&self, w: u32, d: crate::rules::Directive)
        ensures
            self.manage_head(w, d).len() >= 2,
            forall|j: int| 0 <= j < self.manage_head(w, d).len() ==> self.manage_head(w, d)[j] != Request::MapWindow(w),
            d.fullscreen ==> ({
                let h = self.manage_head(w, d);
                let sc = self.screens@[self.current_scr as int];
                &&& h[h.len() - 2] == Request::Configure(
                    Placement {
                        window: w,
                        rect: Rect { x: sc.x as i32, y: sc.y as i32, width: sc.width as u32, height: sc.height as u32 },
                    },
                )
                &&& h[h.len() - 1] == Request::FullscreenState(w, true)
            }),
    {
        reveal(Lapin::manage_head);
    }

    /// The requests of managing `w` sent before it enters the model.
    fn manage_head_requests(&self, w: u32, d: crate::rules::Directive) -> (r: Vec<Request>)
        requires
            self.wf(),
        ensures
            r@ == self.manage_head(w, d),
    {
        let mut out: Vec<Request> = Vec::new();
        out.push(Request::BorderColor(w, self.config.border_color));
        out.push(Request::Watch(w));
        if d.draw_border {
            let bw = self.current_layout().border_width();
            out.push(Request::BorderWidth(w, bw as u32));
        }
        if let Some(prev) = self.get_focused_window() {
            out.push(Request::BorderColor(prev, self.config.border_color));
        }
        if d.fullscreen {
            let sc = &self.screens[self.current_scr];
            out.push(
                Request::Configure(
                    Placement {
                        window: w,
                        rect: Rect { x: sc.x as i32, y: sc.y as i32, width: sc.width as u32, height: sc.height as u32 },
                    },
                ),
            );
            out.push(Request::FullscreenState(w, true));
        }
        proof {
            reveal(Lapin::manage_head);
        }
        assert(out@ =~= self.manage_head(w, d));
        out
    }

    /// The requests that show window `w`, just placed at the front of the
    /// displayed workspace: the layout's new placements, the map and the
    /// focus.
    fn manage_shown_requests(&self, w: u32) -> (r: Vec<Request>)
        requires
            self.wf(),
        ensures
            r@ == configures(self.layout_spec().newwin_spec(self.cur().windows@, self.usable_area())) + seq![
                Request::MapWindow(w),
            ] + focus_requests(w, true, self.config.border_color_focus),
    {
        let mut out: Vec<Request> = Vec::new();
        let area = self.calculate_layout_coordinates();
        let cs = self.current_scr;
        let ck = self.screens[cs].current_wk;
        let ps = self.current_layout().newwin(&self.screens[cs].workspaces[ck].windows, area);
        push_placements(&mut out, ps);
        out.push(Request::MapWindow(w));
        self.push_focus(&mut out, w, true);
        assert(out@ =~= configures(self.layout_spec().newwin_spec(self.cur().windows@, self.usable_area())) + seq![
            Request::MapWindow(w),
        ] + focus_requests(w, true, self.config.border_color_focus));
        out
    }
}

impl Lapin {
    /// After window `i` of list `(s, k, o)` was taken out and nothing else
    /// changed, uniqueness holds, and the managed windows are the old ones
    /// but the one taken out.
    proof fn lemma_removed(a: &Lapin, b: &Lapin, s: int, k: int, o: bool, i: int)
        requires
            a.unique(),
            a.valid_cell(s, k),
            0 <= i < a.cell(s, k, o).len(),
            a.same_shape(b),
            a.same_but(b, s, k, o),
            b.cell(s, k, o) == a.cell(s, k, o).remove(i),
        ensures
            b.unique(),
            forall|x: u32| #[trigger] b.is_managed(x) <==> (a.is_managed(x) && x != a.cell(s, k, o)[i]),
            forall|s2: int, k2: int, o2: bool, i2: int|
                a.valid_cell(s2, k2) && 0 <= i2 < a.cell(s2, k2, o2).len() && #[trigger] a.cell(s2, k2, o2)[i2]
                    == a.cell(s, k, o)[i] ==> s2 == s && k2 == k && o2 == o && i2 == i,
    {
        let w = a.cell(s, k, o)[i];
        assert(a.holds(s, k, o, w));
        lemma_seq_remove(a.cell(s, k, o), i);
        lemma_replace_cell(a, b, s, k, o, None);
        assert forall|x: u32| #[trigger] b.is_managed(x) <==> (a.is_managed(x) && x != w) by {
            if b.is_managed(x) {
                let (s2, k2, o2) = choose|s2: int, k2: int, o2: bool| #[trigger] b.holds(s2, k2, o2, x);
                if x == w {
                    if !(s2 == s && k2 == k && o2 == o) {
                        assert(a.holds(s2, k2, o2, w));
                    }
                }
            }
            if a.is_managed(x) && x != w {
                let (s2, k2, o2) = choose|s2: int, k2: int, o2: bool| #[trigger] a.holds(s2, k2, o2, x);
                if s2 == s && k2 == k && o2 == o {
                    assert(b.holds(s2, k2, o2, x));
                } else {
                    assert(b.cell(s2, k2, o2) == a.cell(s2, k2, o2));
                    assert(b.holds(s2, k2, o2, x));
                }
            }
        }
        assert forall|s2: int, k2: int, o2: bool, i2: int|
            a.valid_cell(s2, k2) && 0 <= i2 < a.cell(s2, k2, o2).len() && #[trigger] a.cell(s2, k2, o2)[i2] == w
            implies s2 == s && k2 == k && o2 == o && i2 == i by {
            assert(a.holds(s2, k2, o2, w));
            assert(a.cell(s, k, o).no_duplicates());
        }
    }

    /// The requests after the client list when a window left list `o` of
    /// workspace `(s, k)`, from the model after: when that workspace is
    /// displayed, the focus requests for its new focus (when the focus is
    /// resolved) and the layout's redraw (when the window was managed).
    pub open spec fn unmanage_tail(&self, s: int, k: int, o: bool, resolve: bool) -> Seq<Request> {
        if s == self.current_scr && k == self.screens@[s].current_wk {
            (if resolve {
                match self.focused_spec() {
                    Some(f) => focus_requests(f, true, self.config.border_color_focus),
                    None => Seq::empty(),
                }
            } else {
                Seq::empty()
            }) + (if o {
                Seq::empty()
            } else {
                configures(self.layout_spec().delwin_spec(self.cur().windows@, self.usable_area()))
            })
        } else {
            Seq::empty()
        }
    }

    /// Stops managing window `w`; one the model does not hold is ignored.
    /// The window leaves its list. With `resolve_focus` its workspace's focus
    /// moves by the removal policy from the place it had; without, the focus
    /// stays on the window it was on when that was another one. The client
    /// list is published again and, where the window was displayed, the
    /// focus request is sent and the layout redraws.
    pub fn unmanage_window(&mut self, w: u32, resolve_focus: bool) -> (r: Vec<Request>)
        requires
            old(self).wf(),
        ensures
            final(self).wf(),
            !old(self).is_managed(w) ==> *final(self) == *old(self) && r@.len() == 0,
            old(self).is_managed(w) ==> r@.len() > 0 && (r@[0] matches Request::ClientList(l) && l@
                == final(self).client_list()),
            forall|x: u32| #[trigger] final(self).is_managed(x) <==> (old(self).is_managed(x) && x != w),
            final(self).current_scr == old(self).current_scr,
            final(self).cur_wk() == old(self).cur_wk(),
            forall|s: int, k: int, o: bool, i: int|
                old(self).valid_cell(s, k) && 0 <= i < old(self).cell(s, k, o).len() && #[trigger] old(self).cell(
                    s,
                    k,
                    o,
                )[i] == w ==> {
                    &&& final(self).cell(s, k, o) == old(self).cell(s, k, o).remove(i)
                    &&& old(self).same_but(final(self), s, k, o)
                    &&& resolve_focus ==> ({
                        let p = crate::screens::refocus_spec(
                            final(self).ws(s, k).windows@.len() as int,
                            final(self).ws(s, k).ool_windows@.len() as int,
                            i,
                            o,
                        );
                        &&& p is None ==> final(self).ws(s, k).focused is None
                        &&& p matches Some((j, m)) ==> final(self).ws(s, k).focused == Some(j as usize)
                            && final(self).ws(s, k).ool_focus == m
                    })
                    &&& !resolve_focus && old(self).ws(s, k).focused_window_spec() != Some(w)
                        ==> final(self).ws(s, k).focused_window_spec() == old(self).ws(s, k).focused_window_spec()
                    &&& r@.drop_first() == final(self).unmanage_tail(s, k, o, resolve_focus)
                },
    {
        let mut out: Vec<Request> = Vec::new();
        let loc = self.window_location(w);
        match loc {
            None => {
                proof {
                    assert forall|s: int, k: int, o: bool, i: int|
                        self.valid_cell(s, k) && 0 <= i < self.cell(s, k, o).len() implies #[trigger] self.cell(
                        s,
                        k,
                        o,
                    )[i] != w by {
                        if self.cell(s, k, o)[i] == w {
                            assert(self.holds(s, k, o, w));
                        }
                    }
                }
                return out;
            },
            Some((s, k, i, o)) => {
                let ghost a = *self;
                assert(self.ws(s as int, k as int).focus_ok());
                if resolve_focus {
                    self.screens[s].workspaces[k].remove_and_refocus(i, o);
                } else {
                    self.screens[s].workspaces[k].remove_keep_focus(i, o);
                }
                proof {
                    let b = *self;
                    a.lemma_ws_frame(&b, s as int, k as int);
                    assert(b.cell(s as int, k as int, !o) == a.cell(s as int, k as int, !o));
                    Lapin::lemma_removed(&a, &b, s as int, k as int, o, i as int);
                    a.lemma_ws_frame_wf(&b, s as int, k as int);
                }
                out.push(Request::ClientList(self.client_list_exec()));
                if s == self.current_scr && k == self.screens[s].current_wk {
                    if resolve_focus {
                        if let Some(f) = self.get_focused_window() {
                            self.push_focus(&mut out, f, true);
                        }
                    }
                    if !o {
                        let area = self.calculate_layout_coordinates();
                        let focused = self.screens[s].workspaces[k].focused;
                        let ps = self.current_layout().delwin(&self.screens[s].workspaces[k].windows, focused, area);
                        push_placements(&mut out, ps);
                    }
                }
                assert(out@.drop_first() =~= self.unmanage_tail(s as int, k as int, o, resolve_focus));
            },
        }
        out
    }
}

/// The requests that unmap (`map == false`) or map each window of a list.
pub open spec fn map_requests(ws: Seq<u32>, map: bool) -> Seq<Request> {
    ws.map_values(|w: u32| if map { Request::MapWindow(w) } else { Request::UnmapWindow(w) })
}

/// Border width and color requests for each window of a list, the focused
/// one `f` in the focused color.
pub open spec fn border_requests(ws: Seq<u32>, f: u32, bw: u32, focus_color: u32, color: u32) -> Seq<Request>
    decreases ws.len(),
{
    if ws.len() == 0 {
        Seq::empty()
    } else {
        border_requests(ws.drop_last(), f, bw, focus_color, color) + seq![
            Request::BorderWidth(ws.last(), bw),
            Request::BorderColor(ws.last(), if ws.last() == f { focus_color } else { color }),
        ]
    }
}

/// Appends a map (or unmap) request for each window.
fn push_maps(out: &mut Vec<Request>, ws: &Vec<u32>, map: bool)
    ensures
        final(out)@ == old(out)@ + map_requests(ws@, map),
{
    let ghost start = out@;
    let mut i: usize = 0;
    while i < ws.len()
        invariant
            0 <= i <= ws@.len(),
            out@ == start + map_requests(ws@.subrange(0, i as int), map),
        decreases ws@.len() - i,
    {
        if map {
            out.push(Request::MapWindow(ws[i]));
        } else {
            out.push(Request::UnmapWindow(ws[i]));
        }
        i = i + 1;
        proof {
            assert(map_requests(ws@.subrange(0, i as int), map) =~= map_requests(ws@.subrange(0, i - 1), map).push(
                if map {
                    Request::MapWindow(ws@[i - 1])
                } else {
                    Request::UnmapWindow(ws@[i - 1])
                },
            ));
        }
    }
    assert(ws@.subrange(0, ws@.len() as int) =~= ws@);
}

/// The next index of `n`, wrapping (`previous` for backwards).
pub open spec fn cyclic(i: int, n: int, previous: bool) -> int {
    if previous {
        if i == 0 {
            n - 1
        } else {
            i - 1
        }
    } else {
        if i + 1 >= n {
            0
        } else {
            i + 1
        }
    }
}

fn cyclic_exec(i: usize, n: usize, previous: bool) -> (r: usize)
    requires
        i < n,
    ensures
        r == cyclic(i as int, n as int, previous),
        r < n,
{
    if previous {
        if i == 0 {
            n - 1
        } else {
            i - 1
        }
    } else {
        if i + 1 >= n {
            0
        } else {
            i + 1
        }
    }
}

impl Lapin {
    /// Every list is the same in both models.
    pub open spec fn cells_same(&self, b: &Lapin) -> bool {
        &&& self.same_shape(b)
        &&& forall|s: int, k: int, o: bool| self.valid_cell(s, k) ==> #[trigger] b.cell(s, k, o) == self.cell(s, k, o)
    }

    proof fn lemma_cells_same(a: &Lapin, b: &Lapin)
        requires
            a.unique(),
            a.cells_same(b),
        ensures
            b.unique(),
            forall|x: u32| #[trigger] b.is_managed(x) <==> a.is_managed(x),
    {
        assert forall|s: int, k: int, o: bool| b.valid_cell(s, k) implies #[trigger] b.cell(s, k, o).no_duplicates() by {
            assert(a.valid_cell(s, k));
            assert(a.cell(s, k, o).no_duplicates());
        }
        assert forall|x: u32, s: int, k: int, o: bool| #[trigger] b.holds(s, k, o, x) <==> a.holds(s, k, o, x) by {
            if b.valid_cell(s, k) || a.valid_cell(s, k) {
                assert(a.valid_cell(s, k) && b.valid_cell(s, k));
                assert(b.cell(s, k, o) == a.cell(s, k, o));
            }
        }
        assert forall|x: u32| #[trigger] b.is_managed(x) <==> a.is_managed(x) by {
            if b.is_managed(x) {
                let (s, k, o) = choose|s: int, k: int, o: bool| #[trigger] b.holds(s, k, o, x);
                assert(a.holds(s, k, o, x));
            }
            if a.is_managed(x) {
                let (s, k, o) = choose|s: int, k: int, o: bool| #[trigger] a.holds(s, k, o, x);
                assert(b.holds(s, k, o, x));
            }
        }
    }

    /// `wf` survives a change of workspace `(s, k)` that keeps its lists.
    proof fn lemma_focus_only(a: &Lapin, b: &Lapin, s: int, k: int)
        requires
            a.wf(),
            a.valid_cell(s, k),
            a.ws_frame(b, s, k),
            b.ws(s, k).focus_ok(),
            b.ws(s, k).layout < b.config.layouts@.len(),
            b.ws(s, k).windows == a.ws(s, k).windows,
            b.ws(s, k).ool_windows == a.ws(s, k).ool_windows,
        ensures
            b.wf(),
            a.cells_same(b),
    {
        a.lemma_ws_frame(b, s, k);
        Lapin::lemma_cells_same(a, b);
        a.lemma_ws_frame_wf(b, s, k);
    }

    /// Gives window `window`, at index `i` of list `ool` of workspace `k` of
    /// screen `s`, the focus; that workspace and screen become current.
    fn set_focus(&mut self, window: u32, s: usize, k: usize, i: usize, ool: bool, raise: bool) -> (r: Vec<Request>)
        requires
            old(self).wf(),
            old(self).valid_cell(s as int, k as int),
            i < old(self).cell(s as int, k as int, ool).len(),
        ensures
            final(self).wf(),
            old(self).cells_same(final(self)),
            final(self).current_scr == s,
            final(self).cur_wk() == k,
            final(self).cur().focused == Some(i),
            final(self).cur().ool_focus == ool,
            forall|s2: int, k2: int|
                old(self).valid_cell(s2, k2) && !(s2 == s && k2 == k) ==> #[trigger] final(self).ws(s2, k2) == old(
                    self,
                ).ws(s2, k2),
            forall|s2: int| 0 <= s2 < old(self).screens@.len() && s2 != s ==> #[trigger] final(self).screens@[s2].current_wk == old(self).screens@[s2].current_wk,
            r@ == focus_requests(window, raise, old(self).config.border_color_focus),
    {
        let ghost a = *self;
        self.screens[s].current_wk = k;
        assert(self.ws(s as int, k as int).focus_ok());
        self.screens[s].workspaces[k].focus_at(i, ool);
        self.current_scr = s;
        proof {
            let b = *self;
            assert forall|s2: int, k2: int, o2: bool| a.valid_cell(s2, k2) implies #[trigger] b.cell(s2, k2, o2)
                == a.cell(s2, k2, o2) by {
                if s2 != s {
                    assert(b.screens@[s2] == a.screens@[s2]);
                } else if k2 != k {
                    assert(b.ws(s as int, k2) == a.ws(s as int, k2));
                }
            }
            assert forall|s2: int| 0 <= s2 < a.screens@.len() implies (#[trigger] a.screens@[s2]).workspaces@.len()
                == b.screens@[s2].workspaces@.len() by {
                if s2 != s {
                    assert(b.screens@[s2] == a.screens@[s2]);
                }
            }
            Lapin::lemma_cells_same(&a, &b);
            assert forall|s2: int| 0 <= s2 < b.screens@.len() implies (#[trigger] b.screens@[s2]).workspaces@.len()
                >= 1 && b.screens@[s2].current_wk < b.screens@[s2].workspaces@.len() by {
                if s2 != s {
                    assert(b.screens@[s2] == a.screens@[s2]);
                }
            }
            assert forall|s2: int, k2: int| b.valid_cell(s2, k2) implies (#[trigger] b.ws(s2, k2)).focus_ok()
                && b.ws(s2, k2).layout < b.config.layouts@.len() by {
                assert(a.valid_cell(s2, k2));
                assert(a.ws(s2, k2).focus_ok());
                if s2 != s {
                    assert(b.screens@[s2] == a.screens@[s2]);
                } else if k2 != k {
                    assert(b.ws(s as int, k2) == a.ws(s as int, k2));
                }
            }
            assert forall|s2: int, k2: int| a.valid_cell(s2, k2) && !(s2 == s && k2 == k) implies #[trigger] b.ws(s2, k2) == a.ws(s2, k2) by {
                if s2 != s {
                    assert(b.screens@[s2] == a.screens@[s2]);
                }
            }
        }
        let mut out: Vec<Request> = Vec::new();
        self.push_focus(&mut out, window, raise);
        proof {
            assert(out@ =~= focus_requests(window, raise, self.config.border_color_focus));
        }
        out
    }

    /// Whether window `w` is on the displayed workspace of a screen.
    pub open spec fn shown(&self, w: u32) -> bool {
        exists|s: int, o: bool|
            0 <= s < self.screens@.len() && #[trigger] self.holds(s, self.screens@[s].current_wk as int, o, w)
    }

    /// Focuses window `window` (the pointer entered it) when it is displayed:
    /// the old focus gets its plain border back. Others are ignored.
    pub fn toggle_focus(&mut self, window: u32, raise: bool) -> (r: Vec<Request>)
        requires
            old(self).wf(),
        ensures
            final(self).wf(),
            old(self).cells_same(final(self)),
            old(self).shown(window) ==> final(self).focused_spec() == Some(window) && r@ == (match old(
                self,
            ).focused_spec() {
                Some(f) => seq![Request::BorderColor(f, old(self).config.border_color)],
                None => Seq::empty(),
            }) + focus_requests(window, raise, old(self).config.border_color_focus),
            !old(self).shown(window) ==> *final(self) == *old(self) && r@.len() == 0,
    {
        let mut out: Vec<Request> = Vec::new();
        match self.window_location(window) {
            Some((s, k, i, o)) => {
                if k != self.screens[s].current_wk {
                    proof {
                        if self.shown(window) {
                            let (s2, o2) = choose|s2: int, o2: bool|
                                0 <= s2 < self.screens@.len() && #[trigger] self.holds(
                                    s2,
                                    self.screens@[s2].current_wk as int,
                                    o2,
                                    window,
                                );
                            assert(self.holds(s as int, k as int, o, window));
                        }
                    }
                    return out;
                }
                if let Some(prev) = self.get_focused_window() {
                    out.push(Request::BorderColor(prev, self.config.border_color));
                }
                let ghost a = *self;
                assert(a.holds(s as int, a.screens@[s as int].current_wk as int, o, window));
                assert(a.shown(window));
                let mut reqs = self.set_focus(window, s, k, i, o, raise);
                out.append(&mut reqs);
                proof {
                    assert(self.cell(s as int, k as int, o) == a.cell(s as int, k as int, o));
                    assert(out@ =~= (match a.focused_spec() {
                        Some(f) => seq![Request::BorderColor(f, a.config.border_color)],
                        None => Seq::empty(),
                    }) + focus_requests(window, raise, a.config.border_color_focus));
                }
            },
            None => {
                proof {
                    if self.shown(window) {
                        let (s2, o2) = choose|s2: int, o2: bool|
                            0 <= s2 < self.screens@.len() && #[trigger] self.holds(
                                s2,
                                self.screens@[s2].current_wk as int,
                                o2,
                                window,
                            );
                        assert(self.is_managed(window));
                    }
                }
            },
        }
        out
    }
}

proof fn lemma_swap_perm(s: Seq<u32>, i: int, j: int)
    requires
        s.no_duplicates(),
        0 <= i < s.len(),
        0 <= j < s.len(),
    ensures
        s.update(i, s[j]).update(j, s[i]).no_duplicates(),
        forall|x: u32| #[trigger] s.update(i, s[j]).update(j, s[i]).contains(x) ==> s.contains(x),
{
    let t = s.update(i, s[j]).update(j, s[i]);
    let perm = |a: int| if a == i { j } else if a == j { i } else { a };
    assert forall|a: int| 0 <= a < t.len() implies t[a] == s[perm(a)] by {}
    assert forall|x: u32| #[trigger] t.contains(x) implies s.contains(x) by {
        let a = choose|a: int| 0 <= a < t.len() && t[a] == x;
        assert(s[perm(a)] == x);
    }
    assert forall|a: int, b: int| 0 <= a < t.len() && 0 <= b < t.len() && a != b implies t[a] != t[b] by {
        assert(t[a] == s[perm(a)] && t[b] == s[perm(b)]);
    }
}

proof fn lemma_rotate_up_perm(s: Seq<u32>)
    requires
        s.no_duplicates(),
        s.len() > 0,
    ensures
        s.drop_first().push(s[0]).no_duplicates(),
        forall|x: u32| #[trigger] s.drop_first().push(s[0]).contains(x) ==> s.contains(x),
{
    let t = s.drop_first().push(s[0]);
    let n = s.len();
    let perm = |a: int| if a == n - 1 { 0 } else { a + 1 };
    assert forall|a: int| 0 <= a < t.len() implies t[a] == s[perm(a)] by {}
    assert forall|x: u32| #[trigger] t.contains(x) implies s.contains(x) by {
        let a = choose|a: int| 0 <= a < t.len() && t[a] == x;
        assert(s[perm(a)] == x);
    }
    assert forall|a: int, b: int| 0 <= a < t.len() && 0 <= b < t.len() && a != b implies t[a] != t[b] by {
        assert(t[a] == s[perm(a)] && t[b] == s[perm(b)]);
    }
}

proof fn lemma_rotate_down_perm(s: Seq<u32>)
    requires
        s.no_duplicates(),
        s.len() > 0,
    ensures
        s.drop_last().insert(0, s[s.len() - 1]).no_duplicates(),
        forall|x: u32| #[trigger] s.drop_last().insert(0, s[s.len() - 1]).contains(x) ==> s.contains(x),
{
    let t = s.drop_last().insert(0, s[s.len() - 1]);
    let n = s.len();
    let perm = |a: int| if a == 0 { n - 1 } else { a - 1 };
    assert forall|a: int| 0 <= a < t.len() implies t[a] == s[perm(a)] by {}
    assert forall|x: u32| #[trigger] t.contains(x) implies s.contains(x) by {
        let a = choose|a: int| 0 <= a < t.len() && t[a] == x;
        assert(s[perm(a)] == x);
    }
    assert forall|a: int, b: int| 0 <= a < t.len() && 0 <= b < t.len() && a != b implies t[a] != t[b] by {
        assert(t[a] == s[perm(a)] && t[b] == s[perm(b)]);
    }
}

impl Lapin {
    /// Only the current workspace may differ between the two models.
    pub open spec fn cur_frame(&self, b: &Lapin) -> bool {
        self.ws_frame(b, self.current_scr as int, self.cur_wk())
    }

    /// The placements the active layout gives on a full reload.
    pub open spec fn reload_placements(&self) -> Seq<Placement> {
        self.layout_spec().reload_spec(self.cur().windows@, self.usable_area())
    }

    /// Moves the focus one step along the current workspace's two rings
    /// (`previous` for backwards), as `cycle_step` says. Nothing happens with
    /// one window or none.
    fn change_win(&mut self, previous: bool) -> (r: Vec<Request>)
        requires
            old(self).wf(),
        ensures
            final(self).wf(),
            old(self).cells_same(final(self)),
            old(self).cur_frame(final(self)),
            ({
                let c = old(self).cur();
                if c.focused is Some && c.windows@.len() + c.ool_windows@.len() > 1 {
                    let p = crate::screens::cycle_step(
                        c.windows@.len() as int,
                        c.ool_windows@.len() as int,
                        c.ool_focus,
                        c.focused->0 as int,
                        previous,
                    );
                    &&& final(self).cur().focused == Some(p.1 as usize)
                    &&& final(self).cur().ool_focus == p.0
                    &&& r@ == seq![Request::BorderColor(old(self).focused_spec()->0, old(self).config.border_color)]
                        + focus_requests(final(self).focused_spec()->0, true, old(self).config.border_color_focus)
                } else {
                    *final(self) == *old(self) && r@.len() == 0
                }
            }),
    {
        let mut out: Vec<Request> = Vec::new();
        let cs = self.current_scr;
        let ck = self.screens[cs].current_wk;
        let prev = match self.get_focused_window() {
            Some(p) => p,
            None => {
                return out;
            },
        };
        let wn = self.screens[cs].workspaces[ck].windows.len();
        let on = self.screens[cs].workspaces[ck].ool_windows.len();
        if !(wn >= 2 || on >= 2 || (wn >= 1 && on >= 1)) {
            return out;
        }
        let ghost a = *self;
        assert(self.ws(cs as int, ck as int).focus_ok());
        self.screens[cs].workspaces[ck].cycle(previous);
        proof {
            Lapin::lemma_focus_only(&a, &*self, cs as int, ck as int);
        }
        out.push(Request::BorderColor(prev, self.config.border_color));
        let now = self.get_focused_window();
        if let Some(f) = now {
            self.push_focus(&mut out, f, true);
        }
        proof {
            assert(out@ =~= seq![Request::BorderColor(a.focused_spec()->0, a.config.border_color)]
                + focus_requests(self.focused_spec()->0, true, a.config.border_color_focus));
        }
        out
    }

    /// Focuses the next window of the current workspace.
    pub fn nextwin(&mut self) -> (r: Vec<Request>)
        requires
            old(self).wf(),
        ensures
            final(self).wf(),
            old(self).cells_same(final(self)),
            old(self).cur_frame(final(self)),
            ({
                let c = old(self).cur();
                if c.focused is Some && c.windows@.len() + c.ool_windows@.len() > 1 {
                    let p = crate::screens::cycle_step(
                        c.windows@.len() as int,
                        c.ool_windows@.len() as int,
                        c.ool_focus,
                        c.focused->0 as int,
                        false,
                    );
                    &&& final(self).cur().focused == Some(p.1 as usize)
                    &&& final(self).cur().ool_focus == p.0
                    &&& r@ == seq![Request::BorderColor(old(self).focused_spec()->0, old(self).config.border_color)]
                        + focus_requests(final(self).focused_spec()->0, true, old(self).config.border_color_focus)
                } else {
                    *final(self) == *old(self) && r@.len() == 0
                }
            }),
    {
        self.change_win(false)
    }

    /// Focuses the previous window of the current workspace.
    pub fn prevwin(&mut self) -> (r: Vec<Request>)
        requires
            old(self).wf(),
        ensures
            final(self).wf(),
            old(self).cells_same(final(self)),
            old(self).cur_frame(final(self)),
            ({
                let c = old(self).cur();
                if c.focused is Some && c.windows@.len() + c.ool_windows@.len() > 1 {
                    let p = crate::screens::cycle_step(
                        c.windows@.len() as int,
                        c.ool_windows@.len() as int,
                        c.ool_focus,
                        c.focused->0 as int,
                        true,
                    );
                    &&& final(self).cur().focused == Some(p.1 as usize)
                    &&& final(self).cur().ool_focus == p.0
                    &&& r@ == seq![Request::BorderColor(old(self).focused_spec()->0, old(self).config.border_color)]
                        + focus_requests(final(self).focused_spec()->0, true, old(self).config.border_color_focus)
                } else {
                    *final(self) == *old(self) && r@.len() == 0
                }
            }),
    {
        self.change_win(true)
    }

    /// Moves the current workspace to the next (or, with `previous`, the
    /// former) layout of the registry, wrapping; borders are set again for
    /// that layout and the windows laid out. Any drag ends.
    fn change_layout(&mut self, previous: bool) -> (r: Vec<Request>)
        requires
            old(self).wf(),
        ensures
            final(self).wf(),
            old(self).cells_same(final(self)),
            old(self).cur_frame(final(self)),
            final(self).cur().layout == cyclic(
                old(self).cur().layout as int,
                old(self).config.layouts@.len() as int,
                previous,
            ),
            final(self).cur().focused == old(self).cur().focused,
            final(self).cur().ool_focus == old(self).cur().ool_focus,
            final(self).cur().respect_reserved_space == old(self).cur().respect_reserved_space,
            final(self).drag is None,
            r@ == (match old(self).focused_spec() {
                Some(f) => border_requests(
                    old(self).cur().windows@,
                    f,
                    final(self).layout_spec().border_width_spec() as u32,
                    old(self).config.border_color_focus,
                    old(self).config.border_color,
                ),
                None => Seq::empty(),
            }) + configures(final(self).reload_placements()),
    {
        let cs = self.current_scr;
        let ck = self.screens[cs].current_wk;
        let n = self.config.layouts.len();
        let l = self.screens[cs].workspaces[ck].layout;
        let nl = cyclic_exec(l, n, previous);
        let ghost a = *self;
        self.screens[cs].workspaces[ck].layout = nl;
        self.drag = None;
        proof {
            assert(self.ws(cs as int, ck as int).focus_ok());
            Lapin::lemma_focus_only(&a, &*self, cs as int, ck as int);
        }
        let mut out: Vec<Request> = Vec::new();
        if let Some(f) = self.get_focused_window() {
            let bw = self.current_layout().border_width() as u32;
            let ws = &self.screens[cs].workspaces[ck].windows;
            let mut i: usize = 0;
            while i < ws.len()
                invariant
                    0 <= i <= ws@.len(),
                    out@ == border_requests(
                        ws@.subrange(0, i as int),
                        f,
                        bw,
                        self.config.border_color_focus,
                        self.config.border_color,
                    ),
                decreases ws@.len() - i,
            {
                let w = ws[i];
                out.push(Request::BorderWidth(w, bw));
                out.push(
                    Request::BorderColor(
                        w,
                        if w == f {
                            self.config.border_color_focus
                        } else {
                            self.config.border_color
                        },
                    ),
                );
                i = i + 1;
                proof {
                    let sub = ws@.subrange(0, i as int);
                    assert(sub.drop_last() =~= ws@.subrange(0, i - 1));
                    assert(out@ =~= border_requests(sub, f, bw, self.config.border_color_focus, self.config.border_color));
                }
            }
            assert(ws@.subrange(0, ws@.len() as int) =~= ws@);
        }
        let area = self.calculate_layout_coordinates();
        let ps = self.current_layout().reload(&self.screens[cs].workspaces[ck].windows, area);
        push_placements(&mut out, ps);
        out
    }

    /// Switches the current workspace to the next layout.
    pub fn next_layout(&mut self) -> (r: Vec<Request>)
        requires
            old(self).wf(),
        ensures
            final(self).wf(),
            old(self).cells_same(final(self)),
            old(self).cur_frame(final(self)),
            final(self).cur().layout == cyclic(
                old(self).cur().layout as int,
                old(self).config.layouts@.len() as int,
                false,
            ),
            final(self).cur().focused == old(self).cur().focused,
            final(self).cur().ool_focus == old(self).cur().ool_focus,
            final(self).cur().respect_reserved_space == old(self).cur().respect_reserved_space,
            final(self).drag is None,
            r@ == (match old(self).focused_spec() {
                Some(f) => border_requests(
                    old(self).cur().windows@,
                    f,
                    final(self).layout_spec().border_width_spec() as u32,
                    old(self).config.border_color_focus,
                    old(self).config.border_color,
                ),
                None => Seq::empty(),
            }) + configures(final(self).reload_placements()),
    {
        self.change_layout(false)
    }

    /// Switches the current workspace to the previous layout.
    pub fn prev_layout(&mut self) -> (r: Vec<Request>)
        requires
            old(self).wf(),
        ensures
            final(self).wf(),
            old(self).cells_same(final(self)),
            old(self).cur_frame(final(self)),
            final(self).cur().layout == cyclic(
                old(self).cur().layout as int,
                old(self).config.layouts@.len() as int,
                true,
            ),
            final(self).cur().focused == old(self).cur().focused,
            final(self).cur().ool_focus == old(self).cur().ool_focus,
            final(self).cur().respect_reserved_space == old(self).cur().respect_reserved_space,
            final(self).drag is None,
            r@ == (match old(self).focused_spec() {
                Some(f) => border_requests(
                    old(self).cur().windows@,
                    f,
                    final(self).layout_spec().border_width_spec() as u32,
                    old(self).config.border_color_focus,
                    old(self).config.border_color,
                ),
                None => Seq::empty(),
            }) + configures(final(self).reload_placements()),
    {
        self.change_layout(true)
    }
}

impl Lapin {
    /// Moves the focus to the next (or, with `previous`, the former) screen,
    /// wrapping: that screen's focused window (or the root) gets the input
    /// focus and the current workspace is published.
    fn change_screen(&mut self, previous: bool) -> (r: Vec<Request>)
        requires
            old(self).wf(),
        ensures
            final(self).wf(),
            final(self).screens == old(self).screens,
            final(self).current_scr == cyclic(
                old(self).current_scr as int,
                old(self).screens@.len() as int,
                previous,
            ),
            r@ == (match old(self).focused_spec() {
                Some(f) => seq![Request::BorderColor(f, old(self).config.border_color)],
                None => Seq::empty(),
            }) + (match final(self).focused_spec() {
                Some(g) => seq![
                    Request::BorderColor(g, old(self).config.border_color_focus),
                    Request::Focus(g),
                ],
                None => seq![Request::FocusRoot],
            }) + seq![Request::CurrentDesktop(final(self).cur_wk() as usize)],
    {
        let mut out: Vec<Request> = Vec::new();
        if let Some(f) = self.get_focused_window() {
            out.push(Request::BorderColor(f, self.config.border_color));
        }
        let ghost a = *self;
        self.current_scr = cyclic_exec(self.current_scr, self.screens.len(), previous);
        proof {
            let b = *self;
            assert(b.screens == a.screens);
            assert(a.cells_same(&b));
            Lapin::lemma_cells_same(&a, &b);
            assert forall|s: int, k: int| b.valid_cell(s, k) implies (#[trigger] b.ws(s, k)).focus_ok() && b.ws(
                s,
                k,
            ).layout < b.config.layouts@.len() by {
                assert(a.valid_cell(s, k));
                assert(a.ws(s, k).focus_ok());
            }
            assert forall|s: int| 0 <= s < b.screens@.len() implies (#[trigger] b.screens@[s]).workspaces@.len()
                >= 1 && b.screens@[s].current_wk < b.screens@[s].workspaces@.len() by {
                assert(a.screens@[s].workspaces@.len() >= 1);
            }
        }
        match self.get_focused_window() {
            Some(g) => {
                out.push(Request::BorderColor(g, self.config.border_color_focus));
                out.push(Request::Focus(g));
            },
            None => {
                out.push(Request::FocusRoot);
            },
        }
        out.push(Request::CurrentDesktop(self.screens[self.current_scr].current_wk));
        proof {
            assert(out@ =~= (match a.focused_spec() {
                Some(f) => seq![Request::BorderColor(f, a.config.border_color)],
                None => Seq::empty(),
            }) + (match self.focused_spec() {
                Some(g) => seq![Request::BorderColor(g, a.config.border_color_focus), Request::Focus(g)],
                None => seq![Request::FocusRoot],
            }) + seq![Request::CurrentDesktop(self.cur_wk() as usize)]);
        }
        out
    }

    /// Focuses the next screen.
    pub fn next_screen(&mut self) -> (r: Vec<Request>)
        requires
            old(self).wf(),
        ensures
            final(self).wf(),
            final(self).screens == old(self).screens,
            final(self).current_scr == cyclic(
                old(self).current_scr as int,
                old(self).screens@.len() as int,
                false,
            ),
            r@ == (match old(self).focused_spec() {
                Some(f) => seq![Request::BorderColor(f, old(self).config.border_color)],
                None => Seq::empty(),
            }) + (match final(self).focused_spec() {
                Some(g) => seq![
                    Request::BorderColor(g, old(self).config.border_color_focus),
                    Request::Focus(g),
                ],
                None => seq![Request::FocusRoot],
            }) + seq![Request::CurrentDesktop(final(self).cur_wk() as usize)],
    {
        self.change_screen(false)
    }

    /// Focuses the previous screen.
    pub fn prev_screen(&mut self) -> (r: Vec<Request>)
        requires
            old(self).wf(),
        ensures
            final(self).wf(),
            final(self).screens == old(self).screens,
            final(self).current_scr == cyclic(
                old(self).current_scr as int,
                old(self).screens@.len() as int,
                true,
            ),
            r@ == (match old(self).focused_spec() {
                Some(f) => seq![Request::BorderColor(f, old(self).config.border_color)],
                None => Seq::empty(),
            }) + (match final(self).focused_spec() {
                Some(g) => seq![
                    Request::BorderColor(g, old(self).config.border_color_focus),
                    Request::Focus(g),
                ],
                None => seq![Request::FocusRoot],
            }) + seq![Request::CurrentDesktop(final(self).cur_wk() as usize)],
    {
        self.change_screen(true)
    }

    /// Closes the focused window's client.
    pub fn killfocused(&self) -> (r: Vec<Request>)
        requires
            self.wf(),
        ensures
            r@ == (match self.focused_spec() {
                Some(f) => seq![Request::Kill(f)],
                None => Seq::empty(),
            }),
    {
        let mut out: Vec<Request> = Vec::new();
        if let Some(f) = self.get_focused_window() {
            out.push(Request::Kill(f));
        }
        proof {
            assert(out@ =~= (match self.focused_spec() {
                Some(f) => seq![Request::Kill(f)],
                None => Seq::empty(),
            }));
        }
        out
    }

    /// Displays workspace `wk` of the current screen: the windows of the old
    /// one are unmapped, those of the new one mapped, its focused window (or
    /// the root) gets the input focus and the layout lays it out. Nothing
    /// happens when `wk` is already displayed or names no workspace. Any drag
    /// ends.
    pub fn goto_workspace(&mut self, wk: usize) -> (r: Vec<Request>)
        requires
            old(self).wf(),
        ensures
            final(self).wf(),
            old(self).cells_same(final(self)),
            final(self).current_scr == old(self).current_scr,
            wk == old(self).cur_wk() || wk >= old(self).screens@[old(self).current_scr as int].workspaces@.len()
                ==> *final(self) == *old(self) && r@.len() == 0,
            wk != old(self).cur_wk() && wk < old(self).screens@[old(self).current_scr as int].workspaces@.len()
                ==> {
                &&& final(self).cur_wk() == wk
                &&& final(self).drag is None
                &&& forall|s: int, k: int| old(self).valid_cell(s, k) ==> #[trigger] final(self).ws(s, k) == old(self).ws(s, k)
                &&& forall|s: int| 0 <= s < old(self).screens@.len() && s != old(self).current_scr ==> #[trigger] final(self).screens@[s] == old(self).screens@[s]
                &&& r@ == map_requests(old(self).cur().windows@, false) + map_requests(
                    old(self).cur().ool_windows@,
                    false,
                ) + seq![Request::CurrentDesktop(wk)] + map_requests(final(self).cur().windows@, true)
                    + map_requests(final(self).cur().ool_windows@, true) + (match final(self).focused_spec() {
                    Some(g) => seq![Request::Focus(g)],
                    None => seq![Request::FocusRoot],
                }) + configures(final(self).reload_placements())
            },
    {
        let mut out: Vec<Request> = Vec::new();
        let cs = self.current_scr;
        let ck = self.screens[cs].current_wk;
        if wk == ck || wk >= self.screens[cs].workspaces.len() {
            return out;
        }
        push_maps(&mut out, &self.screens[cs].workspaces[ck].windows, false);
        push_maps(&mut out, &self.screens[cs].workspaces[ck].ool_windows, false);
        let ghost a = *self;
        self.screens[cs].current_wk = wk;
        self.drag = None;
        proof {
            let b = *self;
            assert forall|s: int, k: int| a.valid_cell(s, k) implies #[trigger] b.ws(s, k) == a.ws(s, k) by {
                if s != cs {
                    assert(b.screens@[s] == a.screens@[s]);
                }
            }
            assert forall|s: int| 0 <= s < a.screens@.len() implies (#[trigger] a.screens@[s]).workspaces@.len()
                == b.screens@[s].workspaces@.len() by {
                if s != cs {
                    assert(b.screens@[s] == a.screens@[s]);
                }
            }
            assert(a.cells_same(&b));
            Lapin::lemma_cells_same(&a, &b);
            assert forall|s: int| 0 <= s < b.screens@.len() implies (#[trigger] b.screens@[s]).workspaces@.len()
                >= 1 && b.screens@[s].current_wk < b.screens@[s].workspaces@.len() by {
                if s != cs {
                    assert(b.screens@[s] == a.screens@[s]);
                }
            }
            assert forall|s: int, k: int| b.valid_cell(s, k) implies (#[trigger] b.ws(s, k)).focus_ok() && b.ws(
                s,
                k,
            ).layout < b.config.layouts@.len() by {
                assert(a.valid_cell(s, k));
                assert(a.ws(s, k).focus_ok());
            }
        }
        out.push(Request::CurrentDesktop(wk));
        push_maps(&mut out, &self.screens[cs].workspaces[wk].windows, true);
        push_maps(&mut out, &self.screens[cs].workspaces[wk].ool_windows, true);
        match self.get_focused_window() {
            Some(g) => {
                out.push(Request::Focus(g));
            },
            None => {
                out.push(Request::FocusRoot);
            },
        }
        let area = self.calculate_layout_coordinates();
        let ps = self.current_layout().reload(&self.screens[cs].workspaces[wk].windows, area);
        push_placements(&mut out, ps);
        proof {
            assert(out@ =~= map_requests(a.cur().windows@, false) + map_requests(a.cur().ool_windows@, false)
                + seq![Request::CurrentDesktop(wk)] + map_requests(self.cur().windows@, true) + map_requests(
                self.cur().ool_windows@,
                true,
            ) + (match self.focused_spec() {
                Some(g) => seq![Request::Focus(g)],
                None => seq![Request::FocusRoot],
            }) + configures(self.reload_placements()));
        }
        out
    }

    /// Flips whether the current workspace keeps clear of the reserved space,
    /// and lays it out again.
    pub fn toggle_reserved_space(&mut self) -> (r: Vec<Request>)
        requires
            old(self).wf(),
        ensures
            final(self).wf(),
            old(self).cells_same(final(self)),
            old(self).cur_frame(final(self)),
            final(self).cur().respect_reserved_space == !old(self).cur().respect_reserved_space,
            final(self).cur().focused == old(self).cur().focused,
            final(self).cur().ool_focus == old(self).cur().ool_focus,
            final(self).cur().layout == old(self).cur().layout,
            r@ == configures(final(self).reload_placements()),
    {
        let cs = self.current_scr;
        let ck = self.screens[cs].current_wk;
        let ghost a = *self;
        let v = self.screens[cs].workspaces[ck].respect_reserved_space;
        self.screens[cs].workspaces[ck].respect_reserved_space = !v;
        proof {
            assert(self.ws(cs as int, ck as int).focus_ok());
            Lapin::lemma_focus_only(&a, &*self, cs as int, ck as int);
        }
        let mut out: Vec<Request> = Vec::new();
        let area = self.calculate_layout_coordinates();
        let ps = self.current_layout().reload(&self.screens[cs].workspaces[ck].windows, area);
        push_placements(&mut out, ps);
        assert(out@ =~= configures(self.reload_placements()));
        out
    }
}

impl Lapin {
    /// `wf` survives a reordering of the managed list of workspace `(s, k)`.
    proof fn lemma_managed_perm(a: &Lapin, b: &Lapin, s: int, k: int)
        requires
            a.wf(),
            a.valid_cell(s, k),
            a.ws_frame(b, s, k),
            b.ws(s, k).focus_ok(),
            b.ws(s, k).layout == a.ws(s, k).layout,
            b.ws(s, k).ool_windows == a.ws(s, k).ool_windows,
            b.ws(s, k).windows@.no_duplicates(),
            forall|x: u32| #[trigger] b.ws(s, k).windows@.contains(x) ==> a.ws(s, k).windows@.contains(x),
        ensures
            b.wf(),
            forall|x: u32| #[trigger] b.is_managed(x) ==> a.is_managed(x),
    {
        a.lemma_ws_frame(b, s, k);
        assert(b.cell(s, k, true) == a.cell(s, k, true));
        assert forall|x: u32| #[trigger] b.cell(s, k, false).contains(x) implies a.cell(s, k, false).contains(x)
            || (None::<u32> == Some(x) && !a.is_managed(x)) by {
            assert(b.ws(s, k).windows@.contains(x));
        }
        lemma_replace_cell(a, b, s, k, false, None);
        a.lemma_ws_frame_wf(b, s, k);
    }

    /// Rotates the current workspace's managed list up (the master goes to
    /// the end) and lays it out again; the focus index follows the rotation.
    /// Nothing happens when the focus is floating or nowhere.
    pub fn rotate_windows_up(&mut self) -> (r: Vec<Request>)
        requires
            old(self).wf(),
        ensures
            final(self).wf(),
            old(self).cur_frame(final(self)),
            ({
                let c = old(self).cur();
                match c.focused {
                    Some(i) if !c.ool_focus => {
                        &&& final(self).cur().windows@ == c.windows@.drop_first().push(c.windows@[0])
                        &&& final(self).cur().ool_windows == c.ool_windows
                        &&& final(self).cur().focused == Some(
                            if i == 0 {
                                (c.windows@.len() - 1) as usize
                            } else {
                                (i - 1) as usize
                            },
                        )
                        &&& !final(self).cur().ool_focus
                        &&& r@ == configures(final(self).reload_placements())
                    },
                    _ => *final(self) == *old(self) && r@.len() == 0,
                }
            }),
    {
        let cs = self.current_scr;
        let ck = self.screens[cs].current_wk;
        let mut out: Vec<Request> = Vec::new();
        if self.screens[cs].workspaces[ck].ool_focus || self.screens[cs].workspaces[ck].focused.is_none() {
            return out;
        }
        let ghost a = *self;
        assert(self.ws(cs as int, ck as int).focus_ok());
        self.screens[cs].workspaces[ck].rotate_up();
        proof {
            assert(a.valid_cell(cs as int, ck as int));
            assert(a.cell(cs as int, ck as int, false).no_duplicates());
            lemma_rotate_up_perm(a.cur().windows@);
            Lapin::lemma_managed_perm(&a, &*self, cs as int, ck as int);
        }
        let area = self.calculate_layout_coordinates();
        let ps = self.current_layout().reload(&self.screens[cs].workspaces[ck].windows, area);
        push_placements(&mut out, ps);
        assert(out@ =~= configures(self.reload_placements()));
        out
    }

    /// Rotates the current workspace's managed list down (the last window
    /// becomes the master) and lays it out again; the focus index follows.
    /// Nothing happens when the focus is floating or nowhere.
    pub fn rotate_windows_down(&mut self) -> (r: Vec<Request>)
        requires
            old(self).wf(),
        ensures
            final(self).wf(),
            old(self).cur_frame(final(self)),
            ({
                let c = old(self).cur();
                let n = c.windows@.len() as int;
                match c.focused {
                    Some(i) if !c.ool_focus => {
                        &&& final(self).cur().windows@ == c.windows@.drop_last().insert(0, c.windows@[n - 1])
                        &&& final(self).cur().ool_windows == c.ool_windows
                        &&& final(self).cur().focused == Some(
                            if i == n - 1 {
                                0usize
                            } else {
                                (i + 1) as usize
                            },
                        )
                        &&& !final(self).cur().ool_focus
                        &&& r@ == configures(final(self).reload_placements())
                    },
                    _ => *final(self) == *old(self) && r@.len() == 0,
                }
            }),
    {
        let cs = self.current_scr;
        let ck = self.screens[cs].current_wk;
        let mut out: Vec<Request> = Vec::new();
        if self.screens[cs].workspaces[ck].ool_focus || self.screens[cs].workspaces[ck].focused.is_none() {
            return out;
        }
        let ghost a = *self;
        assert(self.ws(cs as int, ck as int).focus_ok());
        self.screens[cs].workspaces[ck].rotate_down();
        proof {
            assert(a.valid_cell(cs as int, ck as int));
            assert(a.cell(cs as int, ck as int, false).no_duplicates());
            lemma_rotate_down_perm(a.cur().windows@);
            Lapin::lemma_managed_perm(&a, &*self, cs as int, ck as int);
        }
        let area = self.calculate_layout_coordinates();
        let ps = self.current_layout().reload(&self.screens[cs].workspaces[ck].windows, area);
        push_placements(&mut out, ps);
        assert(out@ =~= configures(self.reload_placements()));
        out
    }

    /// Swaps the focused managed window with the next slave (the first slave
    /// after the last) and lays the workspace out again; the focus follows
    /// the window. Nothing happens on the master or a floating or no focus.
    pub fn swap_with_next_slave(&mut self) -> (r: Vec<Request>)
        requires
            old(self).wf(),
        ensures
            final(self).wf(),
            old(self).cur_frame(final(self)),
            ({
                let c = old(self).cur();
                let n = c.windows@.len() as int;
                match c.focused {
                    Some(i) if !c.ool_focus && i > 0 => {
                        let nx = if i == n - 1 {
                            1
                        } else {
                            i + 1
                        };
                        &&& final(self).cur().windows@ == c.windows@.update(i as int, c.windows@[nx]).update(
                            nx,
                            c.windows@[i as int],
                        )
                        &&& final(self).cur().ool_windows == c.ool_windows
                        &&& final(self).cur().focused == Some(nx as usize)
                        &&& !final(self).cur().ool_focus
                        &&& r@ == configures(final(self).reload_placements())
                    },
                    _ => *final(self) == *old(self) && r@.len() == 0,
                }
            }),
    {
        let cs = self.current_scr;
        let ck = self.screens[cs].current_wk;
        let mut out: Vec<Request> = Vec::new();
        match self.screens[cs].workspaces[ck].focused {
            Some(i) => {
                if self.screens[cs].workspaces[ck].ool_focus || i == 0 {
                    return out;
                }
            },
            None => {
                return out;
            },
        }
        let ghost a = *self;
        assert(self.ws(cs as int, ck as int).focus_ok());
        self.screens[cs].workspaces[ck].swap_with_next_slave();
        proof {
            assert(a.valid_cell(cs as int, ck as int));
            assert(a.cell(cs as int, ck as int, false).no_duplicates());
            let c = a.cur();
            let i = c.focused->0 as int;
            let n = c.windows@.len() as int;
            lemma_swap_perm(c.windows@, i, if i == n - 1 { 1 } else { i + 1 });
            Lapin::lemma_managed_perm(&a, &*self, cs as int, ck as int);
        }
        let area = self.calculate_layout_coordinates();
        let ps = self.current_layout().reload(&self.screens[cs].workspaces[ck].windows, area);
        push_placements(&mut out, ps);
        assert(out@ =~= configures(self.reload_placements()));
        out
    }

    /// Swaps the focused managed window with the previous slave (the last
    /// one before the first slave) and lays the workspace out again; the
    /// focus follows the window. Nothing happens on the master or a floating
    /// or no focus.
    pub fn swap_with_prev_slave(&mut self) -> (r: Vec<Request>)
        requires
            old(self).wf(),
        ensures
            final(self).wf(),
            old(self).cur_frame(final(self)),
            ({
                let c = old(self).cur();
                let n = c.windows@.len() as int;
                match c.focused {
                    Some(i) if !c.ool_focus && i > 0 => {
                        let pv = if i == 1 {
                            n - 1
                        } else {
                            i - 1
                        };
                        &&& final(self).cur().windows@ == c.windows@.update(i as int, c.windows@[pv]).update(
                            pv,
                            c.windows@[i as int],
                        )
                        &&& final(self).cur().ool_windows == c.ool_windows
                        &&& final(self).cur().focused == Some(pv as usize)
                        &&& !final(self).cur().ool_focus
                        &&& r@ == configures(final(self).reload_placements())
                    },
                    _ => *final(self) == *old(self) && r@.len() == 0,
                }
            }),
    {
        let cs = self.current_scr;
        let ck = self.screens[cs].current_wk;
        let mut out: Vec<Request> = Vec::new();
        match self.screens[cs].workspaces[ck].focused {
            Some(i) => {
                if self.screens[cs].workspaces[ck].ool_focus || i == 0 {
                    return out;
                }
            },
            None => {
                return out;
            },
        }
        let ghost a = *self;
        assert(self.ws(cs as int, ck as int).focus_ok());
        self.screens[cs].workspaces[ck].swap_with_prev_slave();
        proof {
            assert(a.valid_cell(cs as int, ck as int));
            assert(a.cell(cs as int, ck as int, false).no_duplicates());
            let c = a.cur();
            let i = c.focused->0 as int;
            let n = c.windows@.len() as int;
            lemma_swap_perm(c.windows@, i, if i == 1 { n - 1 } else { i - 1 });
            Lapin::lemma_managed_perm(&a, &*self, cs as int, ck as int);
        }
        let area = self.calculate_layout_coordinates();
        let ps = self.current_layout().reload(&self.screens[cs].workspaces[ck].windows, area);
        push_placements(&mut out, ps);
        assert(out@ =~= configures(self.reload_placements()));
        out
    }

    /// Swaps the focused managed window with the master (or the master with
    /// the first slave) and lays the workspace out again; the focus follows
    /// the window. Nothing happens with fewer than two managed windows or a
    /// floating or no focus.
    pub fn change_master(&mut self) -> (r: Vec<Request>)
        requires
            old(self).wf(),
        ensures
            final(self).wf(),
            old(self).cur_frame(final(self)),
            ({
                let c = old(self).cur();
                match c.focused {
                    Some(i) if !c.ool_focus && c.windows@.len() >= 2 => {
                        let other: int = if i == 0 {
                            1
                        } else {
                            0
                        };
                        &&& final(self).cur().windows@ == c.windows@.update(i as int, c.windows@[other]).update(
                            other,
                            c.windows@[i as int],
                        )
                        &&& final(self).cur().ool_windows == c.ool_windows
                        &&& final(self).cur().focused == Some(other as usize)
                        &&& !final(self).cur().ool_focus
                        &&& r@ == configures(final(self).reload_placements())
                    },
                    _ => *final(self) == *old(self) && r@.len() == 0,
                }
            }),
    {
        let cs = self.current_scr;
        let ck = self.screens[cs].current_wk;
        let mut out: Vec<Request> = Vec::new();
        if self.screens[cs].workspaces[ck].ool_focus || self.screens[cs].workspaces[ck].windows.len() < 2
            || self.screens[cs].workspaces[ck].focused.is_none() {
            return out;
        }
        let ghost a = *self;
        assert(self.ws(cs as int, ck as int).focus_ok());
        self.screens[cs].workspaces[ck].change_master();
        proof {
            assert(a.valid_cell(cs as int, ck as int));
            assert(a.cell(cs as int, ck as int, false).no_duplicates());
            let c = a.cur();
            let i = c.focused->0 as int;
            lemma_swap_perm(c.windows@, i, if i == 0 { 1 } else { 0 });
            Lapin::lemma_managed_perm(&a, &*self, cs as int, ck as int);
        }
        let area = self.calculate_layout_coordinates();
        let ps = self.current_layout().reload(&self.screens[cs].workspaces[ck].windows, area);
        push_placements(&mut out, ps);
        assert(out@ =~= configures(self.reload_placements()));
        out
    }
}

impl Lapin {
    proof fn lemma_wf_parts(a: &Lapin, b: &Lapin)
        requires
            a.wf(),
            a.same_shape(b),
            b.current_scr == a.current_scr,
            b.config.layouts@.len() == a.config.layouts@.len(),
            forall|s: int| 0 <= s < a.screens@.len() ==> #[trigger] b.screens@[s].current_wk == a.screens@[s].current_wk,
            forall|s: int, k: int| b.valid_cell(s, k) ==> (#[trigger] b.ws(s, k)).focus_ok() && b.ws(s, k).layout
                < b.config.layouts@.len(),
            b.unique(),
        ensures
            b.wf(),
    {
        assert forall|s: int| 0 <= s < b.screens@.len() implies (#[trigger] b.screens@[s]).workspaces@.len() >= 1
            && b.screens@[s].current_wk < b.screens@[s].workspaces@.len() by {
            assert(a.screens@[s].workspaces@.len() >= 1);
            assert(b.screens@[s].current_wk == a.screens@[s].current_wk);
        }
    }

    /// Moves the focused window of the current workspace to the front of its
    /// other list (managed to floating or back) and keeps the focus on it.
    /// Going floating it gets the floating border width and loses any
    /// fullscreen marker, and the layout redraws without it; going back the
    /// layout takes it in with the layout's border width.
    pub fn toggle_ool(&mut self) -> (r: Vec<Request>)
        requires
            old(self).wf(),
        ensures
            final(self).wf(),
            old(self).cur_frame(final(self)),
            forall|x: u32| #[trigger] final(self).is_managed(x) <==> old(self).is_managed(x),
            ({
                let c = old(self).cur();
                match c.focused {
                    None => *final(self) == *old(self) && r@.len() == 0,
                    Some(i) => {
                        let o = c.ool_focus;
                        let w = old(self).focused_spec()->0;
                        &&& final(self).cur().ring(o) == c.ring(o).remove(i as int)
                        &&& final(self).cur().ring(!o) == c.ring(!o).insert(0, w)
                        &&& final(self).cur().ool_focus == !o
                        &&& final(self).cur().focused == Some(0usize)
                        &&& final(self).cur().layout == c.layout
                        &&& o ==> r@ == configures(
                            final(self).layout_spec().newwin_spec(final(self).cur().windows@, final(self).usable_area()),
                        ) + seq![Request::BorderWidth(w, final(self).layout_spec().border_width_spec() as u32)]
                        &&& !o ==> r@ == configures(
                            final(self).layout_spec().delwin_spec(final(self).cur().windows@, final(self).usable_area()),
                        ) + seq![
                            Request::BorderWidth(w, old(self).config.border_width),
                            Request::FullscreenState(w, false),
                        ]
                    },
                }
            }),
    {
        let cs = self.current_scr;
        let ck = self.screens[cs].current_wk;
        let mut out: Vec<Request> = Vec::new();
        let i = match self.screens[cs].workspaces[ck].focused {
            Some(i) => i,
            None => {
                return out;
            },
        };
        let o = self.screens[cs].workspaces[ck].ool_focus;
        let ghost a = *self;
        assert(self.ws(cs as int, ck as int).focus_ok());
        let w = self.screens[cs].workspaces[ck].toggle_ool();
        proof {
            let b = *self;
            a.lemma_ws_frame(&b, cs as int, ck as int);
            lemma_move_cell(&a, &b, cs as int, ck as int, o, i as int, cs as int, ck as int, !o);
            a.lemma_ws_frame_wf(&b, cs as int, ck as int);
        }
        let area = self.calculate_layout_coordinates();
        if o {
            let ps = self.current_layout().newwin(&self.screens[cs].workspaces[ck].windows, area);
            push_placements(&mut out, ps);
            let bw = self.current_layout().border_width();
            out.push(Request::BorderWidth(w, bw as u32));
        } else {
            let ps = self.current_layout().delwin(
                &self.screens[cs].workspaces[ck].windows,
                self.screens[cs].workspaces[ck].focused,
                area,
            );
            push_placements(&mut out, ps);
            out.push(Request::BorderWidth(w, self.config.border_width));
            out.push(Request::FullscreenState(w, false));
        }
        out
    }

    /// Sends the focused window of the current workspace to the front of the
    /// same list of workspace `wk` of the current screen, focused there; it is
    /// unmapped, and the current workspace refocuses by the removal policy and
    /// redraws. Nothing happens when `wk` is current, names no workspace, or
    /// nothing is focused.
    pub fn send_window_to_workspace(&mut self, wk: usize) -> (r: Vec<Request>)
        requires
            old(self).wf(),
        ensures
            final(self).wf(),
            forall|x: u32| #[trigger] final(self).is_managed(x) <==> old(self).is_managed(x),
            final(self).current_scr == old(self).current_scr,
            final(self).cur_wk() == old(self).cur_wk(),
            old(self).same_shape(final(self)),
            forall|s: int|
                0 <= s < old(self).screens@.len() ==> #[trigger] final(self).screens@[s].current_wk == old(
                    self,
                ).screens@[s].current_wk,
            wk == old(self).cur_wk() || wk >= old(self).screens@[old(self).current_scr as int].workspaces@.len()
                || old(self).cur().focused is None ==> *final(self) == *old(self) && r@.len() == 0,
            wk != old(self).cur_wk() && wk < old(self).screens@[old(self).current_scr as int].workspaces@.len()
                && old(self).cur().focused is Some ==> ({
                let cs = old(self).current_scr as int;
                let ck = old(self).cur_wk();
                let c = old(self).cur();
                let o = c.ool_focus;
                let i = c.focused->0 as int;
                let w = old(self).focused_spec()->0;
                let p = crate::screens::refocus_spec(
                    final(self).cur().windows@.len() as int,
                    final(self).cur().ool_windows@.len() as int,
                    i,
                    o,
                );
                &&& final(self).cell(cs, ck, o) == c.ring(o).remove(i)
                &&& final(self).cell(cs, wk as int, o) == old(self).cell(cs, wk as int, o).insert(0, w)
                &&& old(self).same_but2(final(self), cs, ck, o, cs, wk as int, o)
                &&& final(self).ws(cs, wk as int).focused == Some(0usize)
                &&& final(self).ws(cs, wk as int).ool_focus == o
                &&& p is None ==> final(self).cur().focused is None
                &&& p matches Some((j, m)) ==> final(self).cur().focused == Some(j as usize)
                    && final(self).cur().ool_focus == m
                &&& r@ == seq![Request::Desktop(w, wk), Request::UnmapWindow(w)] + (match final(self).focused_spec() {
                    Some(g) => focus_requests(g, true, old(self).config.border_color_focus),
                    None => Seq::empty(),
                }) + (if o {
                    Seq::empty()
                } else {
                    configures(
                        final(self).layout_spec().delwin_spec(final(self).cur().windows@, final(self).usable_area()),
                    )
                })
            }),
    {
        let cs = self.current_scr;
        let ck = self.screens[cs].current_wk;
        let mut out: Vec<Request> = Vec::new();
        if wk == ck || wk >= self.screens[cs].workspaces.len() {
            return out;
        }
        let i = match self.screens[cs].workspaces[ck].focused {
            Some(i) => i,
            None => {
                return out;
            },
        };
        let o = self.screens[cs].workspaces[ck].ool_focus;
        let ghost a = *self;
        assert(self.ws(cs as int, ck as int).focus_ok());
        let w = self.screens[cs].workspaces[ck].remove_and_refocus(i, o);
        let ghost m = *self;
        assert(self.ws(cs as int, wk as int) == a.ws(cs as int, wk as int));
        assert(self.ws(cs as int, wk as int).focus_ok());
        self.screens[cs].workspaces[wk].insert_window(w, o);
        self.screens[cs].workspaces[wk].focus_at(0, o);
        proof {
            let b = *self;
            a.lemma_ws_frame(&m, cs as int, ck as int);
            m.lemma_ws_frame(&b, cs as int, wk as int);
            assert forall|s: int, k: int, oo: bool|
                a.valid_cell(s, k) && !(s == cs && k == ck && oo == o) && !(s == cs && k == wk && oo == o)
                implies #[trigger] b.cell(s, k, oo) == a.cell(s, k, oo) by {
                assert(m.valid_cell(s, k));
                assert(b.cell(s, k, oo) == m.cell(s, k, oo));
            }
            assert(a.same_shape(&b)) by {
                assert forall|s: int| 0 <= s < a.screens@.len() implies (#[trigger] a.screens@[s]).workspaces@.len()
                    == b.screens@[s].workspaces@.len() by {
                    assert(m.screens@[s].workspaces@.len() == a.screens@[s].workspaces@.len());
                }
            }
            lemma_move_cell(&a, &b, cs as int, ck as int, o, i as int, cs as int, wk as int, o);
            assert forall|s: int, k: int| b.valid_cell(s, k) implies (#[trigger] b.ws(s, k)).focus_ok() && b.ws(
                s,
                k,
            ).layout < b.config.layouts@.len() by {
                assert(a.valid_cell(s, k));
                assert(a.ws(s, k).focus_ok());
                if s != cs {
                    assert(m.screens@[s] == a.screens@[s]);
                    assert(b.screens@[s] == m.screens@[s]);
                } else if k != ck && k != wk {
                    assert(m.ws(s, k) == a.ws(s, k));
                    assert(b.ws(s, k) == m.ws(s, k));
                } else if k == ck {
                    assert(b.ws(s, k) == m.ws(s, k));
                }
            }
            assert forall|s: int| 0 <= s < a.screens@.len() implies #[trigger] b.screens@[s].current_wk
                == a.screens@[s].current_wk by {
                if s != cs {
                    assert(m.screens@[s] == a.screens@[s]);
                }
            }
            Lapin::lemma_wf_parts(&a, &b);
            assert(b.cur() == m.ws(cs as int, ck as int));
        }
        out.push(Request::Desktop(w, wk));
        out.push(Request::UnmapWindow(w));
        if let Some(g) = self.get_focused_window() {
            self.push_focus(&mut out, g, true);
        }
        if !o {
            let area = self.calculate_layout_coordinates();
            let ps = self.current_layout().delwin(
                &self.screens[cs].workspaces[ck].windows,
                self.screens[cs].workspaces[ck].focused,
                area,
            );
            push_placements(&mut out, ps);
        }
        proof {
            assert(out@ =~= seq![Request::Desktop(w, wk), Request::UnmapWindow(w)] + (match self.focused_spec() {
                Some(g) => focus_requests(g, true, a.config.border_color_focus),
                None => Seq::empty(),
            }) + (if o {
                Seq::empty()
            } else {
                configures(self.layout_spec().delwin_spec(self.cur().windows@, self.usable_area()))
            }));
        }
        out
    }
}

impl Lapin {
    /// The requests of moving the focused window `w` (of list `o`) to
    /// workspace `ok` of screen `os`, from the model after the move: the
    /// source's new focus, `w`'s plain border, then for a floating window its
    /// move to the destination's corner and raise, for a managed one the
    /// source layout's redraw and the destination layout's placements.
    pub open spec fn screen_move_requests(&self, w: u32, o: bool, os: int, ok: int) -> Seq<Request> {
        let dst = self.screens@[os];
        (match self.focused_spec() {
            Some(g) => focus_requests(g, true, self.config.border_color_focus),
            None => Seq::empty(),
        }) + seq![Request::BorderColor(w, self.config.border_color)] + (if o {
            seq![Request::MoveTo(w, dst.x as i32, dst.y as i32), Request::Raise(w)]
        } else {
            configures(self.layout_spec().delwin_spec(self.cur().windows@, self.usable_area())) + configures(
                self.config.layouts@[self.ws(os, ok).layout as int].newwin_spec(
                    self.ws(os, ok).windows@,
                    dst.area_spec(),
                ),
            )
        })
    }

    /// Sends the focused window to the next (or, with `previous`, the former)
    /// screen, wrapping: it goes to the front of the same list of that
    /// screen's displayed workspace, focused there, while the current
    /// workspace refocuses by the removal policy and redraws. A floating
    /// window is moved to the other screen's corner and raised; a managed one
    /// is laid out there. Nothing happens when nothing is focused.
    fn change_window_screen(&mut self, previous: bool) -> (r: Vec<Request>)
        requires
            old(self).wf(),
            old(self).screens@.len() >= 2,
        ensures
            final(self).wf(),
            forall|x: u32| #[trigger] final(self).is_managed(x) <==> old(self).is_managed(x),
            final(self).current_scr == old(self).current_scr,
            final(self).cur_wk() == old(self).cur_wk(),
            old(self).same_shape(final(self)),
            forall|s: int|
                0 <= s < old(self).screens@.len() ==> #[trigger] final(self).screens@[s].current_wk == old(
                    self,
                ).screens@[s].current_wk,
            old(self).cur().focused is None ==> *final(self) == *old(self) && r@.len() == 0,
            old(self).cur().focused is Some ==> ({
                let cs = old(self).current_scr as int;
                let ck = old(self).cur_wk();
                let os = cyclic(cs, old(self).screens@.len() as int, previous);
                let ok = old(self).screens@[os].current_wk as int;
                let c = old(self).cur();
                let o = c.ool_focus;
                let i = c.focused->0 as int;
                let w = old(self).focused_spec()->0;
                let p = crate::screens::refocus_spec(
                    final(self).cur().windows@.len() as int,
                    final(self).cur().ool_windows@.len() as int,
                    i,
                    o,
                );
                &&& final(self).cell(cs, ck, o) == c.ring(o).remove(i)
                &&& final(self).cell(os, ok, o) == old(self).cell(os, ok, o).insert(0, w)
                &&& old(self).same_but2(final(self), cs, ck, o, os, ok, o)
                &&& final(self).ws(os, ok).focused == Some(0usize)
                &&& final(self).ws(os, ok).ool_focus == o
                &&& p is None ==> final(self).cur().focused is None
                &&& p matches Some((j, m)) ==> final(self).cur().focused == Some(j as usize)
                    && final(self).cur().ool_focus == m
                &&& r@ == final(self).screen_move_requests(w, o, os, ok)
            }),
    {
        let cs = self.current_scr;
        let ck = self.screens[cs].current_wk;
        let i = match self.screens[cs].workspaces[ck].focused {
            Some(i) => i,
            None => {
                return Vec::new();
            },
        };
        let os = cyclic_exec(cs, self.screens.len(), previous);
        let ok = self.screens[os].current_wk;
        let o = self.screens[cs].workspaces[ck].ool_focus;
        let w = self.move_to_screen(i, o, os, ok);
        self.screen_move_requests_exec(w, o, os, ok)
    }

    /// Moves window `i` of list `o` of the current workspace to the front of
    /// the same list of workspace `ok` of screen `os` (another screen), and
    /// focuses it there; the current workspace refocuses by the removal
    /// policy. Returns the window.
    fn move_to_screen(&mut self, i: usize, o: bool, os: usize, ok: usize) -> (w: u32)
        requires
            old(self).wf(),
            old(self).cur().focused == Some(i),
            old(self).cur().ool_focus == o,
            os < old(self).screens@.len(),
            os != old(self).current_scr,
            ok == old(self).screens@[os as int].current_wk,
        ensures
            final(self).wf(),
            w == old(self).focused_spec()->0,
            forall|x: u32| #[trigger] final(self).is_managed(x) <==> old(self).is_managed(x),
            final(self).current_scr == old(self).current_scr,
            final(self).config == old(self).config,
            old(self).same_shape(final(self)),
            forall|s: int|
                0 <= s < old(self).screens@.len() ==> #[trigger] final(self).screens@[s].current_wk == old(
                    self,
                ).screens@[s].current_wk,
            forall|s: int|
                0 <= s < old(self).screens@.len() ==> #[trigger] final(self).screens@[s].area_spec() == old(
                    self,
                ).screens@[s].area_spec(),
            final(self).ws(os as int, ok as int).layout == old(self).ws(os as int, ok as int).layout,
            ({
                let cs = old(self).current_scr as int;
                let ck = old(self).cur_wk();
                let p = crate::screens::refocus_spec(
                    final(self).cur().windows@.len() as int,
                    final(self).cur().ool_windows@.len() as int,
                    i as int,
                    o,
                );
                &&& final(self).cell(cs, ck, o) == old(self).cur().ring(o).remove(i as int)
                &&& final(self).cell(os as int, ok as int, o) == old(self).cell(os as int, ok as int, o).insert(0, w)
                &&& old(self).same_but2(final(self), cs, ck, o, os as int, ok as int, o)
                &&& final(self).ws(os as int, ok as int).focused == Some(0usize)
                &&& final(self).ws(os as int, ok as int).ool_focus == o
                &&& p is None ==> final(self).cur().focused is None
                &&& p matches Some((j, m)) ==> final(self).cur().focused == Some(j as usize)
                    && final(self).cur().ool_focus == m
            }),
    {
        let cs = self.current_scr;
        let ck = self.screens[cs].current_wk;
        let ghost a = *self;
        assert(self.ws(cs as int, ck as int).focus_ok());
        let w = self.screens[cs].workspaces[ck].remove_and_refocus(i, o);
        let ghost m = *self;
        assert(self.screens@[os as int] == a.screens@[os as int]);
        assert(self.valid_cell(os as int, ok as int));
        assert(a.ws(os as int, ok as int).focus_ok());
        self.screens[os].workspaces[ok].insert_window(w, o);
        self.screens[os].workspaces[ok].focus_at(0, o);
        proof {
            let b = *self;
            a.lemma_ws_frame(&m, cs as int, ck as int);
            m.lemma_ws_frame(&b, os as int, ok as int);
            assert forall|s: int, k: int, oo: bool|
                a.valid_cell(s, k) && !(s == cs && k == ck && oo == o) && !(s == os && k == ok && oo == o)
                implies #[trigger] b.cell(s, k, oo) == a.cell(s, k, oo) by {
                assert(m.valid_cell(s, k));
                assert(b.cell(s, k, oo) == m.cell(s, k, oo));
            }
            assert(a.same_shape(&b)) by {
                assert forall|s: int| 0 <= s < a.screens@.len() implies (#[trigger] a.screens@[s]).workspaces@.len()
                    == b.screens@[s].workspaces@.len() by {
                    assert(m.screens@[s].workspaces@.len() == a.screens@[s].workspaces@.len());
                }
            }
            lemma_move_cell(&a, &b, cs as int, ck as int, o, i as int, os as int, ok as int, o);
            assert forall|s: int, k: int| b.valid_cell(s, k) implies (#[trigger] b.ws(s, k)).focus_ok() && b.ws(
                s,
                k,
            ).layout < b.config.layouts@.len() by {
                assert(a.valid_cell(s, k));
                assert(a.ws(s, k).focus_ok());
                if s == cs && k == ck {
                    assert(b.ws(s, k) == m.ws(s, k));
                } else if s == os && k == ok {
                } else {
                    if s != cs {
                        assert(m.screens@[s] == a.screens@[s]);
                    } else {
                        assert(m.ws(s, k) == a.ws(s, k));
                    }
                    if s != os {
                        assert(b.screens@[s] == m.screens@[s]);
                    } else {
                        assert(b.ws(s, k) == m.ws(s, k));
                    }
                }
            }
            assert forall|s: int| 0 <= s < a.screens@.len() implies #[trigger] b.screens@[s].current_wk
                == a.screens@[s].current_wk by {
                if s != cs {
                    assert(m.screens@[s] == a.screens@[s]);
                }
            }
            Lapin::lemma_wf_parts(&a, &b);
            assert(b.cur() == m.ws(cs as int, ck as int));
        }
        proof {
            let b = *self;
            assert forall|s: int| 0 <= s < a.screens@.len() implies #[trigger] b.screens@[s].area_spec()
                == a.screens@[s].area_spec() by {
                if s != cs {
                    assert(m.screens@[s] == a.screens@[s]);
                }
            }
        }
        w
    }

    /// The requests of a move to another screen, built from the model after
    /// it.
    fn screen_move_requests_exec(&self, w: u32, o: bool, os: usize, ok: usize) -> (r: Vec<Request>)
        requires
            self.wf(),
            self.valid_cell(os as int, ok as int),
        ensures
            r@ == self.screen_move_requests(w, o, os as int, ok as int),
    {
        let cs = self.current_scr;
        let ck = self.screens[cs].current_wk;
        let mut out: Vec<Request> = Vec::new();
        if let Some(g) = self.get_focused_window() {
            self.push_focus(&mut out, g, true);
        }
        out.push(Request::BorderColor(w, self.config.border_color));
        if o {
            out.push(Request::MoveTo(w, self.screens[os].x as i32, self.screens[os].y as i32));
            out.push(Request::Raise(w));
        } else {
            let area = self.calculate_layout_coordinates();
            let ps = self.current_layout().delwin(
                &self.screens[cs].workspaces[ck].windows,
                self.screens[cs].workspaces[ck].focused,
                area,
            );
            push_placements(&mut out, ps);
            assert(self.ws(os as int, ok as int).layout < self.config.layouts@.len());
            let layout = self.screens[os].workspaces[ok].layout;
            let area = self.screens[os].area();
            let ps = self.config.layouts[layout].newwin(&self.screens[os].workspaces[ok].windows, area);
            push_placements(&mut out, ps);
        }
        assert(out@ =~= self.screen_move_requests(w, o, os as int, ok as int));
        out
    }

    /// Sends the focused window to the next screen, when there are two or
    /// more.
    pub fn send_window_to_next_screen(&mut self) -> (r: Vec<Request>)
        requires
            old(self).wf(),
        ensures
            final(self).wf(),
            forall|x: u32| #[trigger] final(self).is_managed(x) <==> old(self).is_managed(x),
            final(self).current_scr == old(self).current_scr,
            final(self).cur_wk() == old(self).cur_wk(),
            old(self).same_shape(final(self)),
            forall|s: int|
                0 <= s < old(self).screens@.len() ==> #[trigger] final(self).screens@[s].current_wk == old(
                    self,
                ).screens@[s].current_wk,
            old(self).screens@.len() < 2 || old(self).cur().focused is None ==> *final(self) == *old(self)
                && r@.len() == 0,
            old(self).screens@.len() >= 2 && old(self).cur().focused is Some ==> ({
                let cs = old(self).current_scr as int;
                let ck = old(self).cur_wk();
                let os = cyclic(cs, old(self).screens@.len() as int, false);
                let ok = old(self).screens@[os].current_wk as int;
                let c = old(self).cur();
                let o = c.ool_focus;
                let i = c.focused->0 as int;
                let w = old(self).focused_spec()->0;
                let p = crate::screens::refocus_spec(
                    final(self).cur().windows@.len() as int,
                    final(self).cur().ool_windows@.len() as int,
                    i,
                    o,
                );
                &&& final(self).cell(cs, ck, o) == c.ring(o).remove(i)
                &&& final(self).cell(os, ok, o) == old(self).cell(os, ok, o).insert(0, w)
                &&& old(self).same_but2(final(self), cs, ck, o, os, ok, o)
                &&& final(self).ws(os, ok).focused == Some(0usize)
                &&& final(self).ws(os, ok).ool_focus == o
                &&& p is None ==> final(self).cur().focused is None
                &&& p matches Some((j, m)) ==> final(self).cur().focused == Some(j as usize)
                    && final(self).cur().ool_focus == m
                &&& r@ == final(self).screen_move_requests(w, o, os, ok)
            }),
    {
        if self.screens.len() >= 2 {
            self.change_window_screen(false)
        } else {
            Vec::new()
        }
    }

    /// Sends the focused window to the previous screen, when there are two
    /// or more.
    pub fn send_window_to_prev_screen(&mut self) -> (r: Vec<Request>)
        requires
            old(self).wf(),
        ensures
            final(self).wf(),
            forall|x: u32| #[trigger] final(self).is_managed(x) <==> old(self).is_managed(x),
            final(self).current_scr == old(self).current_scr,
            final(self).cur_wk() == old(self).cur_wk(),
            old(self).same_shape(final(self)),
            forall|s: int|
                0 <= s < old(self).screens@.len() ==> #[trigger] final(self).screens@[s].current_wk == old(
                    self,
                ).screens@[s].current_wk,
            old(self).screens@.len() < 2 || old(self).cur().focused is None ==> *final(self) == *old(self)
                && r@.len() == 0,
            old(self).screens@.len() >= 2 && old(self).cur().focused is Some ==> ({
                let cs = old(self).current_scr as int;
                let ck = old(self).cur_wk();
                let os = cyclic(cs, old(self).screens@.len() as int, true);
                let ok = old(self).screens@[os].current_wk as int;
                let c = old(self).cur();
                let o = c.ool_focus;
                let i = c.focused->0 as int;
                let w = old(self).focused_spec()->0;
                let p = crate::screens::refocus_spec(
                    final(self).cur().windows@.len() as int,
                    final(self).cur().ool_windows@.len() as int,
                    i,
                    o,
                );
                &&& final(self).cell(cs, ck, o) == c.ring(o).remove(i)
                &&& final(self).cell(os, ok, o) == old(self).cell(os, ok, o).insert(0, w)
                &&& old(self).same_but2(final(self), cs, ck, o, os, ok, o)
                &&& final(self).ws(os, ok).focused == Some(0usize)
                &&& final(self).ws(os, ok).ool_focus == o
                &&& p is None ==> final(self).cur().focused is None
                &&& p matches Some((j, m)) ==> final(self).cur().focused == Some(j as usize)
                    && final(self).cur().ool_focus == m
                &&& r@ == final(self).screen_move_requests(w, o, os, ok)
            }),
    {
        if self.screens.len() >= 2 {
            self.change_window_screen(true)
        } else {
            Vec::new()
        }
    }

    /// Makes the focused window fullscreen: it goes floating (if it was not)
    /// and gets exactly the current screen's area, no border, the top of the
    /// stack and the fullscreen marker.
    pub fn fullscreen(&mut self) -> (r: Vec<Request>)
        requires
            old(self).wf(),
        ensures
            final(self).wf(),
            forall|x: u32| #[trigger] final(self).is_managed(x) <==> old(self).is_managed(x),
            old(self).focused_spec() is None ==> *final(self) == *old(self) && r@.len() == 0,
            old(self).focused_spec() matches Some(w) ==> {
                let sc = old(self).screens@[old(self).current_scr as int];
                &&& final(self).focused_spec() == Some(w)
                &&& final(self).cur().ool_focus
                &&& final(self).current_scr == old(self).current_scr
                &&& final(self).cur_wk() == old(self).cur_wk()
                &&& r@.len() >= 4
                &&& r@.subrange(r@.len() - 4, r@.len() as int) == seq![
                    Request::Configure(
                        Placement {
                            window: w,
                            rect: Rect { x: sc.x as i32, y: sc.y as i32, width: sc.width as u32, height: sc.height as u32 },
                        },
                    ),
                    Request::BorderWidth(w, 0),
                    Request::Raise(w),
                    Request::FullscreenState(w, true),
                ]
            },
    {
        let w = match self.get_focused_window() {
            Some(w) => w,
            None => {
                return Vec::new();
            },
        };
        let mut out: Vec<Request> = Vec::new();
        let cs = self.current_scr;
        let ck = self.screens[cs].current_wk;
        if !self.screens[cs].workspaces[ck].ool_focus {
            out = self.toggle_ool();
            proof {
                assert(self.cur().ring(true)[0] == w);
            }
        }
        let sc = &self.screens[cs];
        out.push(
            Request::Configure(
                Placement {
                    window: w,
                    rect: Rect { x: sc.x as i32, y: sc.y as i32, width: sc.width as u32, height: sc.height as u32 },
                },
            ),
        );
        out.push(Request::BorderWidth(w, 0));
        out.push(Request::Raise(w));
        out.push(Request::FullscreenState(w, true));
        proof {
            let sc = self.screens@[cs as int];
            assert(out@.subrange(out@.len() - 4, out@.len() as int) =~= seq![
                Request::Configure(
                    Placement {
                        window: w,
                        rect: Rect { x: sc.x as i32, y: sc.y as i32, width: sc.width as u32, height: sc.height as u32 },
                    },
                ),
                Request::BorderWidth(w, 0),
                Request::Raise(w),
                Request::FullscreenState(w, true),
            ]);
        }
        out
    }
}

/// Milliseconds during which a pointer focus change and a window creation or
/// destruction are held apart.
pub const DEBOUNCE_MS: u64 = 100;

/// Key state bit of the primary mouse button.
pub const BUTTON1: u32 = 256;

/// Key state bit of the secondary mouse button.
pub const BUTTON3: u32 = 1024;

/// An event from the display server, with what the server was asked about
/// it beforehand.
#[derive(Debug)]
pub enum Event {
    /// A window asks to be mapped; its override-redirect attribute and its
    /// class (when they could be read) come along.
    MapRequest { window: u32, override_redirect: bool, class: Option<(String, String)> },
    DestroyNotify(u32),
    EnterNotify(u32),
    KeyPress { keycode: u8, state: u32 },
    /// A mouse button was pressed over `child`, whose position is
    /// `geometry` when it could be read.
    ButtonPress { child: u32, root_x: i16, root_y: i16, geometry: Option<(i16, i16)> },
    ButtonRelease,
    MotionNotify { state: u32, root_x: i16, root_y: i16 },
    /// A client asked to toggle its fullscreen state; `is_fullscreen` says
    /// whether its state list holds the fullscreen marker.
    FullscreenToggle { window: u32, is_fullscreen: bool },
}

/// The bytes of the workspace names, each followed by a NUL.
pub open spec fn names_bytes(names: Seq<&str>) -> Seq<u8>
    decreases names.len(),
{
    if names.len() == 0 {
        Seq::empty()
    } else {
        names_bytes(names.drop_last()) + names.last().spec_bytes() + seq![0u8]
    }
}

/// The workspace names as published to clients: each name's bytes followed
/// by a NUL.
pub fn desktop_names(names: &Vec<&str>) -> (r: Vec<u8>)
    ensures
        r@ == names_bytes(names@),
{
    let mut out: Vec<u8> = Vec::new();
    let mut i: usize = 0;
    while i < names.len()
        invariant
            0 <= i <= names@.len(),
            out@ == names_bytes(names@.subrange(0, i as int)),
        decreases names@.len() - i,
    {
        let bytes = names[i].as_bytes();
        let ghost base = out@;
        let mut j: usize = 0;
        while j < bytes.len()
            invariant
                0 <= j <= bytes@.len(),
                out@ == base + bytes@.subrange(0, j as int),
            decreases bytes@.len() - j,
        {
            out.push(bytes[j]);
            j = j + 1;
            proof {
                assert(out@ =~= base + bytes@.subrange(0, j as int));
            }
        }
        out.push(0);
        i = i + 1;
        proof {
            let sub = names@.subrange(0, i as int);
            assert(sub.drop_last() =~= names@.subrange(0, i - 1));
            assert(bytes@.subrange(0, bytes@.len() as int) =~= bytes@);
            assert(out@ =~= names_bytes(sub));
        }
    }
    assert(names@.subrange(0, names@.len() as int) =~= names@);
    out
}

impl Lapin {
    /// A window manager over the given monitors (their `(width, height, x,
    /// y)`), each with one empty workspace per configured name, the first
    /// screen and workspaces current. `None` when there is no monitor, no
    /// workspace name or no layout.
    pub fn new(config: Config, keybinds: KeybindSet, monitors: &Vec<Area>) -> (r: Option<Lapin>)
        ensures
            r is None <==> (monitors@.len() == 0 || config.workspaces@.len() == 0 || config.layouts@.len() == 0),
            r matches Some(l) ==> {
                &&& l.wf()
                &&& l.config == config
                &&& l.screens@.len() == monitors@.len()
                &&& l.current_scr == 0
                &&& l.drag is None
                &&& forall|x: u32| !l.is_managed(x)
                &&& forall|s: int|
                    0 <= s < monitors@.len() ==> (#[trigger] l.screens@[s]).area_spec() == monitors@[s]
                        && l.screens@[s].workspaces@.len() == config.workspaces@.len()
                        && l.screens@[s].current_wk == 0
            },
    {
        if monitors.len() == 0 || config.workspaces.len() == 0 || config.layouts.len() == 0 {
            return None;
        }
        let mut screens: Vec<Screen> = Vec::new();
        let mut i: usize = 0;
        while i < monitors.len()
            invariant
                0 <= i <= monitors@.len(),
                screens@.len() == i,
                config.workspaces@.len() > 0,
                forall|s: int|
                    0 <= s < i ==> {
                        let sc = #[trigger] screens@[s];
                        &&& sc.area_spec() == monitors@[s]
                        &&& sc.workspaces@.len() == config.workspaces@.len()
                        &&& sc.current_wk == 0
                        &&& forall|k: int|
                            0 <= k < sc.workspaces@.len() ==> (#[trigger] sc.workspaces@[k]).windows@.len() == 0
                                && sc.workspaces@[k].ool_windows@.len() == 0 && sc.workspaces@[k].focused is None
                                && sc.workspaces@[k].layout == 0
                    },
            decreases monitors@.len() - i,
        {
            let m = monitors[i];
            screens.push(Screen::new(&config.workspaces, m.width, m.height, m.x, m.y));
            i = i + 1;
        }
        let l = Lapin {
            config,
            keybinds,
            screens,
            current_scr: 0,
            drag: None,
            last_map: 0,
            last_mouse_change_focus: 0,
        };
        proof {
            assert forall|s: int, k: int| l.valid_cell(s, k) implies (#[trigger] l.ws(s, k)).focus_ok() && l.ws(
                s,
                k,
            ).layout < l.config.layouts@.len() by {
                assert(l.screens@[s].workspaces@[k].windows@.len() == 0);
            }
            assert forall|s: int, k: int, o: bool| l.valid_cell(s, k) implies #[trigger] l.cell(s, k, o).no_duplicates() by {
                assert(l.screens@[s].workspaces@[k].windows@.len() == 0);
            }
            assert forall|x: u32| !l.is_managed(x) by {
                if l.is_managed(x) {
                    let (s, k, o) = choose|s: int, k: int, o: bool| #[trigger] l.holds(s, k, o, x);
                    assert(l.screens@[s].workspaces@[k].windows@.len() == 0);
                }
            }
        }
        Some(l)
    }

    /// Starts a mouse drag of `child` when the active layout allows motions
    /// or the focus is floating and the window's position could be read.
    fn init_mouse_action(&mut self, child: u32, root_x: i16, root_y: i16, geometry: Option<(i16, i16)>)
        requires
            old(self).wf(),
        ensures
            final(self).wf(),
            final(self).screens == old(self).screens,
            final(self).current_scr == old(self).current_scr,
            final(self).last_map == old(self).last_map,
            final(self).last_mouse_change_focus == old(self).last_mouse_change_focus,
            (old(self).layout_spec() is Floating || old(self).cur().ool_focus) ==> final(self).drag == match geometry {
                Some((x, y)) => Some(
                    Drag {
                        diff_x: (root_x - x) as i32,
                        diff_y: (root_y - y) as i32,
                        pos_x: x as i32,
                        pos_y: y as i32,
                        window: child,
                    },
                ),
                None => None::<Drag>,
            },
            !(old(self).layout_spec() is Floating || old(self).cur().ool_focus) ==> final(self).drag == old(self).drag,
    {
        let cs = self.current_scr;
        let ck = self.screens[cs].current_wk;
        let ghost a = *self;
        if self.current_layout().allow_motions() || self.screens[cs].workspaces[ck].ool_focus {
            self.drag = match geometry {
                Some((x, y)) => Some(
                    Drag {
                        diff_x: root_x as i32 - x as i32,
                        diff_y: root_y as i32 - y as i32,
                        pos_x: x as i32,
                        pos_y: y as i32,
                        window: child,
                    },
                ),
                None => None,
            };
            proof {
                Lapin::lemma_wf_same_model(&a, &*self);
            }
        }
    }

    proof fn lemma_wf_same_model(a: &Lapin, b: &Lapin)
        requires
            a.wf(),
            b.screens == a.screens,
            b.current_scr == a.current_scr,
            b.config.layouts@.len() == a.config.layouts@.len(),
        ensures
            b.wf(),
    {
        assert(a.cells_same(b));
        Lapin::lemma_cells_same(a, b);
        assert forall|s: int, k: int| b.valid_cell(s, k) implies (#[trigger] b.ws(s, k)).focus_ok() && b.ws(
            s,
            k,
        ).layout < b.config.layouts@.len() by {
            assert(a.valid_cell(s, k));
            assert(a.ws(s, k).focus_ok());
        }
        assert forall|s: int| 0 <= s < b.screens@.len() implies (#[trigger] b.screens@[s]).workspaces@.len()
            >= 1 && b.screens@[s].current_wk < b.screens@[s].workspaces@.len() by {
            assert(a.screens@[s].workspaces@.len() >= 1);
        }
    }

    /// The requests of a pointer motion to `(root_x, root_y)` with key
    /// state `state` during the drag `d`.
    pub open spec fn motion_requests(&self, d: Drag, state: u32, root_x: i16, root_y: i16) -> Seq<Request> {
        if state & BUTTON1 != 0 {
            seq![
                Request::MoveTo(
                    d.window,
                    clamp_to_i32(root_x - d.diff_x) as i32,
                    clamp_to_i32(root_y - d.diff_y) as i32,
                ),
                Request::BorderWidth(d.window, self.config.border_width),
            ]
        } else if state & BUTTON3 != 0 {
            seq![
                Request::Resize(
                    d.window,
                    crate::layouts::sat(clamp_to_i32(root_x - d.pos_x)) as u32,
                    crate::layouts::sat(clamp_to_i32(root_y - d.pos_y)) as u32,
                ),
            ]
        } else {
            Seq::empty()
        }
    }

    /// The requests of a pointer motion during a drag: with the primary
    /// button held the window follows the pointer, with the secondary one it
    /// is resized to reach it.
    pub fn handle_motion(&self, d: Drag, state: u32, root_x: i16, root_y: i16) -> (r: Vec<Request>)
        ensures
            r@ == self.motion_requests(d, state, root_x, root_y),
    {
        let mut out: Vec<Request> = Vec::new();
        if state & BUTTON1 != 0 {
            out.push(Request::MoveTo(d.window, sub_clamped(root_x, d.diff_x), sub_clamped(root_y, d.diff_y)));
            out.push(Request::BorderWidth(d.window, self.config.border_width));
        } else if state & BUTTON3 != 0 {
            let w = sub_clamped(root_x, d.pos_x);
            let h = sub_clamped(root_y, d.pos_y);
            out.push(Request::Resize(d.window, if w > 0 { w as u32 } else { 0 }, if h > 0 { h as u32 } else { 0 }));
        }
        assert(out@ =~= self.motion_requests(d, state, root_x, root_y));
        out
    }
}

/// `v`, held within the `i32` range.
pub open spec fn clamp_to_i32(v: int) -> int {
    if v > i32::MAX {
        i32::MAX as int
    } else if v < i32::MIN {
        i32::MIN as int
    } else {
        v
    }
}

/// `a - b`, held within the `i32` range.
fn sub_clamped(a: i16, b: i32) -> (r: i32)
    ensures
        r == clamp_to_i32(a - b),
{
    let v: i64 = a as i64 - b as i64;
    if v > i32::MAX as i64 {
        i32::MAX
    } else if v < i32::MIN as i64 {
        i32::MIN
    } else {
        v as i32
    }
}

/// Milliseconds from `last` to `now`; none when the clock went back.
pub open spec fn elapsed(now: u64, last: u64) -> int {
    if now >= last {
        now - last
    } else {
        0
    }
}


impl Lapin {
    /// What running command `cmd` does, from the model before (`self`) to
    /// the model after (`fin`), with the requests `r` it returns.
    pub open spec fn command_effect(&self, fin: &Lapin, cmd: Command, r: Seq<Request>) -> bool {
        let cs = self.current_scr as int;
        let ck = self.cur_wk();
        let c = self.cur();
        let nw = self.screens@[cs].workspaces@.len();
        let unchanged = *fin == *self && r.len() == 0;
        match cmd {
            Command::GotoWorkspace(k) => if k != ck && k < nw {
                &&& fin.cur_wk() == k
                &&& fin.current_scr == self.current_scr
                &&& self.cells_same(fin)
                &&& fin.drag is None
            } else {
                unchanged
            },
            Command::SendWindowToWorkspace(k) => if k != ck && k < nw && c.focused is Some {
                let o = c.ool_focus;
                let w = self.focused_spec()->0;
                &&& fin.cell(cs, ck, o) == c.ring(o).remove(c.focused->0 as int)
                &&& fin.cell(cs, k as int, o) == self.cell(cs, k as int, o).insert(0, w)
                &&& self.same_but2(fin, cs, ck, o, cs, k as int, o)
                &&& fin.ws(cs, k as int).focused == Some(0usize)
                &&& fin.ws(cs, k as int).ool_focus == o
            } else {
                unchanged
            },
            Command::KillFocused => *fin == *self && r == (match self.focused_spec() {
                Some(f) => seq![Request::Kill(f)],
                None => Seq::empty(),
            }),
            Command::NextWin | Command::PrevWin => {
                &&& self.cells_same(fin)
                &&& c.focused is Some && c.windows@.len() + c.ool_windows@.len() > 1 ==> {
                    let p = crate::screens::cycle_step(
                        c.windows@.len() as int,
                        c.ool_windows@.len() as int,
                        c.ool_focus,
                        c.focused->0 as int,
                        cmd is PrevWin,
                    );
                    fin.cur().focused == Some(p.1 as usize) && fin.cur().ool_focus == p.0
                }
            },
            Command::NextLayout | Command::PrevLayout => {
                &&& self.cells_same(fin)
                &&& fin.cur().layout == cyclic(c.layout as int, self.config.layouts@.len() as int, cmd is PrevLayout)
                &&& fin.drag is None
            },
            Command::RotateWindowsUp => match c.focused {
                Some(i) if !c.ool_focus => {
                    &&& fin.cur().windows@ == c.windows@.drop_first().push(c.windows@[0])
                    &&& fin.cur().ool_windows == c.ool_windows
                    &&& fin.cur().focused == Some(
                        if i == 0 {
                            (c.windows@.len() - 1) as usize
                        } else {
                            (i - 1) as usize
                        },
                    )
                },
                _ => unchanged,
            },
            Command::RotateWindowsDown => match c.focused {
                Some(i) if !c.ool_focus => {
                    let n = c.windows@.len() as int;
                    &&& fin.cur().windows@ == c.windows@.drop_last().insert(0, c.windows@[n - 1])
                    &&& fin.cur().ool_windows == c.ool_windows
                    &&& fin.cur().focused == Some(
                        if i == n - 1 {
                            0usize
                        } else {
                            (i + 1) as usize
                        },
                    )
                },
                _ => unchanged,
            },
            Command::SwapWithNextSlave => match c.focused {
                Some(i) if !c.ool_focus && i > 0 => {
                    let n = c.windows@.len() as int;
                    let nx = if i == n - 1 {
                        1
                    } else {
                        i + 1
                    };
                    &&& fin.cur().windows@ == c.windows@.update(i as int, c.windows@[nx]).update(nx, c.windows@[i as int])
                    &&& fin.cur().focused == Some(nx as usize)
                },
                _ => unchanged,
            },
            Command::SwapWithPrevSlave => match c.focused {
                Some(i) if !c.ool_focus && i > 0 => {
                    let n = c.windows@.len() as int;
                    let pv = if i == 1 {
                        n - 1
                    } else {
                        i - 1
                    };
                    &&& fin.cur().windows@ == c.windows@.update(i as int, c.windows@[pv]).update(pv, c.windows@[i as int])
                    &&& fin.cur().focused == Some(pv as usize)
                },
                _ => unchanged,
            },
            Command::ChangeMaster => match c.focused {
                Some(i) if !c.ool_focus && c.windows@.len() >= 2 => {
                    let other: int = if i == 0 {
                        1
                    } else {
                        0
                    };
                    &&& fin.cur().windows@ == c.windows@.update(i as int, c.windows@[other]).update(
                        other,
                        c.windows@[i as int],
                    )
                    &&& fin.cur().focused == Some(other as usize)
                },
                _ => unchanged,
            },
            Command::ToggleReservedSpace => {
                &&& self.cells_same(fin)
                &&& fin.cur().respect_reserved_space == !c.respect_reserved_space
                &&& r == configures(fin.reload_placements())
            },
            Command::ToggleOol => match c.focused {
                None => unchanged,
                Some(i) => {
                    let o = c.ool_focus;
                    &&& fin.cur().ring(o) == c.ring(o).remove(i as int)
                    &&& fin.cur().ring(!o) == c.ring(!o).insert(0, self.focused_spec()->0)
                    &&& fin.cur().ool_focus == !o
                    &&& fin.cur().focused == Some(0usize)
                },
            },
            Command::Fullscreen => match self.focused_spec() {
                None => unchanged,
                Some(w) => fin.focused_spec() == Some(w) && fin.cur().ool_focus,
            },
            Command::NextScreen | Command::PrevScreen => {
                &&& fin.screens == self.screens
                &&& fin.current_scr == cyclic(cs, self.screens@.len() as int, cmd is PrevScreen)
            },
            Command::SendWindowToNextScreen | Command::SendWindowToPrevScreen => if self.screens@.len() >= 2
                && c.focused is Some {
                let os = cyclic(cs, self.screens@.len() as int, cmd is SendWindowToPrevScreen);
                let ok = self.screens@[os].current_wk as int;
                let o = c.ool_focus;
                let w = self.focused_spec()->0;
                &&& fin.cell(cs, ck, o) == c.ring(o).remove(c.focused->0 as int)
                &&& fin.cell(os, ok, o) == self.cell(os, ok, o).insert(0, w)
                &&& self.same_but2(fin, cs, ck, o, os, ok, o)
                &&& fin.ws(os, ok).focused == Some(0usize)
                &&& r == fin.screen_move_requests(w, o, os, ok)
            } else {
                unchanged
            },
            Command::Spawn(p) => *fin == *self && r.len() == 1 && (r[0] matches Request::Spawn(q) && q@ == p@),
            Command::Quit => *fin == *self && r == seq![Request::Quit],
        }
    }
}

impl Lapin {
    /// Runs a keybind command. Starting a program and quitting are handed to
    /// the caller as requests; the others act on the model.
    pub fn run_command(&mut self, cmd: &Command) -> (r: Vec<Request>)
        requires
            old(self).wf(),
        ensures
            final(self).wf(),
            old(self).command_effect(final(self), *cmd, r@),
    {
        let ghost a = *self;
        let r = match cmd {
            Command::GotoWorkspace(k) => self.goto_workspace(*k),
            Command::SendWindowToWorkspace(k) => self.send_window_to_workspace(*k),
            Command::KillFocused => self.killfocused(),
            Command::NextWin => self.nextwin(),
            Command::PrevWin => self.prevwin(),
            Command::NextLayout => self.next_layout(),
            Command::PrevLayout => self.prev_layout(),
            Command::RotateWindowsUp => self.rotate_windows_up(),
            Command::RotateWindowsDown => self.rotate_windows_down(),
            Command::SwapWithNextSlave => self.swap_with_next_slave(),
            Command::SwapWithPrevSlave => self.swap_with_prev_slave(),
            Command::ChangeMaster => self.change_master(),
            Command::ToggleReservedSpace => self.toggle_reserved_space(),
            Command::ToggleOol => self.toggle_ool(),
            Command::Fullscreen => self.fullscreen(),
            Command::NextScreen => self.next_screen(),
            Command::PrevScreen => self.prev_screen(),
            Command::SendWindowToNextScreen => self.send_window_to_next_screen(),
            Command::SendWindowToPrevScreen => self.send_window_to_prev_screen(),
            Command::Spawn(p) => {
                let mut out: Vec<Request> = Vec::new();
                out.push(Request::Spawn(p.clone()));
                out
            },
            Command::Quit => {
                let mut out: Vec<Request> = Vec::new();
                out.push(Request::Quit);
                out
            },
        };
        r
    }

    /// Handles one event at time `now` (in milliseconds): the state machine
    /// of the event loop. A window creation manages the window and a
    /// destruction unmanages it (the focus is resolved again only when no
    /// pointer focus change came within the debounce time); the pointer
    /// entering a window focuses it unless a window came or went within that
    /// time; a key press runs its bound command; a button press starts a drag
    /// where motions are allowed, a release ends it, and motions move or
    /// resize the dragged window; a fullscreen toggle request focuses the
    /// window and toggles its fullscreen state.
    pub fn handle_event(&mut self, ev: Event, now: u64) -> (r: Vec<Request>)
        requires
            old(self).wf(),
        ensures
            final(self).wf(),
            ev matches Event::MapRequest { window, override_redirect, class } ==> {
                &&& final(self).last_map == now
                &&& !override_redirect ==> final(self).is_managed(window)
                &&& old(self).is_managed(window) ==> r@.len() == 0
            },
            ev matches Event::DestroyNotify(w) ==> final(self).last_map == now && !final(self).is_managed(w),
            ev matches Event::EnterNotify(w) ==> {
                &&& elapsed(now, old(self).last_map) > DEBOUNCE_MS ==> final(self).last_mouse_change_focus == now
                    && (old(self).shown(w) ==> final(self).focused_spec() == Some(w))
                &&& elapsed(now, old(self).last_map) <= DEBOUNCE_MS ==> *final(self) == *old(self) && r@.len() == 0
            },
            ev is ButtonRelease ==> final(self).drag is None && r@.len() == 0,
            ev matches Event::KeyPress { keycode, state } ==> (crate::keys::lookup(
                old(self).keybinds.bindings@,
                crate::keys::match_butmask_with_modmask_spec(state),
                keycode,
            ) is None ==> *final(self) == *old(self) && r@.len() == 0),
            ev matches Event::KeyPress { keycode, state } ==> (crate::keys::lookup(
                old(self).keybinds.bindings@,
                crate::keys::match_butmask_with_modmask_spec(state),
                keycode,
            ) matches Some(c) ==> old(self).command_effect(final(self), c, r@)),
            ev matches Event::DestroyNotify(w) ==> forall|s: int, k: int, o: bool, i: int|
                old(self).valid_cell(s, k) && 0 <= i < old(self).cell(s, k, o).len() && #[trigger] old(self).cell(
                    s,
                    k,
                    o,
                )[i] == w ==> {
                    let resolve = elapsed(now, old(self).last_mouse_change_focus) > DEBOUNCE_MS;
                    let p = crate::screens::refocus_spec(
                        final(self).ws(s, k).windows@.len() as int,
                        final(self).ws(s, k).ool_windows@.len() as int,
                        i,
                        o,
                    );
                    &&& final(self).cell(s, k, o) == old(self).cell(s, k, o).remove(i)
                    &&& resolve ==> (p is None ==> final(self).ws(s, k).focused is None) && (p matches Some((j, m))
                        ==> final(self).ws(s, k).focused == Some(j as usize) && final(self).ws(s, k).ool_focus == m)
                    &&& !resolve && old(self).ws(s, k).focused_window_spec() != Some(w) ==> final(self).ws(
                        s,
                        k,
                    ).focused_window_spec() == old(self).ws(s, k).focused_window_spec()
                    &&& r@.drop_first() == final(self).unmanage_tail(s, k, o, resolve)
                },
            ev matches Event::ButtonPress { child, root_x, root_y, geometry } ==> {
                &&& r@.len() == 0
                &&& final(self).screens == old(self).screens
                &&& (old(self).layout_spec() is Floating || old(self).cur().ool_focus) ==> final(self).drag
                    == match geometry {
                    Some((x, y)) => Some(
                        Drag {
                            diff_x: (root_x - x) as i32,
                            diff_y: (root_y - y) as i32,
                            pos_x: x as i32,
                            pos_y: y as i32,
                            window: child,
                        },
                    ),
                    None => None::<Drag>,
                }
                &&& !(old(self).layout_spec() is Floating || old(self).cur().ool_focus) ==> final(self).drag
                    == old(self).drag
            },
            ev matches Event::FullscreenToggle { window, is_fullscreen } ==> (old(self).shown(window) ==> {
                &&& final(self).focused_spec() == Some(window)
                &&& final(self).cur().ool_focus == !is_fullscreen
                &&& r@.last() == Request::FullscreenState(window, !is_fullscreen)
            }),
            ev matches Event::MotionNotify { state, root_x, root_y } ==> {
                &&& final(self).drag == old(self).drag
                &&& old(self).drag is None ==> r@.len() == 0
                &&& (old(self).layout_spec() is Floating || old(self).cur().ool_focus) ==> (old(self).drag matches Some(
                    d,
                ) ==> r@ == old(self).motion_requests(d, state, root_x, root_y))
                &&& !(old(self).layout_spec() is Floating || old(self).cur().ool_focus) ==> r@.len() == 0
            },
    {
        match ev {
            Event::MapRequest { window, override_redirect, class } => {
                let r = self.manage_window(window, override_redirect, &class);
                let ghost a = *self;
                self.last_map = now;
                proof {
                    Lapin::lemma_wf_same_model(&a, &*self);
                    Lapin::lemma_cells_same(&a, &*self);
                }
                r
            },
            Event::DestroyNotify(w) => {
                let resolve = now >= self.last_mouse_change_focus && now - self.last_mouse_change_focus > DEBOUNCE_MS;
                let r = self.unmanage_window(w, resolve);
                let ghost a = *self;
                self.last_map = now;
                proof {
                    Lapin::lemma_wf_same_model(&a, &*self);
                    Lapin::lemma_cells_same(&a, &*self);
                }
                r
            },
            Event::EnterNotify(w) => {
                if now >= self.last_map && now - self.last_map > DEBOUNCE_MS {
                    let raise = self.config.mouse_raises_window;
                    let r = self.toggle_focus(w, raise);
                    let ghost a = *self;
                    self.last_mouse_change_focus = now;
                    proof {
                        Lapin::lemma_wf_same_model(&a, &*self);
                    }
                    r
                } else {
                    Vec::new()
                }
            },
            Event::KeyPress { keycode, state } => {
                let cmd = match self.keybinds.get_callback(keycode, state) {
                    Some(c) => Some(c.duplicate()),
                    None => None,
                };
                match cmd {
                    Some(c) => self.run_command(&c),
                    None => Vec::new(),
                }
            },
            Event::ButtonPress { child, root_x, root_y, geometry } => {
                self.init_mouse_action(child, root_x, root_y, geometry);
                Vec::new()
            },
            Event::ButtonRelease => {
                let ghost a = *self;
                self.drag = None;
                proof {
                    Lapin::lemma_wf_same_model(&a, &*self);
                }
                Vec::new()
            },
            Event::MotionNotify { state, root_x, root_y } => {
                let cs = self.current_scr;
                let ck = self.screens[cs].current_wk;
                if self.current_layout().allow_motions() || self.screens[cs].workspaces[ck].ool_focus {
                    match self.drag {
                        Some(d) => self.handle_motion(d, state, root_x, root_y),
                        None => Vec::new(),
                    }
                } else {
                    Vec::new()
                }
            },
            Event::FullscreenToggle { window, is_fullscreen } => {
                let mut out = self.toggle_focus(window, true);
                if self.get_focused_window() == Some(window) {
                    if is_fullscreen {
                        let cs = self.current_scr;
                        let ck = self.screens[cs].current_wk;
                        if self.screens[cs].workspaces[ck].ool_focus {
                            let mut more = self.toggle_ool();
                            out.append(&mut more);
                            proof {
                                assert(self.cur().ring(false)[0] == window);
                            }
                        }
                        out.push(Request::FullscreenState(window, false));
                    } else {
                        let mut more = self.fullscreen();
                        proof {
                            let n = more@.len() as int;
                            assert(more@.subrange(n - 4, n)[3] == more@[n - 1]);
                        }
                        out.append(&mut more);
                    }
                }
                out
            },
        }
    }
}

} // verus!
