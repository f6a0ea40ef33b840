//! Layout strategies: pure geometry from an ordered window list and a usable
//! area to the rectangles each window should be given.
use vstd::prelude::*;

verus! {

/// The usable rectangle of a screen, as `(width, height, x, y)`.
#[derive(Clone, Copy, Debug, PartialEq, Eq, Structural)]
pub struct Area {
    pub width: u16,
    pub height: u16,
    pub x: i16,
    pub y: i16,
}

/// A window geometry: position of the outer corner and inner size (the border
/// is drawn outside of `width` and `height`).
#[derive(Clone, Copy, Debug, PartialEq, Eq, Structural)]
pub struct Rect {
    pub x: i32,
    pub y: i32,
    pub width: u32,
    pub height: u32,
}

/// One geometry request: give `window` the rectangle `rect`.
#[derive(Clone, Copy, Debug, PartialEq, Eq, Structural)]
pub struct Placement {
    pub window: u32,
    pub rect: Rect,
}

/// `v` when positive, else zero: a size that cannot go below nothing.
pub open spec fn sat(v: int) -> int {
    if v > 0 {
        v
    } else {
        0
    }
}

/// `v`, held at the largest `i32`.
pub open spec fn clamp_i32(v: int) -> int {
    if v > i32::MAX {
        i32::MAX as int
    } else {
        v
    }
}

/// The rectangle covering the whole area, minus `gaps` on every side and
/// room for a border of `borders` pixels.
pub open spec fn full_rect(a: Area, gaps: int, borders: int) -> Rect {
    Rect {
        x: (a.x + gaps) as i32,
        y: (a.y + gaps) as i32,
        width: sat(a.width - 2 * gaps - 2 * borders) as u32,
        height: sat(a.height - 2 * gaps - 2 * borders) as u32,
    }
}

fn full_rect_exec(a: Area, gaps: u16, borders: u16) -> (r: Rect)
    ensures
        r == full_rect(a, gaps as int, borders as int),
{
    let w: i64 = a.width as i64 - 2 * gaps as i64 - 2 * borders as i64;
    let h: i64 = a.height as i64 - 2 * gaps as i64 - 2 * borders as i64;
    Rect {
        x: a.x as i32 + gaps as i32,
        y: a.y as i32 + gaps as i32,
        width: if w > 0 { w as u32 } else { 0 },
        height: if h > 0 { h as u32 } else { 0 },
    }
}

/// A floating layout: it never moves windows and allows mouse motions.
#[derive(Clone, Copy, Debug)]
pub struct Floating {
    pub borders: u16,
    pub name: &'static str,
}

impl Floating {
    /// A floating layout with 4 pixel borders, named "Floating".
    pub fn new() -> (r: Floating)
        ensures
            r.borders == 4,
            r.name@ == "Floating"@,
    {
        proof {
            reveal_strlit("Floating");
        }
        Floating { borders: 4, name: "Floating" }
    }
}

/// A tiling layout: the master window on the left, the others stacked on the
/// right.
#[derive(Clone, Copy, Debug)]
pub struct Tiling {
    pub name: &'static str,
    pub borders: u16,
    /// Percentage of the area width given to the master column (at most 100).
    pub master_percent: u8,
    /// Gaps around and between the windows.
    pub gaps: u16,
}

impl Tiling {
    /// A tiling layout with 4 pixel borders and gaps and half of the width for
    /// the master window, named "Tiling".
    pub fn new() -> (r: Tiling)
        ensures
            r.borders == 4,
            r.gaps == 4,
            r.master_percent == 50,
            r.name@ == "Tiling"@,
    {
        proof {
            reveal_strlit("Tiling");
        }
        Tiling { name: "Tiling", borders: 4, master_percent: 50, gaps: 4 }
    }

    /// Width of the master column (gaps and borders included).
    pub open spec fn master_share(&self, a: Area) -> int {
        let s = a.width * self.master_percent / 100;
        if s > a.width {
            a.width as int
        } else {
            s
        }
    }

    /// The master window when there are slaves: the master column less a
    /// gap and the borders wide, the area less the outer gaps high.
    pub open spec fn master_rect(&self, a: Area) -> Rect {
        let g = self.gaps as int;
        let b = self.borders as int;
        Rect {
            x: (a.x + g) as i32,
            y: (a.y + g) as i32,
            width: sat(self.master_share(a) - g - 2 * b) as u32,
            height: sat(a.height - 2 * g) as u32,
        }
    }

    /// Height left to the `m` slaves once gaps and borders are taken out.
    pub open spec fn slave_space(&self, a: Area, m: int) -> int {
        sat(a.height - self.gaps * (m + 1) - 2 * self.borders * m)
    }

    /// Height of each slave but the last one.
    pub open spec fn slave_height(&self, a: Area, m: int) -> int {
        self.slave_space(a, m) / m
    }

    /// Vertical distance from one slave's top to the next one's.
    pub open spec fn slave_step(&self, a: Area, m: int) -> int {
        self.slave_height(a, m) + 2 * self.borders + self.gaps
    }

    /// Slave `j` of `m`: equal shares of the slave space, and the last one
    /// also takes what the division leaves, so that no pixel row is lost.
    pub open spec fn slave_rect(&self, a: Area, m: int, j: int) -> Rect {
        let g = self.gaps as int;
        let b = self.borders as int;
        let ms = self.master_share(a);
        let h = if j == m - 1 {
            self.slave_height(a, m) + self.slave_space(a, m) % m
        } else {
            self.slave_height(a, m)
        };
        Rect {
            x: (a.x + ms + g) as i32,
            y: clamp_i32(a.y + g + j * self.slave_step(a, m)) as i32,
            width: sat(a.width - ms - 2 * g - 2 * b) as u32,
            height: h as u32,
        }
    }

    /// The rectangle of window `i` of `n`.
    pub open spec fn tile_rect(&self, a: Area, n: int, i: int) -> Rect {
        if n == 1 {
            full_rect(a, self.gaps as int, self.borders as int)
        } else if i == 0 {
            self.master_rect(a)
        } else {
            self.slave_rect(a, n - 1, i - 1)
        }
    }

    /// Every window of the list placed by the tiling rule.
    pub open spec fn tile(&self, windows: Seq<u32>, a: Area) -> Seq<Placement> {
        Seq::new(
            windows.len(),
            |i: int| Placement { window: windows[i], rect: self.tile_rect(a, windows.len() as int, i) },
        )
    }

    fn master_share_exec(&self, a: Area) -> (r: u32)
        ensures
            r == self.master_share(a),
            r <= a.width,
    {
        assert(a.width as u32 * self.master_percent as u32 <= 65535 * 255) by (nonlinear_arith)
            requires
                a.width <= 65535,
                self.master_percent <= 255,
        ;
        let s: u32 = a.width as u32 * self.master_percent as u32 / 100;
        if s > a.width as u32 {
            a.width as u32
        } else {
            s
        }
    }

    fn master_rect_exec(&self, a: Area) -> (r: Rect)
        ensures
            r == self.master_rect(a),
    {
        let ms = self.master_share_exec(a);
        let w: i64 = ms as i64 - self.gaps as i64 - 2 * self.borders as i64;
        let h: i64 = a.height as i64 - 2 * self.gaps as i64;
        Rect {
            x: a.x as i32 + self.gaps as i32,
            y: a.y as i32 + self.gaps as i32,
            width: if w > 0 { w as u32 } else { 0 },
            height: if h > 0 { h as u32 } else { 0 },
        }
    }

    /// Places every window: a single one gets the whole area, else the first
    /// is the master and the others are stacked beside it.
    pub fn reload(&self, windows: &Vec<u32>, a: Area) -> (r: Vec<Placement>)
        ensures
            r@ == self.tile(windows@, a),
    {
        let n = windows.len();
        let mut r: Vec<Placement> = Vec::new();
        if n == 0 {
            proof {
                assert(r@ =~= self.tile(windows@, a));
            }
            return r;
        }
        if n == 1 {
            r.push(Placement { window: windows[0], rect: full_rect_exec(a, self.gaps, self.borders) });
            proof {
                assert(r@ =~= self.tile(windows@, a));
            }
            return r;
        }
        r.push(Placement { window: windows[0], rect: self.master_rect_exec(a) });
        let m: usize = n - 1;
        let g: u128 = self.gaps as u128;
        let b: u128 = self.borders as u128;
        assert(g * (m as u128 + 1) <= 0x10000 * 0x10000000000000000 && 2 * b * (m as u128) <= 0x20000 * 0x10000000000000000) by (nonlinear_arith)
            requires
                g < 0x10000,
                b < 0x10000,
                m < 0x10000000000000000,
        ;
        let need: u128 = g * (m as u128 + 1) + 2 * b * (m as u128);
        let space: u128 = if (a.height as u128) > need {
            a.height as u128 - need
        } else {
            0
        };
        proof {
            assert(space == self.slave_space(a, m as int));
        }
        let h: u128 = space / (m as u128);
        let rest: u128 = space % (m as u128);
        proof {
            assert(h <= space) by (nonlinear_arith)
                requires
                    h == space / (m as u128),
                    m >= 1,
            ;
            assert(rest < m);
            assert(h + rest <= space) by {
                vstd::arithmetic::div_mod::lemma_fundamental_div_mod(space as int, m as int);
                assert(h * m >= h) by (nonlinear_arith)
                    requires
                        m >= 1,
                ;
            }
        }
        let ms = self.master_share_exec(a);
        let sw: i64 = a.width as i64 - ms as i64 - 2 * self.gaps as i64 - 2 * self.borders as i64;
        let sx: i32 = a.x as i32 + ms as i32 + self.gaps as i32;
        let swidth: u32 = if sw > 0 { sw as u32 } else { 0 };
        let step: i64 = h as i64 + 2 * self.borders as i64 + self.gaps as i64;
        let ghost y0: int = a.y + self.gaps;
        let mut y: i64 = a.y as i64 + self.gaps as i64;
        let mut j: usize = 0;
        while j < m
            invariant
                n == windows@.len(),
                m == n - 1,
                m >= 1,
                0 <= j <= m,
                r@.len() == j + 1,
                r@[0] == (Placement { window: windows@[0], rect: self.master_rect(a) }),
                forall|i: int|
                    1 <= i <= j ==> #[trigger] r@[i] == (Placement {
                        window: windows@[i],
                        rect: self.slave_rect(a, m as int, i - 1),
                    }),
                h == self.slave_height(a, m as int),
                rest == self.slave_space(a, m as int) % (m as int),
                h + rest <= 65535,
                step == self.slave_step(a, m as int),
                0 <= step < 0x100000,
                y == clamp_i32(y0 + j * step),
                y0 == a.y + self.gaps,
                sx == a.x + self.master_share(a) + self.gaps,
                swidth == sat(a.width - self.master_share(a) - 2 * self.gaps - 2 * self.borders),
            decreases m - j,
        {
            let height: u32 = if j == m - 1 {
                (h + rest) as u32
            } else {
                h as u32
            };
            r.push(Placement { window: windows[j + 1], rect: Rect { x: sx, y: y as i32, width: swidth, height } });
            proof {
                assert((j + 1) * step == j * step + step) by (nonlinear_arith);
            }
            let next: i64 = y + step;
            y = if next > i32::MAX as i64 {
                i32::MAX as i64
            } else {
                next
            };
            j = j + 1;
        }
        proof {
            assert(r@ =~= self.tile(windows@, a));
        }
        r
    }
}

/// A maximized layout: every window gets the same full-area rectangle.
#[derive(Clone, Copy, Debug)]
pub struct Maximized {
    pub name: &'static str,
    pub borders: u16,
    pub gaps: u16,
}

impl Maximized {
    /// A maximized layout with no borders nor gaps, named "Maximized".
    pub fn new() -> (r: Maximized)
        ensures
            r.borders == 0,
            r.gaps == 0,
            r.name@ == "Maximized"@,
    {
        proof {
            reveal_strlit("Maximized");
        }
        Maximized { name: "Maximized", borders: 0, gaps: 0 }
    }

    /// Every window of the list given the full rectangle.
    pub open spec fn stack(&self, windows: Seq<u32>, a: Area) -> Seq<Placement> {
        Seq::new(
            windows.len(),
            |i: int|
                Placement {
                    window: windows[i],
                    rect: full_rect(a, self.gaps as int, self.borders as int),
                },
        )
    }

    /// Gives every window the full rectangle.
    pub fn reload(&self, windows: &Vec<u32>, a: Area) -> (r: Vec<Placement>)
        ensures
            r@ == self.stack(windows@, a),
    {
        let rect = full_rect_exec(a, self.gaps, self.borders);
        let mut r: Vec<Placement> = Vec::new();
        let mut i: usize = 0;
        while i < windows.len()
            invariant
                0 <= i <= windows@.len(),
                r@.len() == i,
                rect == full_rect(a, self.gaps as int, self.borders as int),
                forall|j: int| 0 <= j < i ==> #[trigger] r@[j] == (Placement { window: windows@[j], rect }),
            decreases windows@.len() - i,
        {
            r.push(Placement { window: windows[i], rect });
            i = i + 1;
        }
        proof {
            assert(r@ =~= self.stack(windows@, a));
        }
        r
    }

    /// Gives the new window (the first of the list) the full rectangle.
    pub fn newwin(&self, windows: &Vec<u32>, a: Area) -> (r: Vec<Placement>)
        ensures
            r@ == self.stack(windows@, a).take(if windows@.len() > 0 { 1 } else { 0 }),
    {
        let mut r: Vec<Placement> = Vec::new();
        if windows.len() > 0 {
            r.push(Placement { window: windows[0], rect: full_rect_exec(a, self.gaps, self.borders) });
        }
        proof {
            assert(r@ =~= self.stack(windows@, a).take(if windows@.len() > 0 { 1 } else { 0 }));
        }
        r
    }
}

/// The registry's layout strategies.
#[derive(Clone, Copy, Debug)]
pub enum Layout {
    Tiling(Tiling),
    Maximized(Maximized),
    Floating(Floating),
}

impl Layout {
    /// Placements after a full reload.
    pub open spec fn reload_spec(&self, windows: Seq<u32>, a: Area) -> Seq<Placement> {
        match self {
            Layout::Tiling(t) => t.tile(windows, a),
            Layout::Maximized(m) => m.stack(windows, a),
            Layout::Floating(_) => Seq::empty(),
        }
    }

    /// Placements after a window was added at the front of the list.
    pub open spec fn newwin_spec(&self, windows: Seq<u32>, a: Area) -> Seq<Placement> {
        match self {
            Layout::Tiling(t) => t.tile(windows, a),
            Layout::Maximized(m) => m.stack(windows, a).take(if windows.len() > 0 { 1 } else { 0 }),
            Layout::Floating(_) => Seq::empty(),
        }
    }

    /// Placements after a window was taken out of the list.
    pub open spec fn delwin_spec(&self, windows: Seq<u32>, a: Area) -> Seq<Placement> {
        match self {
            Layout::Tiling(t) => t.tile(windows, a),
            _ => Seq::empty(),
        }
    }

    /// Recomputes every window.
    pub fn reload(&self, windows: &Vec<u32>, a: Area) -> (r: Vec<Placement>)
        ensures
            r@ == self.reload_spec(windows@, a),
    {
        match self {
            Layout::Tiling(t) => t.reload(windows, a),
            Layout::Maximized(m) => m.reload(windows, a),
            Layout::Floating(_) => {
                let r: Vec<Placement> = Vec::new();
                proof {
                    assert(r@ =~= self.reload_spec(windows@, a));
                }
                r
            },
        }
    }

    /// Called when a window was inserted at the front of the list.
    pub fn newwin(&self, windows: &Vec<u32>, a: Area) -> (r: Vec<Placement>)
        ensures
            r@ == self.newwin_spec(windows@, a),
    {
        match self {
            Layout::Tiling(t) => t.reload(windows, a),
            Layout::Maximized(m) => m.newwin(windows, a),
            Layout::Floating(_) => {
                let r: Vec<Placement> = Vec::new();
                proof {
                    assert(r@ =~= self.newwin_spec(windows@, a));
                }
                r
            },
        }
    }

    /// Called when a window left the list; `current` is the focus after that.
    pub fn delwin(&self, windows: &Vec<u32>, current: Option<usize>, a: Area) -> (r: Vec<Placement>)
        ensures
            r@ == self.delwin_spec(windows@, a),
    {
        match self {
            Layout::Tiling(t) => t.reload(windows, a),
            _ => {
                let r: Vec<Placement> = Vec::new();
                proof {
                    assert(r@ =~= self.delwin_spec(windows@, a));
                }
                r
            },
        }
    }

    /// Called when the focus moved to window `number`; no built-in layout
    /// moves anything then.
    pub fn changewin(&self, windows: &Vec<u32>, number: usize, a: Area) -> (r: Vec<Placement>)
        ensures
            r@.len() == 0,
    {
        Vec::new()
    }

    /// Whether free mouse move and resize is allowed: only when floating.
    pub fn allow_motions(&self) -> (r: bool)
        ensures
            r == (self is Floating),
    {
        match self {
            Layout::Floating(_) => true,
            _ => false,
        }
    }

    /// The border width this layout gives its windows.
    pub open spec fn border_width_spec(&self) -> u16 {
        match self {
            Layout::Tiling(t) => t.borders,
            Layout::Maximized(m) => m.borders,
            Layout::Floating(f) => f.borders,
        }
    }

    /// The border width this layout gives its windows.
    pub fn border_width(&self) -> (r: u16)
        ensures
            r == self.border_width_spec(),
    {
        match self {
            Layout::Tiling(t) => t.borders,
            Layout::Maximized(m) => m.borders,
            Layout::Floating(f) => f.borders,
        }
    }

    /// The layout's display name.
    pub fn name(&self) -> (r: &'static str)
        ensures
            r@ == (match self {
                Layout::Tiling(t) => t.name@,
                Layout::Maximized(m) => m.name@,
                Layout::Floating(f) => f.name@,
            }),
    {
        match self {
            Layout::Tiling(t) => t.name,
            Layout::Maximized(m) => m.name,
            Layout::Floating(f) => f.name,
        }
    }
}

/// Sum of the heights of the first `k` placements of `ps`.
pub open spec fn heights_sum(ps: Seq<Placement>, k: int) -> int
    decreases k,
{
    if k <= 0 {
        0
    } else {
        heights_sum(ps, k - 1) + ps[k - 1].rect.height
    }
}

impl Tiling {
    proof fn lemma_slave_heights(&self, a: Area, windows: Seq<u32>, k: int)
        requires
            windows.len() >= 2,
            0 <= k <= windows.len() - 1,
        ensures
            k < windows.len() - 1 ==> heights_sum(self.tile(windows, a).drop_first(), k) == k
                * self.slave_height(a, windows.len() - 1),
            k == windows.len() - 1 ==> heights_sum(self.tile(windows, a).drop_first(), k)
                == self.slave_space(a, windows.len() - 1),
        decreases k,
    {
        let m = windows.len() - 1;
        let ps = self.tile(windows, a).drop_first();
        let h = self.slave_height(a, m);
        let sp = self.slave_space(a, m);
        vstd::arithmetic::div_mod::lemma_fundamental_div_mod(sp, m);
        assert(0 <= h) by {
            vstd::arithmetic::div_mod::lemma_div_pos_is_pos(sp, m);
        }
        assert(h * m <= sp) by {
            vstd::arithmetic::div_mod::lemma_mod_pos_bound(sp, m);
        }
        assert(sp <= 65535);
        assert(h <= 65535) by (nonlinear_arith)
            requires
                h * m <= sp,
                m >= 1,
                sp <= 65535,
                h >= 0,
        ;
        assert(0 <= sp % m < m) by {
            vstd::arithmetic::div_mod::lemma_mod_pos_bound(sp, m);
        }
        if k > 0 {
            self.lemma_slave_heights(a, windows, k - 1);
            assert(ps[k - 1] == self.tile(windows, a)[k]);
            assert(ps[k - 1].rect == self.slave_rect(a, m, k - 1));
            if k < m {
                assert(ps[k - 1].rect.height == h);
            }
            assert((k - 1) * h + h == k * h) by (nonlinear_arith);
            assert(heights_sum(ps, k) == heights_sum(ps, k - 1) + ps[k - 1].rect.height);
            if k == m {
                assert(m * h == h * m) by (nonlinear_arith);
                assert(h + sp % m <= 65535 + sp) by (nonlinear_arith)
                    requires
                        h <= 65535,
                        sp % m <= sp,
                ;
                assert(h + sp % m <= sp) by (nonlinear_arith)
                    requires
                        h * m + sp % m == sp,
                        h >= 0,
                        m >= 1,
                        sp % m >= 0,
                ;
            }
        } else {
            assert(0 * h == 0);
        }
    }

    /// Tiling accounts for every pixel of the area: when the gaps and borders
    /// fit, the master column, the slave column and the gaps between them
    /// span the width exactly, the slaves with their gaps and borders span
    /// the height exactly, and the slave heights add up to the height less
    /// one gap per window and a double border per slave.
    pub proof fn lemma_tiling_exact(&self, windows: Seq<u32>, a: Area)
        requires
            windows.len() >= 2,
            self.master_share(a) >= self.gaps + 2 * self.borders,
            a.width - self.master_share(a) >= 2 * self.gaps + 2 * self.borders,
            a.height >= self.gaps * windows.len() + 2 * self.borders * (windows.len() - 1),
        ensures
            ({
                let ps = self.tile(windows, a);
                let n = windows.len() as int;
                let g = self.gaps as int;
                let b = self.borders as int;
                &&& ps.len() == n
                &&& ps[0].rect.x == a.x + g
                &&& ps[0].rect.y == a.y + g
                &&& ps[0].rect.y + ps[0].rect.height + g == a.y + a.height
                &&& forall|i: int|
                    1 <= i < n ==> ps[0].rect.x + ps[0].rect.width + 2 * b + g == #[trigger] ps[i].rect.x
                        && ps[i].rect.x + ps[i].rect.width + 2 * b + g == a.x + a.width
                &&& ps[1].rect.y == a.y + g
                &&& forall|i: int|
                    1 <= i < n - 1 ==> #[trigger] ps[i + 1].rect.y == ps[i].rect.y + ps[i].rect.height + 2
                        * b + g
                &&& ps[n - 1].rect.y + ps[n - 1].rect.height + 2 * b + g == a.y + a.height
                &&& heights_sum(ps.drop_first(), n - 1) + g * n + 2 * b * (n - 1) == a.height
            }),
    {
        let ps = self.tile(windows, a);
        let n = windows.len() as int;
        let m = n - 1;
        let g = self.gaps as int;
        let b = self.borders as int;
        let sp = self.slave_space(a, m);
        let h = self.slave_height(a, m);
        assert(sp == a.height - g * (m + 1) - 2 * b * m) by (nonlinear_arith)
            requires
                a.height >= g * n + 2 * b * m,
                n == m + 1,
                sp == sat(a.height - g * (m + 1) - 2 * b * m),
        ;
        vstd::arithmetic::div_mod::lemma_fundamental_div_mod(sp, m);
        vstd::arithmetic::div_mod::lemma_mod_pos_bound(sp, m);
        vstd::arithmetic::div_mod::lemma_div_pos_is_pos(sp, m);
        self.lemma_slave_heights(a, windows, m);
        assert forall|j: int| 0 <= j < m implies #[trigger] self.slave_rect(a, m, j).y == a.y + g + j
            * self.slave_step(a, m) by {
            assert(j * self.slave_step(a, m) + h <= m * h + g * m + 2 * b * m) by (nonlinear_arith)
                requires
                    0 <= j < m,
                    self.slave_step(a, m) == h + 2 * b + g,
                    h >= 0,
                    b >= 0,
                    g >= 0,
            ;
            assert(0 <= j * self.slave_step(a, m)) by (nonlinear_arith)
                requires
                    0 <= j,
                    self.slave_step(a, m) >= 0,
            ;
            assert(h * m == m * h) by (nonlinear_arith);
            assert(g * (m + 1) == g * m + g) by (nonlinear_arith);
            assert(a.y + g + j * self.slave_step(a, m) <= a.y + a.height);
            assert(a.y + g + j * self.slave_step(a, m) <= i32::MAX);
            assert(clamp_i32(a.y + g + j * self.slave_step(a, m)) == a.y + g + j * self.slave_step(a, m));
        }
        assert forall|i: int| 1 <= i < n - 1 implies #[trigger] ps[i + 1].rect.y == ps[i].rect.y
            + ps[i].rect.height + 2 * b + g by {
            assert(i * self.slave_step(a, m) == (i - 1) * self.slave_step(a, m) + self.slave_step(a, m))
                by (nonlinear_arith);
        }
        assert((m - 1) * self.slave_step(a, m) + h + sp % m + 2 * b + g == a.height - g) by (
        nonlinear_arith)
            requires
                self.slave_step(a, m) == h + 2 * b + g,
                h * m + sp % m == sp,
                sp == a.height - g * (m + 1) - 2 * b * m,
        ;
    }
}

} // verus!
