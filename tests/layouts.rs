use le_petit_lapin::layouts::{Area, Floating, Layout, Maximized, Placement, Rect, Tiling};

fn area(width: u16, height: u16) -> Area {
    Area { width, height, x: 0, y: 0 }
}

fn rect(x: i32, y: i32, width: u32, height: u32) -> Rect {
    Rect { x, y, width, height }
}

#[test]
fn default_layouts() {
    let t = Tiling::new();
    assert_eq!((t.borders, t.gaps, t.master_percent, t.name), (4, 4, 50, "Tiling"));
    let m = Maximized::new();
    assert_eq!((m.borders, m.gaps, m.name), (0, 0, "Maximized"));
    let f = Floating::new();
    assert_eq!((f.borders, f.name), (4, "Floating"));
}

#[test]
fn tiling_three_windows_exact() {
    let t = Tiling::new();
    let r = t.reload(&vec![10, 20, 30], area(1280, 800));
    assert_eq!(r.len(), 3);
    assert_eq!(r[0], Placement { window: 10, rect: rect(4, 4, 628, 792) });
    assert_eq!(r[1], Placement { window: 20, rect: rect(644, 4, 624, 386) });
    assert_eq!(r[2], Placement { window: 30, rect: rect(644, 402, 624, 386) });
    // the slave column reaches the bottom edge exactly
    assert_eq!(r[2].rect.y + r[2].rect.height as i32 + 8 + 4, 800);
    // and the right edge
    assert_eq!(r[1].rect.x + r[1].rect.width as i32 + 8 + 4, 1280);
}

#[test]
fn tiling_remainder_goes_to_last_slave() {
    let t = Tiling::new();
    // 801 - 4 * 4 - 8 * 3 = 761 = 3 * 253 + 2
    let r = t.reload(&vec![1, 2, 3, 4], area(1280, 801));
    assert_eq!(r[1].rect.height, 253);
    assert_eq!(r[2].rect.height, 253);
    assert_eq!(r[3].rect.height, 255);
    let sum: u32 = r[1..].iter().map(|p| p.rect.height).sum();
    assert_eq!(sum + 4 * 4 + 8 * 3, 801);
    assert_eq!(r[3].rect.y + r[3].rect.height as i32 + 8 + 4, 801);
}

#[test]
fn tiling_single_and_empty() {
    let t = Tiling::new();
    assert!(t.reload(&vec![], area(1280, 800)).is_empty());
    let r = t.reload(&vec![7], Area { width: 1280, height: 800, x: 100, y: -20 });
    assert_eq!(r, vec![Placement { window: 7, rect: rect(104, -16, 1264, 784) }]);
}

#[test]
fn tiling_too_small_area_saturates() {
    let t = Tiling::new();
    let r = t.reload(&vec![1, 2], area(10, 10));
    assert_eq!(r[0].rect.width, 0);
    assert_eq!(r[0].rect.height, 2);
    assert_eq!(r[1].rect.height, 0);
    assert_eq!(r[1].rect.width, 0);
}

#[test]
fn maximized_stacks_everything() {
    let m = Maximized { name: "max", borders: 2, gaps: 5 };
    let r = m.reload(&vec![1, 2], area(100, 50));
    assert_eq!(r[0].rect, rect(5, 5, 86, 36));
    assert_eq!(r[1].rect, r[0].rect);
    let n = m.newwin(&vec![9, 1, 2], area(100, 50));
    assert_eq!(n, vec![Placement { window: 9, rect: rect(5, 5, 86, 36) }]);
    assert!(m.newwin(&vec![], area(100, 50)).is_empty());
}

#[test]
fn layout_capabilities() {
    let t = Layout::Tiling(Tiling::new());
    let m = Layout::Maximized(Maximized::new());
    let f = Layout::Floating(Floating::new());
    assert!(!t.allow_motions());
    assert!(!m.allow_motions());
    assert!(f.allow_motions());
    assert_eq!(t.border_width(), 4);
    assert_eq!(m.border_width(), 0);
    assert_eq!(f.name(), "Floating");
    assert!(f.reload(&vec![1, 2], area(100, 100)).is_empty());
    assert!(f.newwin(&vec![1], area(100, 100)).is_empty());
    assert!(m.delwin(&vec![1], Some(0), area(100, 100)).is_empty());
    assert_eq!(t.delwin(&vec![1], Some(0), area(100, 100)).len(), 1);
    assert!(t.changewin(&vec![1, 2], 1, area(100, 100)).is_empty());
}
