use le_petit_lapin::screens::{Screen, Workspace};

fn workspace(windows: Vec<u32>, ool: Vec<u32>, focused: Option<usize>, ool_focus: bool) -> Workspace {
    let mut w = Workspace::new("w");
    w.windows = windows;
    w.ool_windows = ool;
    w.focused = focused;
    w.ool_focus = ool_focus;
    w
}

#[test]
fn new_workspace_is_empty() {
    let w = Workspace::new("1");
    assert_eq!(w.name, "1");
    assert!(w.windows.is_empty() && w.ool_windows.is_empty());
    assert_eq!(w.focused, None);
    assert_eq!(w.layout, 0);
    assert!(w.respect_reserved_space);
}

#[test]
fn new_screen_has_one_workspace_per_name() {
    let mut s = Screen::new(&vec!["a", "b"], 1920, 1080, 10, 20);
    assert_eq!(s.workspaces.len(), 2);
    assert_eq!(s.workspaces[1].name, "b");
    assert_eq!((s.width, s.height, s.x, s.y, s.current_wk), (1920, 1080, 10, 20, 0));
    s.current_workspace().windows.push(3);
    assert_eq!(s.workspaces[0].windows, vec![3]);
}

#[test]
fn removal_of_last_focused_clamps() {
    // n = 3, focused at 2: focus goes to 1
    let mut w = workspace(vec![1, 2, 3], vec![], Some(2), false);
    assert_eq!(w.remove_and_refocus(2, false), 3);
    assert_eq!((w.focused, w.ool_focus), (Some(1), false));
    // n = 1 with floating windows: focus switches list
    let mut w = workspace(vec![1], vec![8, 9], Some(0), false);
    w.remove_and_refocus(0, false);
    assert_eq!((w.focused, w.ool_focus), (Some(0), true));
    // n = 1, nothing else: no focus
    let mut w = workspace(vec![], vec![8], Some(0), true);
    w.remove_and_refocus(0, true);
    assert_eq!(w.focused, None);
}

#[test]
fn removal_keeping_focus() {
    let mut w = workspace(vec![1, 2, 3], vec![], Some(2), false);
    w.remove_keep_focus(0, false);
    assert_eq!(w.focused_window(), Some(3));
    let mut w = workspace(vec![1, 2, 3], vec![], Some(1), false);
    w.remove_keep_focus(1, false);
    assert_eq!(w.focused, Some(1));
    assert_eq!(w.focused_window(), Some(3));
}

#[test]
fn cycle_visits_every_window_once() {
    let mut w = workspace(vec![1, 2], vec![3, 4, 5], Some(1), false);
    let start = w.focused_window();
    let mut seen = vec![];
    for _ in 0..5 {
        w.cycle(false);
        seen.push(w.focused_window().unwrap());
    }
    assert_eq!(seen, vec![3, 4, 5, 1, 2]);
    assert_eq!(w.focused_window(), start);
}

#[test]
fn cycle_backwards_lands_on_far_end() {
    let mut w = workspace(vec![1, 2], vec![3, 4, 5], Some(0), false);
    w.cycle(true);
    assert_eq!((w.focused, w.ool_focus), (Some(2), true));
    let mut w = workspace(vec![1, 2, 3], vec![], Some(0), false);
    w.cycle(true);
    assert_eq!((w.focused, w.ool_focus), (Some(2), false));
    let mut w = workspace(vec![1], vec![], Some(0), false);
    assert_eq!(w.cycle(false), (false, 0));
}

#[test]
fn insert_keeps_focused_window() {
    let mut w = workspace(vec![1, 2], vec![], Some(1), false);
    w.insert_window(7, false);
    assert_eq!(w.windows, vec![7, 1, 2]);
    assert_eq!(w.focused_window(), Some(2));
    let mut w = Workspace::new("e");
    w.insert_window(7, true);
    assert_eq!((w.focused, w.ool_focus), (Some(0), true));
}

#[test]
fn toggle_moves_to_front_of_other_list() {
    let mut w = workspace(vec![1, 2], vec![3], Some(1), false);
    assert_eq!(w.toggle_ool(), 2);
    assert_eq!(w.windows, vec![1]);
    assert_eq!(w.ool_windows, vec![2, 3]);
    assert_eq!((w.focused, w.ool_focus), (Some(0), true));
}

#[test]
fn stack_permutations() {
    let mut w = workspace(vec![1, 2, 3, 4], vec![], Some(3), false);
    w.swap_with_next_slave();
    assert_eq!(w.windows, vec![1, 4, 3, 2]);
    assert_eq!(w.focused, Some(1));
    w.swap_with_prev_slave();
    assert_eq!(w.windows, vec![1, 2, 3, 4]);
    assert_eq!(w.focused, Some(3));
    w.change_master();
    assert_eq!(w.windows, vec![4, 2, 3, 1]);
    assert_eq!(w.focused, Some(0));
    w.change_master();
    assert_eq!(w.windows, vec![2, 4, 3, 1]);
    assert_eq!(w.focused, Some(1));
    w.rotate_up();
    assert_eq!(w.windows, vec![4, 3, 1, 2]);
    assert_eq!(w.focused, Some(0));
    w.rotate_down();
    assert_eq!(w.windows, vec![2, 4, 3, 1]);
    assert_eq!(w.focused, Some(1));
}
