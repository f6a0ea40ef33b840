use le_petit_lapin::config::Config;
use le_petit_lapin::keys::{Command, KeybindSet, MOD4};
use le_petit_lapin::layouts::{Area, Placement, Rect};
use le_petit_lapin::rules::{Apply, Property, Rule};
use le_petit_lapin::wm::{desktop_names, Drag, Event, Lapin, Request};

fn monitor(width: u16, height: u16, x: i16, y: i16) -> Area {
    Area { width, height, x, y }
}

fn one_screen() -> Lapin {
    Lapin::new(Config::new(), KeybindSet::new(), &vec![monitor(1280, 800, 0, 0)]).unwrap()
}

fn two_screens() -> Lapin {
    Lapin::new(
        Config::new(),
        KeybindSet::new(),
        &vec![monitor(1280, 800, 0, 0), monitor(1920, 1080, 1280, 0)],
    )
    .unwrap()
}

fn manage(l: &mut Lapin, w: u32) -> Vec<Request> {
    l.manage_window(w, false, &None)
}

/// Every managed window, with where it is.
fn places(l: &Lapin) -> Vec<(u32, usize, usize, bool)> {
    let mut v = vec![];
    for (s, sc) in l.screens.iter().enumerate() {
        for (k, ws) in sc.workspaces.iter().enumerate() {
            for w in &ws.windows {
                v.push((*w, s, k, false));
            }
            for w in &ws.ool_windows {
                v.push((*w, s, k, true));
            }
        }
    }
    v
}

fn assert_unique(l: &Lapin) {
    let p = places(l);
    for (i, a) in p.iter().enumerate() {
        for b in &p[i + 1..] {
            assert_ne!(a.0, b.0, "window {} is in two places", a.0);
        }
    }
}

fn assert_focus_valid(l: &Lapin) {
    for sc in &l.screens {
        for ws in &sc.workspaces {
            match ws.focused {
                None => assert!(ws.windows.is_empty() && ws.ool_windows.is_empty()),
                Some(i) => {
                    let n = if ws.ool_focus { ws.ool_windows.len() } else { ws.windows.len() };
                    assert!(i < n);
                }
            }
        }
    }
}

#[test]
fn new_needs_monitors_workspaces_and_layouts() {
    assert!(Lapin::new(Config::new(), KeybindSet::new(), &vec![]).is_none());
    let mut c = Config::new();
    c.workspaces = vec![];
    assert!(Lapin::new(c, KeybindSet::new(), &vec![monitor(10, 10, 0, 0)]).is_none());
    let mut c = Config::new();
    c.layouts = vec![];
    assert!(Lapin::new(c, KeybindSet::new(), &vec![monitor(10, 10, 0, 0)]).is_none());
    let l = two_screens();
    assert_eq!(l.screens.len(), 2);
    assert_eq!(l.screens[1].workspaces.len(), 9);
    assert_eq!(l.get_focused_window(), None);
}

#[test]
fn config_defaults() {
    let c = Config::new();
    assert_eq!(c.workspaces, vec!["1", "2", "3", "4", "5", "6", "7", "8", "9"]);
    assert_eq!(c.mouse_mod, vec!["Super"]);
    assert_eq!((c.border_color, c.border_color_focus, c.border_width), (0xff000000, 0xffffffff, 4));
    assert_eq!(c.layouts.len(), 3);
    assert!(c.rules.is_empty());
    assert!(c.mouse_raises_window);
}

#[test]
fn manage_lays_out_maps_and_focuses() {
    let mut l = one_screen();
    let r = manage(&mut l, 5);
    assert_eq!(l.get_focused_window(), Some(5));
    assert_eq!(l.screens[0].workspaces[0].windows, vec![5]);
    assert!(r.contains(&Request::MapWindow(5)));
    assert!(r.contains(&Request::Focus(5)));
    assert!(r.contains(&Request::Configure(Placement { window: 5, rect: Rect { x: 4, y: 4, width: 1264, height: 784 } })));
    assert!(r.contains(&Request::Desktop(5, 0)));
    assert_eq!(r.last(), Some(&Request::ClientList(vec![5])));
}

#[test]
fn manage_twice_changes_nothing() {
    let mut l = one_screen();
    manage(&mut l, 5);
    manage(&mut l, 6);
    let before = places(&l);
    let r = manage(&mut l, 5);
    assert!(r.is_empty());
    assert_eq!(places(&l), before);
    assert_eq!(l.get_focused_window(), Some(6));
}

#[test]
fn manage_skips_override_redirect() {
    let mut l = one_screen();
    assert!(l.manage_window(5, true, &None).is_empty());
    assert!(places(&l).is_empty());
}

#[test]
fn rules_send_window_elsewhere_unmapped() {
    let mut c = Config::new();
    c.rules = vec![
        Rule::new(Property::Class("Gimp".to_string()), Apply::Workspace(2)),
        Rule::new(Property::Class("Gimp".to_string()), Apply::Workspace(3)),
    ];
    let mut l = Lapin::new(c, KeybindSet::new(), &vec![monitor(1280, 800, 0, 0)]).unwrap();
    manage(&mut l, 1);
    let r = l.manage_window(2, false, &Some(("gimp".to_string(), "Gimp".to_string())));
    assert_eq!(l.screens[0].workspaces[3].windows, vec![2]);
    assert_eq!(l.screens[0].workspaces[3].focused, Some(0));
    assert!(!r.contains(&Request::MapWindow(2)));
    assert!(r.contains(&Request::Desktop(2, 3)));
    assert_eq!(l.get_focused_window(), Some(1));
}

#[test]
fn fullscreen_rule_floats_without_border() {
    let mut c = Config::new();
    c.rules = vec![Rule::new(Property::Class("mpv".to_string()), Apply::Fullscreen)];
    let mut l = Lapin::new(c, KeybindSet::new(), &vec![monitor(1280, 800, 0, 0)]).unwrap();
    let r = l.manage_window(9, false, &Some(("mpv".to_string(), "mpv".to_string())));
    assert_eq!(l.screens[0].workspaces[0].ool_windows, vec![9]);
    assert!(r.contains(&Request::FullscreenState(9, true)));
    assert!(!r.iter().any(|q| matches!(q, Request::BorderWidth(9, _))));
}

#[test]
fn unmanage_resolves_focus() {
    let mut l = one_screen();
    for w in [1, 2, 3] {
        manage(&mut l, w);
    }
    // managed list is [3, 2, 1]; focus the last one
    l.toggle_focus(1, true);
    l.unmanage_window(1, true);
    assert_eq!(l.screens[0].workspaces[0].focused, Some(1));
    assert_eq!(l.get_focused_window(), Some(2));
    assert!(l.window_location(1).is_none());
    assert!(l.unmanage_window(1, true).is_empty());
}

#[test]
fn unmanage_without_resolving_keeps_focus() {
    let mut l = one_screen();
    for w in [1, 2, 3] {
        manage(&mut l, w);
    }
    assert_eq!(l.get_focused_window(), Some(3));
    let r = l.unmanage_window(1, false);
    assert_eq!(l.get_focused_window(), Some(3));
    assert!(!r.iter().any(|q| matches!(q, Request::Focus(_))));
}

#[test]
fn unmanage_last_switches_to_floating() {
    let mut l = one_screen();
    manage(&mut l, 1);
    manage(&mut l, 2);
    l.toggle_ool();
    // managed [1], floating [2]; focus the managed one and remove it
    l.toggle_focus(1, true);
    l.unmanage_window(1, true);
    assert_eq!(l.get_focused_window(), Some(2));
    assert!(l.screens[0].workspaces[0].ool_focus);
    l.unmanage_window(2, true);
    assert_eq!(l.screens[0].workspaces[0].focused, None);
}

#[test]
fn next_window_cycles_through_both_lists() {
    let mut l = one_screen();
    for w in [1, 2, 3] {
        manage(&mut l, w);
    }
    l.toggle_ool();
    // managed [2, 1], floating [3], focus on 3
    let mut seen = vec![];
    for _ in 0..3 {
        l.nextwin();
        seen.push(l.get_focused_window().unwrap());
    }
    assert_eq!(seen, vec![2, 1, 3]);
    l.prevwin();
    assert_eq!(l.get_focused_window(), Some(1));
}

#[test]
fn next_window_alone_does_nothing() {
    let mut l = one_screen();
    manage(&mut l, 1);
    assert!(l.nextwin().is_empty());
    assert_eq!(l.get_focused_window(), Some(1));
}

#[test]
fn layout_cycling_wraps() {
    let mut l = one_screen();
    manage(&mut l, 1);
    l.prev_layout();
    assert_eq!(l.screens[0].workspaces[0].layout, 2);
    let r = l.next_layout();
    assert_eq!(l.screens[0].workspaces[0].layout, 0);
    assert_eq!(r[0], Request::BorderWidth(1, 4));
    assert_eq!(r[1], Request::BorderColor(1, 0xffffffff));
    l.next_layout();
    assert_eq!(l.screens[0].workspaces[0].layout, 1);
}

#[test]
fn workspace_switch_maps_and_unmaps() {
    let mut l = one_screen();
    manage(&mut l, 1);
    let r = l.goto_workspace(1);
    assert_eq!(r[0], Request::UnmapWindow(1));
    assert_eq!(r[1], Request::CurrentDesktop(1));
    assert_eq!(r[2], Request::FocusRoot);
    assert_eq!(l.screens[0].current_wk, 1);
    let r = l.goto_workspace(0);
    assert!(r.contains(&Request::MapWindow(1)));
    assert!(r.contains(&Request::Focus(1)));
    assert!(l.goto_workspace(0).is_empty());
    assert!(l.goto_workspace(42).is_empty());
}

#[test]
fn send_to_workspace_moves_and_refocuses() {
    let mut l = one_screen();
    manage(&mut l, 1);
    manage(&mut l, 2);
    let r = l.send_window_to_workspace(4);
    assert_eq!(r[0], Request::Desktop(2, 4));
    assert_eq!(r[1], Request::UnmapWindow(2));
    assert_eq!(l.screens[0].workspaces[4].windows, vec![2]);
    assert_eq!(l.screens[0].workspaces[4].focused, Some(0));
    assert_eq!(l.get_focused_window(), Some(1));
    assert_unique(&l);
}

#[test]
fn send_to_next_screen_wraps() {
    let mut l = two_screens();
    manage(&mut l, 1);
    l.send_window_to_prev_screen();
    assert_eq!(l.screens[1].workspaces[0].windows, vec![1]);
    assert_eq!(l.get_focused_window(), None);
    l.next_screen();
    assert_eq!(l.current_scr, 1);
    assert_eq!(l.get_focused_window(), Some(1));
    l.toggle_ool();
    let r = l.send_window_to_next_screen();
    assert_eq!(l.screens[0].workspaces[0].ool_windows, vec![1]);
    assert!(r.contains(&Request::MoveTo(1, 0, 0)));
    assert_eq!(r.last(), Some(&Request::Raise(1)));
    l.next_screen();
    assert_eq!(l.current_scr, 0);
}

#[test]
fn one_screen_cannot_send_away() {
    let mut l = one_screen();
    manage(&mut l, 1);
    assert!(l.send_window_to_next_screen().is_empty());
    assert_eq!(l.screens[0].workspaces[0].windows, vec![1]);
}

#[test]
fn fullscreen_floats_over_the_screen() {
    let mut l = one_screen();
    manage(&mut l, 1);
    let r = l.fullscreen();
    let n = r.len();
    assert_eq!(
        r[n - 4..],
        [
            Request::Configure(Placement { window: 1, rect: Rect { x: 0, y: 0, width: 1280, height: 800 } }),
            Request::BorderWidth(1, 0),
            Request::Raise(1),
            Request::FullscreenState(1, true),
        ][..]
    );
    assert_eq!(l.screens[0].workspaces[0].ool_windows, vec![1]);
}

#[test]
fn stack_commands_relayout() {
    let mut l = one_screen();
    for w in [1, 2, 3] {
        manage(&mut l, w);
    }
    l.change_master();
    assert_eq!(l.screens[0].workspaces[0].windows, vec![2, 3, 1]);
    l.rotate_windows_up();
    assert_eq!(l.screens[0].workspaces[0].windows, vec![3, 1, 2]);
    l.rotate_windows_down();
    assert_eq!(l.screens[0].workspaces[0].windows, vec![2, 3, 1]);
    l.swap_with_next_slave();
    assert_eq!(l.screens[0].workspaces[0].windows, vec![2, 1, 3]);
    let r = l.swap_with_prev_slave();
    assert_eq!(l.screens[0].workspaces[0].windows, vec![2, 3, 1]);
    assert_eq!(r.len(), 3);
}

#[test]
fn reserved_space_shrinks_the_area() {
    let mut c = Config::new();
    c.reserved_space = (20, 0, 0, 0);
    let mut l = Lapin::new(c, KeybindSet::new(), &vec![monitor(1280, 800, 0, 0)]).unwrap();
    manage(&mut l, 1);
    assert_eq!(l.calculate_layout_coordinates(), Area { width: 1280, height: 780, x: 0, y: 20 });
    let r = l.toggle_reserved_space();
    assert_eq!(r, vec![Request::Configure(Placement { window: 1, rect: Rect { x: 4, y: 4, width: 1264, height: 784 } })]);
}

#[test]
fn kill_focused() {
    let mut l = one_screen();
    assert!(l.killfocused().is_empty());
    manage(&mut l, 3);
    assert_eq!(l.killfocused(), vec![Request::Kill(3)]);
}

#[test]
fn events_debounce_pointer_focus() {
    let mut l = one_screen();
    l.handle_event(Event::MapRequest { window: 1, override_redirect: false, class: None }, 1000);
    l.handle_event(Event::MapRequest { window: 2, override_redirect: false, class: None }, 1010);
    // too soon after a new window: ignored
    assert!(l.handle_event(Event::EnterNotify(1), 1050).is_empty());
    assert_eq!(l.get_focused_window(), Some(2));
    l.handle_event(Event::EnterNotify(1), 1200);
    assert_eq!(l.get_focused_window(), Some(1));
    // destroyed right after a pointer focus change: focus is not resolved
    let r = l.handle_event(Event::DestroyNotify(2), 1250);
    assert!(!r.iter().any(|q| matches!(q, Request::Focus(_))));
    assert!(l.window_location(2).is_none());
}

#[test]
fn events_keys_and_drags() {
    let mut l = one_screen();
    l.keybinds.bind(MOD4, 38, Command::Spawn("xterm -e top".to_string()));
    l.keybinds.bind(MOD4, 24, Command::GotoWorkspace(3));
    let r = l.handle_event(Event::KeyPress { keycode: 38, state: MOD4 }, 0);
    assert_eq!(r, vec![Request::Spawn("xterm -e top".to_string())]);
    l.handle_event(Event::KeyPress { keycode: 24, state: MOD4 }, 0);
    assert_eq!(l.screens[0].current_wk, 3);
    assert!(l.handle_event(Event::KeyPress { keycode: 99, state: MOD4 }, 0).is_empty());
    // floating layout: drags are allowed
    l.handle_event(Event::MapRequest { window: 7, override_redirect: false, class: None }, 0);
    l.next_layout();
    l.next_layout();
    l.handle_event(Event::ButtonPress { child: 7, root_x: 50, root_y: 60, geometry: Some((40, 40)) }, 0);
    assert_eq!(l.drag, Some(Drag { diff_x: 10, diff_y: 20, pos_x: 40, pos_y: 40, window: 7 }));
    let r = l.handle_event(Event::MotionNotify { state: 256, root_x: 100, root_y: 100 }, 0);
    assert_eq!(r, vec![Request::MoveTo(7, 90, 80), Request::BorderWidth(7, 4)]);
    let r = l.handle_event(Event::MotionNotify { state: 1024, root_x: 100, root_y: 30 }, 0);
    assert_eq!(r, vec![Request::Resize(7, 60, 0)]);
    l.handle_event(Event::ButtonRelease, 0);
    assert_eq!(l.drag, None);
    assert!(l.handle_event(Event::MotionNotify { state: 256, root_x: 1, root_y: 1 }, 0).is_empty());
}

#[test]
fn drags_need_a_floating_layout_or_focus() {
    let mut l = one_screen();
    l.handle_event(Event::MapRequest { window: 7, override_redirect: false, class: None }, 0);
    l.handle_event(Event::ButtonPress { child: 7, root_x: 50, root_y: 60, geometry: Some((40, 40)) }, 0);
    assert_eq!(l.drag, None);
    l.handle_event(Event::ButtonPress { child: 7, root_x: 50, root_y: 60, geometry: None }, 0);
    assert_eq!(l.drag, None);
}

#[test]
fn fullscreen_toggle_message() {
    let mut l = one_screen();
    manage(&mut l, 1);
    let r = l.handle_event(Event::FullscreenToggle { window: 1, is_fullscreen: false }, 500);
    assert!(r.contains(&Request::FullscreenState(1, true)));
    assert!(l.screens[0].workspaces[0].ool_focus);
    let r = l.handle_event(Event::FullscreenToggle { window: 1, is_fullscreen: true }, 600);
    assert_eq!(r.last(), Some(&Request::FullscreenState(1, false)));
    assert_eq!(l.screens[0].workspaces[0].windows, vec![1]);
}

#[test]
fn model_stays_consistent() {
    let mut l = two_screens();
    for w in 1..8 {
        manage(&mut l, w);
        if w % 3 == 0 {
            l.toggle_ool();
        }
    }
    l.send_window_to_workspace(2);
    l.send_window_to_next_screen();
    l.nextwin();
    l.unmanage_window(4, true);
    l.fullscreen();
    l.goto_workspace(2);
    assert_unique(&l);
    assert_focus_valid(&l);
    assert_eq!(places(&l).len(), 6);
}

#[test]
fn workspace_names_are_nul_separated() {
    assert_eq!(desktop_names(&vec!["1", "web"]), b"1\0web\0".to_vec());
    assert!(desktop_names(&vec![]).is_empty());
}

#[test]
fn manage_requests_in_order() {
    let mut l = one_screen();
    manage(&mut l, 1);
    let r = manage(&mut l, 2);
    assert_eq!(
        r,
        vec![
            Request::BorderColor(2, 0xff000000),
            Request::Watch(2),
            Request::BorderWidth(2, 4),
            Request::BorderColor(1, 0xff000000),
            Request::Configure(Placement { window: 2, rect: Rect { x: 4, y: 4, width: 628, height: 792 } }),
            Request::Configure(Placement { window: 1, rect: Rect { x: 644, y: 4, width: 624, height: 784 } }),
            Request::MapWindow(2),
            Request::Focus(2),
            Request::Raise(2),
            Request::BorderColor(2, 0xffffffff),
            Request::Desktop(2, 0),
            Request::ClientList(vec![2, 1]),
        ]
    );
}

#[test]
fn managed_window_is_laid_out_on_the_other_screen() {
    let mut l = two_screens();
    manage(&mut l, 1);
    manage(&mut l, 2);
    let r = l.send_window_to_next_screen();
    assert_eq!(l.screens[1].workspaces[0].windows, vec![2]);
    assert_eq!(l.get_focused_window(), Some(1));
    assert_eq!(
        r.last(),
        Some(&Request::Configure(Placement { window: 2, rect: Rect { x: 1284, y: 4, width: 1904, height: 1064 } }))
    );
    assert!(r.contains(&Request::Focus(1)));
    assert!(r.contains(&Request::BorderColor(2, 0xff000000)));
}

#[test]
fn unmanage_sends_focus_for_the_new_focus() {
    let mut l = one_screen();
    manage(&mut l, 1);
    manage(&mut l, 2);
    let r = l.unmanage_window(2, true);
    assert_eq!(r[0], Request::ClientList(vec![1]));
    assert_eq!(r[1], Request::Focus(1));
    assert_eq!(r[2], Request::Raise(1));
    assert_eq!(r[3], Request::BorderColor(1, 0xffffffff));
}

#[test]
fn commands_copy_exactly() {
    let c = Command::Spawn("st".to_string());
    assert_eq!(c.duplicate(), c);
    assert_eq!(Command::GotoWorkspace(4).duplicate(), Command::GotoWorkspace(4));
}

#[test]
fn bound_key_runs_its_command() {
    let mut l = one_screen();
    manage(&mut l, 1);
    manage(&mut l, 2);
    l.keybinds.bind(MOD4, 44, Command::NextWin);
    l.handle_event(Event::KeyPress { keycode: 44, state: MOD4 }, 0);
    assert_eq!(l.get_focused_window(), Some(1));
}
