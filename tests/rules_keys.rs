use le_petit_lapin::keys::{
    match_butmask_with_modmask, match_mod, match_mods, modifier_for_name, Command, KeybindSet, CONTROL, MOD1,
    MOD2, MOD4, SHIFT,
};
use le_petit_lapin::rules::{apply_rules, split_class, Apply, Directive, Property, Rule};

fn class(a: &str, b: &str) -> Option<(String, String)> {
    Some((a.to_string(), b.to_string()))
}

#[test]
fn rule_new_keeps_fields() {
    let r = Rule::new(Property::Class("Gimp".to_string()), Apply::Float);
    assert_eq!(r.property, Property::Class("Gimp".to_string()));
    assert_eq!(r.apply, Apply::Float);
}

#[test]
fn rules_default_directive() {
    let rules = vec![Rule::new(Property::Class("Gimp".to_string()), Apply::Float)];
    let d = apply_rules(&rules, &class("xterm", "XTerm"), 3);
    assert_eq!(d, Directive { draw_border: true, floating: false, workspace: 3, fullscreen: false });
    let d = apply_rules(&rules, &None, 2);
    assert_eq!(d, Directive { draw_border: true, floating: false, workspace: 2, fullscreen: false });
}

#[test]
fn rules_last_match_wins() {
    let rules = vec![
        Rule::new(Property::Class("firefox".to_string()), Apply::Workspace(2)),
        Rule::new(Property::Class("Firefox".to_string()), Apply::Workspace(5)),
    ];
    let d = apply_rules(&rules, &class("firefox", "Firefox"), 0);
    assert_eq!(d.workspace, 5);
}

#[test]
fn rules_fields_overwrite_separately() {
    let rules = vec![
        Rule::new(Property::Class("mpv".to_string()), Apply::Fullscreen),
        Rule::new(Property::Class("mpv".to_string()), Apply::Workspace(4)),
        Rule::new(Property::Class("other".to_string()), Apply::Workspace(7)),
    ];
    let d = apply_rules(&rules, &class("mpv", "Mpv"), 0);
    assert_eq!(d, Directive { draw_border: false, floating: true, workspace: 4, fullscreen: true });
}

#[test]
fn class_property_split() {
    let (a, b) = split_class(&b"xterm\0XTerm\0".to_vec()).unwrap();
    assert_eq!(a, b"xterm".to_vec());
    assert_eq!(b, b"XTerm".to_vec());
    let (a, b) = split_class(&b"a\0b\0c\0".to_vec()).unwrap();
    assert_eq!((a, b), (b"a".to_vec(), b"b".to_vec()));
    assert!(split_class(&b"lonely\0".to_vec()).is_none());
    assert!(split_class(&Vec::new()).is_none());
}

#[test]
fn modifier_masks() {
    assert_eq!(match_butmask_with_modmask(SHIFT | MOD4 | 256), SHIFT | MOD4);
    assert_eq!(match_butmask_with_modmask(32 | 128 | 1024), 0);
    assert_eq!(match_butmask_with_modmask(MOD2 | CONTROL), MOD2 | CONTROL);
}

#[test]
fn modifier_names() {
    assert_eq!(match_mod("super"), Some(MOD4));
    assert_eq!(match_mod("Meta"), Some(MOD1));
    assert_eq!(match_mod("ctrl"), Some(CONTROL));
    assert_eq!(match_mod("Shift"), Some(SHIFT));
    assert_eq!(match_mod("nope"), None);
    assert_eq!(modifier_for_name(&"HYPER".to_string()), Some(MOD4));
    assert_eq!(modifier_for_name(&"hyper".to_string()), None);
    assert_eq!(match_mods(&vec!["Super", "Shift"]), Some(MOD4 | SHIFT));
    assert_eq!(match_mods(&vec!["Super", "Bogus"]), None);
    assert_eq!(match_mods(&vec![]), None);
}

#[test]
fn keybind_lookup() {
    let mut k = KeybindSet::new();
    let all = k.bindall(vec![
        (vec!["Super"], 10, Command::GotoWorkspace(0)),
        (vec!["Super", "Shift"], 10, Command::SendWindowToWorkspace(0)),
        (vec!["Wat"], 11, Command::Quit),
    ]);
    assert!(!all);
    assert_eq!(k.iter().len(), 2);
    assert_eq!(k.get_callback(10, MOD4), Some(&Command::GotoWorkspace(0)));
    // button bits of the state are ignored
    assert_eq!(k.get_callback(10, MOD4 | SHIFT | 256), Some(&Command::SendWindowToWorkspace(0)));
    assert_eq!(k.get_callback(11, 0), None);
    k.bind(MOD4, 10, Command::NextWin);
    assert_eq!(k.get_callback(10, MOD4), Some(&Command::NextWin));
}
