use wmstate::focus_handler::{focus_tag, focus_window, focus_workspace, tag_propagates_shallowly};
use wmstate::models::{Manager, Screen, Window, WindowHandle};
use wmstate::screen_create_handler;
use wmstate::window_handler;

#[test]
fn every_history_stays_within_ten_entries() {
    let mut manager = Manager::default();
    for i in 0..15 {
        focus_tag(&mut manager, &format!("t{}", i));
        assert!(manager.focused_tag_history.len() <= 10);
        assert!(manager.focused_workspace_history.len() <= 10);
        assert!(manager.focused_window_history.len() <= 10);
    }
    assert_eq!(manager.focused_tag_history.len(), 10);
    assert_eq!(manager.focused_tag().unwrap(), "t14".to_owned());
}

#[test]
fn workspace_history_stays_within_ten_entries() {
    let mut manager = Manager::default();
    for _ in 0..12 {
        screen_create_handler::process(&mut manager, Screen::default());
    }
    for i in 0..12 {
        let ws = manager.workspaces[i].clone();
        focus_workspace(&mut manager, &ws);
        assert!(manager.focused_workspace_history.len() <= 10);
        assert!(manager.focused_tag_history.len() <= 10);
    }
    assert_eq!(manager.focused_workspace_history.len(), 10);
}

#[test]
fn window_history_stays_within_ten_entries() {
    let mut manager = Manager::default();
    for i in 0..12 {
        let w = Window::new(WindowHandle::MockHandle(i), None);
        window_handler::created(&mut manager, w.clone());
        focus_window(&mut manager, &w);
        assert!(manager.focused_window_history.len() <= 10);
    }
    assert_eq!(manager.focused_window_history.len(), 10);
}

#[test]
fn first_window_focus_is_established_from_an_empty_history() {
    let mut manager = Manager::default();
    let w = Window::new(WindowHandle::MockHandle(9), None);
    window_handler::created(&mut manager, w.clone());
    assert!(manager.focused_window().is_none());
    focus_window(&mut manager, &w);
    assert_eq!(manager.focused_window().unwrap().handle, w.handle);
}

#[test]
fn workspaces_are_named_after_their_position() {
    let mut manager = Manager::default();
    for _ in 0..11 {
        screen_create_handler::process(&mut manager, Screen::default());
    }
    assert_eq!(manager.workspaces[0].name, "0".to_owned());
    assert_eq!(manager.workspaces[9].name, "9".to_owned());
    assert_eq!(manager.workspaces[10].name, "10".to_owned());
    assert_eq!(manager.workspaces[10].tags, vec!["11".to_owned()]);
}

#[test]
fn tagging_a_window_twice_keeps_one_membership() {
    let mut window = Window::new(WindowHandle::MockHandle(1), None);
    window.tag("web".to_owned());
    window.tag("web".to_owned());
    assert_eq!(window.tags, vec!["web".to_owned()]);
    window.clear_tags();
    assert_eq!(window.tags.len(), 0);
}

#[test]
fn default_layouts_propagate_shallowly() {
    let mut manager = Manager::default();
    screen_create_handler::process(&mut manager, Screen::default());
    screen_create_handler::process(&mut manager, Screen::default());
    assert!(tag_propagates_shallowly(&manager, &"1".to_owned()));
    assert!(tag_propagates_shallowly(&manager, &"9".to_owned()));
    let mut deep = manager.workspaces[0].clone();
    deep.tags.push("extra".to_owned());
    manager.workspaces[0] = deep;
    assert!(!tag_propagates_shallowly(&manager, &"1".to_owned()));
}
