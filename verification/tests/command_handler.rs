use wmstate::command::Command;
use wmstate::command_handler::process;
use wmstate::display_action::DisplayAction;
use wmstate::focus_handler::focus_window;
use wmstate::models::{Manager, Screen, Window, WindowHandle};
use wmstate::screen_create_handler;
use wmstate::window_handler;

#[test]
fn move_to_tag_without_focused_window_returns_false() {
    let mut manager = Manager::default();
    screen_create_handler::process(&mut manager, Screen::default());
    window_handler::created(&mut manager, Window::new(WindowHandle::MockHandle(1), None));
    let handled = process(&mut manager, Command::MoveToTag, Some("2".to_owned()));
    assert!(!handled);
    assert_eq!(manager.windows[0].tags.len(), 0);
}

#[test]
fn move_to_tag_without_value_returns_false() {
    let mut manager = Manager::default();
    let window = Window::new(WindowHandle::MockHandle(1), None);
    window_handler::created(&mut manager, window.clone());
    focus_window(&mut manager, &window);
    let handled = process(&mut manager, Command::MoveToTag, None);
    assert!(!handled);
    assert_eq!(manager.windows[0].tags.len(), 0);
}

#[test]
fn move_to_tag_retags_the_focused_window() {
    let mut manager = Manager::default();
    screen_create_handler::process(&mut manager, Screen::default());
    let mut window = Window::new(WindowHandle::MockHandle(7), None);
    window.tag("1".to_owned());
    window_handler::created(&mut manager, window.clone());
    focus_window(&mut manager, &window);
    let handled = process(&mut manager, Command::MoveToTag, Some("2".to_owned()));
    assert!(handled);
    assert_eq!(manager.windows[0].tags, vec!["2".to_owned()]);
}

#[test]
fn goto_tag_without_value_returns_false() {
    let mut manager = Manager::default();
    screen_create_handler::process(&mut manager, Screen::default());
    let handled = process(&mut manager, Command::GotoTag, None);
    assert!(!handled);
    assert_eq!(manager.focused_tag_history.len(), 0);
}

#[test]
fn goto_tag_focuses_the_tag_and_its_workspace() {
    let mut manager = Manager::default();
    screen_create_handler::process(&mut manager, Screen::default());
    screen_create_handler::process(&mut manager, Screen::default());
    let handled = process(&mut manager, Command::GotoTag, Some("2".to_owned()));
    assert!(handled);
    assert_eq!(manager.focused_tag().unwrap(), "2".to_owned());
    assert_eq!(manager.focused_workspace().unwrap().name, "1".to_owned());
}

#[test]
fn execute_returns_false_even_with_a_value() {
    let mut manager = Manager::default();
    let handled = process(&mut manager, Command::Execute, Some("true".to_owned()));
    assert!(!handled);
}

#[test]
fn execute_without_value_returns_false_and_spawns_nothing() {
    let mut manager = Manager::default();
    let handled = process(&mut manager, Command::Execute, None);
    assert!(!handled);
    assert_eq!(manager.actions.len(), 0);
}

#[test]
fn close_window_without_focused_window_enqueues_nothing() {
    let mut manager = Manager::default();
    window_handler::created(&mut manager, Window::new(WindowHandle::MockHandle(3), None));
    let handled = process(&mut manager, Command::CloseWindow, None);
    assert!(!handled);
    assert_eq!(manager.actions.len(), 0);
}

#[test]
fn close_window_enqueues_a_kill_for_the_focused_window() {
    let mut manager = Manager::default();
    let window = Window::new(WindowHandle::MockHandle(3), None);
    window_handler::created(&mut manager, window.clone());
    focus_window(&mut manager, &window);
    let handled = process(&mut manager, Command::CloseWindow, None);
    assert!(!handled);
    assert_eq!(
        manager.actions,
        vec![DisplayAction::KillWindow(WindowHandle::MockHandle(3))]
    );
}

#[test]
fn swap_tags_returns_false() {
    let mut manager = Manager::default();
    let handled = process(&mut manager, Command::SwapTags, None);
    assert!(!handled);
}
