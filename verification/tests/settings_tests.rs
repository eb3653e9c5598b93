use lastrun::settings::{all_shortcuts, basic_shortcuts, edit_setting_text, sort_settings, SettingsAction, SettingsApp, SettingsState};
use lastrun::tui::Key;

fn s(k: &str, v: &str) -> (String, String) {
    (k.to_string(), v.to_string())
}

#[test]
fn retention_row_is_always_shown() {
    let app = SettingsApp::new(Vec::new());
    assert_eq!(app.settings, vec![s("log_retention", "30d")]);
    let app = SettingsApp::new(vec![s("zeta", "1"), s("alpha", "2")]);
    assert_eq!(app.settings, vec![s("alpha", "2"), s("log_retention", "30d"), s("zeta", "1")]);
    let app = SettingsApp::new(vec![s("zeta", "1"), s("log_retention", "off")]);
    assert_eq!(app.settings, vec![s("zeta", "1"), s("log_retention", "off")]);
    assert!(matches!(app.state, SettingsState::List));
    assert!(!app.show_help);
}

#[test]
fn settings_sort_by_key_then_value() {
    let sorted = sort_settings(vec![s("b", "2"), s("a", "9"), s("b", "1"), s("ab", "0")]);
    assert_eq!(sorted, vec![s("a", "9"), s("ab", "0"), s("b", "1"), s("b", "2")]);
}

#[test]
fn editing_the_retention() {
    let mut app = SettingsApp::new(Vec::new());
    assert!(matches!(app.handle_key(Key::Enter), SettingsAction::Continue));
    match &app.state {
        SettingsState::Edit(k, v) => {
            assert_eq!(k, "log_retention");
            assert_eq!(v, "30d");
        }
        _ => panic!("expected the editor"),
    }
    app.handle_key(Key::Backspace);
    app.handle_key(Key::Backspace);
    app.handle_key(Key::Backspace);
    app.handle_key(Key::Backspace);
    app.handle_key(Key::Char(' '));
    app.handle_key(Key::Char('2'));
    app.handle_key(Key::Char('w'));
    app.handle_key(Key::Up);
    match app.handle_key(Key::Enter) {
        SettingsAction::SaveRetention(v) => assert_eq!(v, "2w"),
        _ => panic!("expected a retention save"),
    }
    // refused: stays in the editor with what was typed
    app.saved(false, Vec::new());
    match &app.state {
        SettingsState::Edit(_, v) => assert_eq!(v, " 2w"),
        _ => panic!("expected the editor"),
    }
    app.saved(true, vec![s("log_retention", "2w")]);
    assert!(matches!(app.state, SettingsState::List));
    assert_eq!(app.settings, vec![s("log_retention", "2w")]);
}

#[test]
fn editing_another_setting_and_cancelling() {
    let mut app = SettingsApp::new(vec![s("a_key", "v"), s("log_retention", "1h")]);
    app.handle_key(Key::Enter);
    app.handle_key(Key::Char('x'));
    match app.handle_key(Key::Enter) {
        SettingsAction::SaveSetting { key, value } => {
            assert_eq!(key, "a_key");
            assert_eq!(value, "vx");
        }
        _ => panic!("expected a setting save"),
    }
    assert!(matches!(app.handle_key(Key::Esc), SettingsAction::Continue));
    assert!(matches!(app.state, SettingsState::List));
    assert!(matches!(app.handle_key(Key::Char('q')), SettingsAction::Quit));
}

#[test]
fn settings_help_overlay() {
    let mut app = SettingsApp::new(Vec::new());
    app.handle_key(Key::Char('?'));
    assert!(app.show_help);
    assert!(matches!(app.handle_key(Key::Char('q')), SettingsAction::Continue));
    assert!(!app.show_help);
    assert!(matches!(app.handle_key(Key::Esc), SettingsAction::Quit));
}

#[test]
fn settings_shortcuts() {
    assert_eq!(basic_shortcuts(&SettingsState::List), vec![("Enter", "Edit"), ("?", "All Keys"), ("q/Esc", "Quit")]);
    let edit = SettingsState::Edit(String::new(), String::new());
    assert_eq!(basic_shortcuts(&edit), vec![("Enter", "Save"), ("Esc", "Cancel")]);
    assert_eq!(all_shortcuts(&edit).len(), 3);
    assert_eq!(all_shortcuts(&SettingsState::List)[0], ("Enter", "Edit Setting"));
}

#[test]
fn edit_popup_text() {
    assert_eq!(edit_setting_text("log_retention", "30"), " Edit log_retention: 30█ ");
    assert_eq!(edit_setting_text("k", ""), " Edit k: █ ");
}
