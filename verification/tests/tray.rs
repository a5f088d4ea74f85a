use easymo_shell::tray::{
    tray_click_shows_main, tray_menu, tray_menu_action, TrayButton, TrayButtonState,
    TrayMenuAction, TrayState, TrayStatus,
};

#[test]
fn starts_default() {
    let tray = TrayState::new();
    assert_eq!(tray.status, TrayStatus::Default);
}

#[test]
fn status_updates_set_tooltip() {
    let mut tray = TrayState::new();
    assert_eq!(tray.set("online"), "EasyMO Admin - Online");
    assert_eq!(tray.status, TrayStatus::Online);
    assert_eq!(tray.set("offline"), "EasyMO Admin - Offline");
    assert_eq!(tray.status, TrayStatus::Offline);
    assert_eq!(tray.set("busy"), "EasyMO Admin - Processing...");
    assert_eq!(tray.status, TrayStatus::Busy);
}

#[test]
fn setting_same_status_twice_changes_nothing() {
    let mut tray = TrayState::new();
    let first = tray.set("online");
    let status_after_first = tray.status;
    let second = tray.set("online");
    assert_eq!(first, second);
    assert_eq!(tray.status, status_after_first);
}

#[test]
fn unknown_status_falls_back_to_default() {
    let mut tray = TrayState::new();
    tray.set("busy");
    assert_eq!(tray.set("sleeping"), "EasyMO Admin");
    assert_eq!(tray.status, TrayStatus::Default);
}

#[test]
fn status_strings_are_exact() {
    let mut tray = TrayState::new();
    assert_eq!(tray.set("Online"), "EasyMO Admin");
    assert_eq!(tray.status, TrayStatus::Default);
}

#[test]
fn tray_menu_ids_map_to_actions() {
    assert_eq!(tray_menu_action("quit"), TrayMenuAction::Quit);
    assert_eq!(tray_menu_action("show"), TrayMenuAction::ShowMain);
    assert_eq!(tray_menu_action("hide"), TrayMenuAction::HideMain);
    assert_eq!(tray_menu_action("other"), TrayMenuAction::Ignore);
}

#[test]
fn tray_menu_holds_its_three_items() {
    let items = tray_menu();
    assert_eq!(
        items,
        vec![
            ("show".to_string(), "Show Window".to_string()),
            ("hide".to_string(), "Hide Window".to_string()),
            ("quit".to_string(), "Quit EasyMO Admin".to_string()),
        ]
    );
    for (id, _) in &items {
        assert_ne!(tray_menu_action(id), TrayMenuAction::Ignore);
    }
}

#[test]
fn only_releasing_the_left_button_shows_main() {
    assert!(tray_click_shows_main(TrayButton::Left, TrayButtonState::Up));
    assert!(!tray_click_shows_main(TrayButton::Left, TrayButtonState::Down));
    assert!(!tray_click_shows_main(TrayButton::Right, TrayButtonState::Up));
    assert!(!tray_click_shows_main(TrayButton::Middle, TrayButtonState::Up));
}
