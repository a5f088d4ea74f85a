use easymo_shell::links::decode_value;
use easymo_shell::menu::{app_menu, menu_action, MenuAction, MenuEntry, MenuError};
use easymo_shell::platform::PlatformInfo;
use easymo_shell::updates::{
    download_decision, progress_percent, update_info_from_check, RemoteUpdate, UpdateError,
};

#[test]
fn menu_ids_map_to_actions() {
    match menu_action("open").unwrap() {
        MenuAction::Emit(e) => assert_eq!(e, "menu-open"),
        _ => panic!("opening emits an event"),
    }
    match menu_action("new_window").unwrap() {
        MenuAction::Emit(e) => assert_eq!(e, "menu-new-window"),
        _ => panic!("a new window is requested via an event"),
    }
    assert!(matches!(menu_action("fullscreen").unwrap(), MenuAction::ToggleFullscreen));
    assert!(matches!(menu_action("dev_tools").unwrap(), MenuAction::OpenDevTools));
    assert!(matches!(menu_action("minimize").unwrap(), MenuAction::Minimize));
    assert!(matches!(menu_action("minimize_to_tray").unwrap(), MenuAction::Hide));
    assert!(matches!(menu_action("zoom").unwrap(), MenuAction::ToggleMaximize));
}

#[test]
fn unknown_menu_id_is_an_error() {
    match menu_action("bogus").unwrap_err() {
        MenuError::UnknownItem(id) => assert_eq!(id, "bogus"),
    }
}

#[test]
fn app_menu_has_five_submenus_with_recognized_ids() {
    let menu = app_menu();
    assert_eq!(menu.len(), 5);
    let titles: Vec<&str> = menu.iter().map(|s| s.title.as_str()).collect();
    assert_eq!(titles, vec!["File", "Edit", "View", "Window", "Help"]);
    let mut ids = Vec::new();
    for submenu in &menu {
        for entry in &submenu.entries {
            if let MenuEntry::Action { id, .. } = entry {
                assert!(menu_action(id).is_ok(), "menu id must be recognized");
                ids.push(id.clone());
            }
        }
    }
    let count = ids.len();
    ids.sort();
    ids.dedup();
    assert_eq!(ids.len(), count, "menu ids must be unique");
}

#[test]
fn app_menu_matches_the_written_layout() {
    let menu = app_menu();
    let file = &menu[0];
    assert_eq!(file.title, "File");
    assert_eq!(file.entries.len(), 8);
    match &file.entries[2] {
        MenuEntry::Action { id, title, accelerator } => {
            assert_eq!(id, "open");
            assert_eq!(title, "Open...");
            assert_eq!(accelerator.as_deref(), Some("CmdOrCtrl+O"));
        },
        _ => panic!("the third File entry opens a file"),
    }
    assert!(matches!(file.entries[1], MenuEntry::Separator));
    let window = &menu[3];
    assert_eq!(window.title, "Window");
    match &window.entries[1] {
        MenuEntry::Action { id, accelerator, .. } => {
            assert_eq!(id, "minimize_to_tray");
            assert_eq!(accelerator.as_deref(), None);
        },
        _ => panic!("the second Window entry minimizes to the tray"),
    }
}

#[test]
fn download_needs_a_found_update() {
    assert!(download_decision(true).is_ok());
    let err = download_decision(false).unwrap_err();
    assert_eq!(err, UpdateError::NoUpdate);
    assert_eq!(err.message(), "No updates available");
}

#[test]
fn decode_value_matches_the_parser() {
    assert_eq!(decode_value("plain"), Some("plain".to_string()));
    assert_eq!(decode_value("a%20b"), Some("a b".to_string()));
    assert_eq!(decode_value("%FF"), None);
}

#[test]
fn update_info_when_an_update_exists() {
    let info = update_info_from_check(
        Some(RemoteUpdate {
            version: "2.0.0".to_string(),
            current_version: "1.0.0".to_string(),
            download_url: "https://example.invalid/pkg".to_string(),
            body: Some("notes".to_string()),
        }),
        "1.0.0".to_string(),
    );
    assert!(info.available);
    assert_eq!(info.version, "2.0.0");
    assert_eq!(info.current_version, "1.0.0");
    assert_eq!(info.download_url, Some("https://example.invalid/pkg".to_string()));
    assert_eq!(info.release_notes, Some("notes".to_string()));
}

#[test]
fn update_info_when_current() {
    let info = update_info_from_check(None, "1.2.3".to_string());
    assert!(!info.available);
    assert_eq!(info.version, "1.2.3");
    assert_eq!(info.current_version, "1.2.3");
    assert_eq!(info.download_url, None);
    assert_eq!(info.release_notes, None);
}

#[test]
fn progress_is_a_truncated_percentage() {
    assert_eq!(progress_percent(0, 100), 0);
    assert_eq!(progress_percent(50, 100), 50);
    assert_eq!(progress_percent(1, 3), 33);
    assert_eq!(progress_percent(2, 3), 66);
    assert_eq!(progress_percent(100, 100), 100);
    assert_eq!(progress_percent(7, 7), 100);
    assert_eq!(progress_percent(u64::MAX - 1, u64::MAX), 99);
}

#[test]
fn platform_info_keeps_its_fields() {
    let info = PlatformInfo::new("linux".to_string(), "x86_64".to_string(), "6.1".to_string());
    assert_eq!(info.platform, "linux");
    assert_eq!(info.arch, "x86_64");
    assert_eq!(info.version, "6.1");
}
