use easymo_shell::registry::{RegistryError, WindowAction, WindowConfig, WindowRegistry};

fn config(label: &str) -> WindowConfig {
    WindowConfig {
        label: label.to_string(),
        url: format!("/windows/{}", label),
        title: label.to_string(),
        width: None,
        height: None,
    }
}

#[test]
fn create_then_list() {
    let mut reg = WindowRegistry::new();
    assert!(matches!(reg.create(config("main")), WindowAction::Create(_)));
    assert!(matches!(reg.create(config("settings")), WindowAction::Create(_)));
    assert_eq!(reg.list(), vec!["main".to_string(), "settings".to_string()]);
}

#[test]
fn same_label_creates_once_and_focuses() {
    let mut reg = WindowRegistry::new();
    let first = reg.create(config("main"));
    assert!(matches!(first, WindowAction::Create(_)));
    let second = reg.create(config("main"));
    match second {
        WindowAction::Focus(label) => assert_eq!(label, "main"),
        WindowAction::Create(_) => panic!("a duplicate label must not create a window"),
    }
    assert_eq!(reg.list().len(), 1);
}

#[test]
fn default_dimensions_are_applied() {
    let mut reg = WindowRegistry::new();
    match reg.create(config("main")) {
        WindowAction::Create(entry) => {
            assert_eq!(entry.width, 800);
            assert_eq!(entry.height, 600);
        },
        WindowAction::Focus(_) => panic!("a fresh label must create"),
    }
    let mut sized = config("sized");
    sized.width = Some(1024);
    sized.height = Some(768);
    match reg.create(sized) {
        WindowAction::Create(entry) => {
            assert_eq!(entry.width, 1024);
            assert_eq!(entry.height, 768);
        },
        WindowAction::Focus(_) => panic!("a fresh label must create"),
    }
}

#[test]
fn close_missing_label_is_not_an_error() {
    let mut reg = WindowRegistry::new();
    assert!(!reg.close("ghost"));
    reg.create(config("main"));
    assert!(reg.close("main"));
    assert_eq!(reg.list().len(), 0);
    assert!(!reg.close("main"));
}

#[test]
fn focus_missing_label_is_an_error() {
    let mut reg = WindowRegistry::new();
    match reg.focus("ghost").unwrap_err() {
        RegistryError::NotFound(label) => assert_eq!(label, "ghost"),
    }
    reg.create(config("main"));
    assert!(reg.focus("main").is_ok());
}

#[test]
fn close_then_recreate() {
    let mut reg = WindowRegistry::new();
    reg.create(config("a"));
    reg.create(config("b"));
    assert!(reg.close("a"));
    assert_eq!(reg.list(), vec!["b".to_string()]);
    assert!(matches!(reg.create(config("a")), WindowAction::Create(_)));
    assert_eq!(reg.list(), vec!["b".to_string(), "a".to_string()]);
}

#[test]
fn contains_tracks_open_windows() {
    let mut reg = WindowRegistry::new();
    assert!(!reg.contains("main"));
    reg.create(config("main"));
    assert!(reg.contains("main"));
    reg.close("main");
    assert!(!reg.contains("main"));
}
