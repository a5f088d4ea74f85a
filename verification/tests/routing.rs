use easymo_shell::dispatch::{DispatchError, Dispatcher, EventPayload, EventTarget};
use easymo_shell::registry::{WindowConfig, WindowRegistry};
use easymo_shell::router::{handle_activation, handle_file_open, is_easymo_path};

fn registry_with(labels: &[&str]) -> WindowRegistry {
    let mut reg = WindowRegistry::new();
    for label in labels {
        reg.create(WindowConfig {
            label: label.to_string(),
            url: "/".to_string(),
            title: label.to_string(),
            width: None,
            height: None,
        });
    }
    reg
}

#[test]
fn activation_emits_exactly_one_deep_link_event() {
    let reg = registry_with(&["main", "second"]);
    let mut d = Dispatcher::new();
    handle_activation(&mut d, &reg, "easymo://open-report?id=42");
    assert_eq!(d.log.len(), 1);
    let em = &d.log[0];
    assert_eq!(em.event, "deep-link");
    assert!(matches!(em.target, EventTarget::All));
    match &em.payload {
        EventPayload::Link(link) => {
            assert_eq!(link.action, "open-report");
            assert_eq!(link.params.len(), 1);
            assert_eq!(link.get("id"), Some(&"42".to_string()));
        },
        _ => panic!("the payload must carry the parsed link"),
    }
}

#[test]
fn failed_activation_is_swallowed() {
    let reg = registry_with(&["main"]);
    let mut d = Dispatcher::new();
    handle_activation(&mut d, &reg, "https://not-ours");
    handle_activation(&mut d, &reg, "easymo://");
    handle_activation(&mut d, &reg, "easymo://a?x=%FF");
    assert_eq!(d.log.len(), 0);
}

#[test]
fn emit_to_missing_window_is_an_error() {
    let reg = registry_with(&["main"]);
    let mut d = Dispatcher::new();
    let r = d.emit(
        &reg,
        "ping".to_string(),
        EventPayload::Empty,
        EventTarget::Window("ghost".to_string()),
    );
    match r.unwrap_err() {
        DispatchError::NoSuchWindow(label) => assert_eq!(label, "ghost"),
    }
    assert_eq!(d.log.len(), 0);
}

#[test]
fn emit_to_open_window_succeeds() {
    let reg = registry_with(&["main"]);
    let mut d = Dispatcher::new();
    d.emit(
        &reg,
        "ping".to_string(),
        EventPayload::Text("hi".to_string()),
        EventTarget::Window("main".to_string()),
    )
    .unwrap();
    assert_eq!(d.log.len(), 1);
    assert_eq!(d.log[0].event, "ping");
}

#[test]
fn emissions_keep_call_order() {
    let reg = registry_with(&["main"]);
    let mut d = Dispatcher::new();
    d.emit(&reg, "first".to_string(), EventPayload::Empty, EventTarget::All).unwrap();
    d.emit(&reg, "second".to_string(), EventPayload::Empty, EventTarget::All).unwrap();
    assert_eq!(d.log[0].event, "first");
    assert_eq!(d.log[1].event, "second");
}

#[test]
fn extension_filter() {
    assert!(is_easymo_path("/tmp/report.easymo"));
    assert!(is_easymo_path("orders.easymo"));
    assert!(is_easymo_path("/a/b.c/d.old.easymo"));
    assert!(!is_easymo_path("/tmp/report.txt"));
    assert!(!is_easymo_path("easymo"));
    assert!(!is_easymo_path(".easymo"));
    assert!(!is_easymo_path("/dir/.easymo"));
    assert!(!is_easymo_path(""));
}

#[test]
fn file_open_emits_one_event_per_matching_path() {
    let reg = registry_with(&["main"]);
    let mut d = Dispatcher::new();
    let paths = vec![
        "/tmp/a.easymo".to_string(),
        "/tmp/b.txt".to_string(),
        "report.easymo".to_string(),
        ".easymo".to_string(),
    ];
    handle_file_open(&mut d, &reg, &paths);
    assert_eq!(d.log.len(), 2);
    assert_eq!(d.log[0].event, "file-open");
    match &d.log[0].payload {
        EventPayload::Text(p) => assert_eq!(p, "/tmp/a.easymo"),
        _ => panic!("the payload must carry the path"),
    }
    match &d.log[1].payload {
        EventPayload::Text(p) => assert_eq!(p, "report.easymo"),
        _ => panic!("the payload must carry the path"),
    }
}
