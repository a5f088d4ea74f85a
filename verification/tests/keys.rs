use easymo_shell::keys::{
    parse_key_code, palette_binding, resolve, shortcut_emission, KeyCode, ModSet, ResolveError,
    ShortcutState,
};

fn mods(ctrl: bool, shift: bool, alt: bool, meta: bool) -> ModSet {
    ModSet { ctrl, shift, alt, meta }
}

#[test]
fn resolve_is_pure() {
    let first = resolve(&vec!["ctrl".to_string(), "shift".to_string()], "k").unwrap();
    let second = resolve(&vec!["ctrl".to_string(), "shift".to_string()], "k").unwrap();
    assert_eq!(first, second);
    assert_eq!(first.code, KeyCode::KeyK);
    assert_eq!(first.mods, mods(true, true, false, false));
}

#[test]
fn unknown_key_is_an_error() {
    match resolve(&vec![], "plus").unwrap_err() {
        ResolveError::UnknownKey(name) => assert_eq!(name, "plus"),
    }
}

#[test]
fn modifier_synonyms_fold() {
    let a = resolve(&vec!["control".to_string()], "a").unwrap();
    let b = resolve(&vec!["ctrl".to_string()], "a").unwrap();
    assert_eq!(a, b);
    let a = resolve(&vec!["option".to_string()], "a").unwrap();
    let b = resolve(&vec!["alt".to_string()], "a").unwrap();
    assert_eq!(a, b);
    let a = resolve(&vec!["cmd".to_string()], "a").unwrap();
    let b = resolve(&vec!["meta".to_string()], "a").unwrap();
    let c = resolve(&vec!["super".to_string()], "a").unwrap();
    assert_eq!(a, b);
    assert_eq!(b, c);
}

#[test]
fn modifiers_fold_case_insensitively() {
    let a = resolve(&vec!["CTRL".to_string(), "Shift".to_string()], "a").unwrap();
    assert_eq!(a.mods, mods(true, true, false, false));
}

#[test]
fn unknown_modifiers_are_ignored() {
    let a = resolve(&vec!["hyper".to_string(), "ctrl".to_string()], "a").unwrap();
    assert_eq!(a.mods, mods(true, false, false, false));
    let b = resolve(&vec!["hyper".to_string()], "a").unwrap();
    assert_eq!(b.mods, mods(false, false, false, false));
}

#[test]
fn key_table_letters_digits() {
    assert_eq!(parse_key_code("a").unwrap(), KeyCode::KeyA);
    assert_eq!(parse_key_code("Z").unwrap(), KeyCode::KeyZ);
    assert_eq!(parse_key_code("0").unwrap(), KeyCode::Digit0);
    assert_eq!(parse_key_code("9").unwrap(), KeyCode::Digit9);
}

#[test]
fn key_table_function_keys() {
    assert_eq!(parse_key_code("f1").unwrap(), KeyCode::F1);
    assert_eq!(parse_key_code("F9").unwrap(), KeyCode::F9);
    assert_eq!(parse_key_code("f10").unwrap(), KeyCode::F10);
    assert_eq!(parse_key_code("F12").unwrap(), KeyCode::F12);
}

#[test]
fn key_table_named_keys() {
    assert_eq!(parse_key_code("space").unwrap(), KeyCode::Space);
    assert_eq!(parse_key_code("ENTER").unwrap(), KeyCode::Enter);
    assert_eq!(parse_key_code("Escape").unwrap(), KeyCode::Escape);
    assert_eq!(parse_key_code("tab").unwrap(), KeyCode::Tab);
}

#[test]
fn key_table_rejects_unknown_names() {
    assert!(parse_key_code("f13").is_err());
    assert!(parse_key_code("spacebar").is_err());
    assert!(parse_key_code("").is_err());
    assert!(parse_key_code("f0").is_err());
}

#[test]
fn key_names_fold_with_unicode_lowercasing() {
    // U+212A (the Kelvin sign) lowercases to 'k'.
    assert_eq!(parse_key_code("\u{212A}").unwrap(), KeyCode::KeyK);
    // U+0130 lowercases to two characters, which no key name matches.
    assert!(parse_key_code("\u{130}").is_err());
    // U+017F (long s) is already lowercase, so it stays itself and
    // matches no key name.
    assert!(parse_key_code("\u{17F}").is_err());
}

#[test]
fn modifiers_fold_with_unicode_lowercasing() {
    // U+017F is already lowercase, so the name stays unrecognized and
    // is ignored, exactly as lowercasing defines it.
    let a = resolve(&vec!["\u{17F}hift".to_string(), "ctrl".to_string()], "a").unwrap();
    assert_eq!(a.mods, mods(true, false, false, false));
}

#[test]
fn only_a_press_emits_the_shortcut() {
    assert_eq!(
        shortcut_emission(ShortcutState::Pressed, "palette".to_string()),
        Some("palette".to_string())
    );
    assert_eq!(shortcut_emission(ShortcutState::Released, "palette".to_string()), None);
}

#[test]
fn palette_binding_per_platform() {
    let mac = palette_binding(true);
    assert_eq!(mac.code, KeyCode::KeyK);
    assert_eq!(mac.mods, mods(false, false, false, true));
    let other = palette_binding(false);
    assert_eq!(other.code, KeyCode::KeyK);
    assert_eq!(other.mods, mods(true, false, false, false));
}
