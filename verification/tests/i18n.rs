use zound::i18n::{ui_key_list, I18n};

const RU: &str = "app-title = Звук\nnav-sync = Синхронизация\nnot-a-ui-key = x\n";
const EN: &str = "app-title = Zound\nengine-start = Start\nnav-sync =\n    .tooltip = Sync\n";

fn i18n() -> I18n {
    I18n::from_ftl(RU, EN).unwrap()
}

#[test]
fn russian_is_the_initial_language() {
    let t = i18n();
    assert_eq!(t.current_language(), "ru");
}

#[test]
fn only_known_languages_are_chosen() {
    let mut t = i18n();
    t.set_language("en");
    assert_eq!(t.current_language(), "en");
    t.set_language("de");
    assert_eq!(t.current_language(), "en");
    t.set_language("ru");
    assert_eq!(t.current_language(), "ru");
}

#[test]
fn dictionary_has_the_translated_ui_keys_in_order() {
    let t = i18n();
    let ru = t.dictionary("ru");
    assert_eq!(
        ru,
        vec![
            ("app-title".to_string(), "Звук".to_string()),
            ("nav-sync".to_string(), "Синхронизация".to_string()),
        ]
    );
    // A message without a value (only an attribute) is left out.
    let en = t.dictionary("en");
    assert_eq!(
        en,
        vec![
            ("app-title".to_string(), "Zound".to_string()),
            ("engine-start".to_string(), "Start".to_string()),
        ]
    );
    // Any other language is served from the English bundle.
    assert_eq!(t.dictionary("fr"), en);
}

#[test]
fn ui_keys_are_distinct() {
    let keys = ui_key_list();
    assert_eq!(keys.len(), 30);
    for (i, a) in keys.iter().enumerate() {
        for b in &keys[i + 1..] {
            assert_ne!(a, b);
        }
    }
}

#[test]
fn broken_ftl_is_refused() {
    assert!(I18n::from_ftl("app-title = = =\n{", EN).is_err());
    assert!(I18n::from_ftl(RU, "app-title = A\napp-title = B\n").is_err());
    assert!(I18n::from_ftl(RU, EN).is_ok());
}

#[test]
fn bundle_for_formatting_follows_the_language() {
    let t = i18n();
    assert!(t.bundle("ru").get_message("not-a-ui-key").is_some());
    assert!(t.bundle("en").get_message("not-a-ui-key").is_none());
    assert!(t.bundle("de").get_message("engine-start").is_some());
}
