use keylight_commander::json::object_members;
use keylight_commander::i18n::{catalog, catalog_from_members, text, Language, Locale, Message};

#[test]
fn system_language_and_manual_override() {
    for value in ["de", "de_DE.UTF-8", "de-CH", "DE_at"] {
        assert_eq!(Language::System.resolve(Some(value)), Locale::De);
    }
    for value in [
        None,
        Some("en-US"),
        Some("fr_FR"),
        Some("C"),
        Some("unknown"),
    ] {
        assert_eq!(Language::System.resolve(value), Locale::En);
    }
    assert_eq!(Language::En.resolve(Some("de_DE")), Locale::En);
    assert_eq!(Language::De.resolve(Some("en_US")), Locale::De);
}

#[test]
fn existing_message_retranslates_and_keeps_parameters_literal() {
    let message = Message::new("error.partial")
        .param("succeeded", "1")
        .param("failed", "1")
        .cause(
            Message::new("error.device")
                .param("name", "My {name} light")
                .cause(Message::new("error.invalid_setting")),
        );
    assert!(message.render(Locale::En).contains("Invalid light setting"));
    assert!(message
        .render(Locale::De)
        .contains("Ungültige Lampeneinstellung"));
    assert!(message.render(Locale::De).contains("My {name} light"));
}

#[test]
fn resolve_edge_cases() {
    assert_eq!(Language::System.resolve(Some("")), Locale::En);
    assert_eq!(Language::System.resolve(Some("deu")), Locale::En);
    assert_eq!(Language::System.resolve(Some("dE@euro")), Locale::De);
    assert_eq!(Language::System.resolve(Some("d")), Locale::En);
    assert_eq!(Language::System.resolve(Some("de.UTF-8")), Locale::De);
}

#[test]
fn current_follows_a_fixed_language() {
    assert_eq!(Language::De.current(), Locale::De);
    assert_eq!(Language::En.current(), Locale::En);
}

#[test]
fn rendering_substitutes_each_token_once() {
    let m = Message::new("error.device").param("name", "Desk");
    assert_eq!(m.render(Locale::En), "Desk");
    let nested = Message::new("error.device")
        .param("name", "{name}")
        .param("name", "Lamp {x}");
    assert_eq!(nested.render(Locale::En), "Lamp {x}");
    let unknown = Message::new("literal {open and {known} {missing}").param("known", "yes");
    assert_eq!(unknown.render(Locale::En), "literal {open and {known} {missing}");
    let key_template = Message::new("a {x} b {y").param("x", "1");
    assert_eq!(key_template.render(Locale::De), "a 1 b {y");
}

#[test]
fn causes_are_joined_after_a_colon() {
    let m = Message::new("error.scan")
        .cause(Message::new("error.no_lights"))
        .cause(Message::new("error.unknown_light"));
    assert_eq!(
        m.render(Locale::En),
        "The search failed: The device reports no light; Unknown light"
    );
    let technical = Message::from_details("timeout {x}");
    assert_eq!(technical.render(Locale::De), "timeout {x}");
}

#[test]
fn texts_fall_back_to_english_then_to_the_key() {
    assert_eq!(text(Locale::De, "quit"), "Beenden");
    assert_eq!(text(Locale::En, "quit"), "Quit");
    assert_eq!(text(Locale::De, "no.such.key"), "no.such.key");
}

#[test]
fn catalogs_have_the_same_keys_and_placeholders() {
    let de = catalog(Locale::De);
    let en = catalog(Locale::En);
    assert!(!en.is_empty());
    assert_eq!(de.len(), en.len());
    for ((dk, dv), (ek, ev)) in de.iter().zip(en.iter()) {
        assert_eq!(dk, ek);
        let braces = |s: &str| s.chars().filter(|c| *c == '{' || *c == '}').count();
        assert_eq!(braces(dv), braces(ev), "{dk}");
    }
}

#[test]
fn clones_render_alike() {
    let m = Message::new("error.partial")
        .param("succeeded", "2")
        .param("failed", "3")
        .cause(Message::new("error.no_identity"));
    let c = m.clone();
    assert_eq!(c.render(Locale::En), m.render(Locale::En));
    assert_eq!(c.render(Locale::En), "2 succeeded, 3 failed: The light reports neither a serial number nor a MAC address");
}

#[test]
fn catalogs_need_string_values() {
    let ok = catalog_from_members(object_members(r#"{"a":"x","b":"y"}"#));
    assert_eq!(ok.len(), 2);
    assert!(catalog_from_members(object_members(r#"{"a":"x","b":1}"#)).is_empty());
    assert!(catalog_from_members(object_members("[]")).is_empty());
}
