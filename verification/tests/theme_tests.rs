use fresh::theme::{add_theme_names, Theme};

#[test]
fn found_theme_names_are_added_once() {
    let mut themes = Theme::embedded_themes();
    add_theme_names(&mut themes, vec!["monokai".to_string(), "dark".to_string(), "monokai".to_string()]);
    add_theme_names(&mut themes, vec!["solar".to_string(), "light".to_string()]);
    assert_eq!(themes, vec!["dark", "light", "high-contrast", "nostalgia", "monokai", "solar"]);
}

#[test]
fn a_theme_file_wins_over_the_built_in_theme() {
    let mut custom = Theme::dark();
    custom.name = "light".to_string();
    let from_file = Theme::from_name_or_file("Light", Some(custom));
    assert_eq!(from_file.name, "light");
    assert_eq!(from_file.syntax_keyword, Theme::dark().syntax_keyword);
    let built_in = Theme::from_name_or_file("Light", None);
    assert_eq!(built_in.syntax_keyword, Theme::light().syntax_keyword);
    assert_eq!(Theme::lookup_name("High_Contrast"), "high-contrast");
}

#[test]
fn test_invalid_json() {
    let json = "{ not valid json }";
    let result = fresh::validate::check_theme_json_syntax(json).expect("not JSON");
    assert!(!result.is_valid, "Invalid JSON should fail validation");
    assert!(
        result.errors.iter().any(|e| e.message.contains("Invalid JSON")),
        "Should mention invalid JSON: {:?}",
        result.errors
    );
}

#[test]
fn json_text_passes_the_syntax_step() {
    assert!(fresh::validate::check_theme_json_syntax("{\"name\": \"x\"}").is_none());
}
