use markpad::dark_modern_colors;
use markpad::light_modern_colors;
use markpad::Theme;

#[test]
fn test_theme_default() {
    let theme = Theme::default();
    assert_eq!(theme, Theme::DarkModern);
}

#[test]
fn test_theme_display() {
    assert_eq!(Theme::DarkModern.name(), "dark-modern");
    assert_eq!(Theme::LightModern.name(), "light-modern");
}

#[test]
fn test_theme_from_str() {
    assert_eq!("dark-modern".parse::<Theme>(), Ok(Theme::DarkModern));
    assert_eq!("dark".parse::<Theme>(), Ok(Theme::DarkModern));
    assert_eq!("light-modern".parse::<Theme>(), Ok(Theme::LightModern));
    assert_eq!("light".parse::<Theme>(), Ok(Theme::LightModern));
    assert!("unknown".parse::<Theme>().is_err());
}

#[test]
fn test_theme_colors() {
    let dark = Theme::DarkModern.colors();
    assert!(dark.get("keyword").is_some());
    assert!(dark.get("string").is_some());
    assert!(dark.get("comment").is_some());
}

#[test]
fn test_css_class_mapping() {
    assert_eq!(
        Theme::DarkModern.css_class("keyword"),
        Some("ts-keyword".to_string())
    );
    assert_eq!(
        Theme::DarkModern.css_class("string"),
        Some("ts-string".to_string())
    );
    assert_eq!(
        Theme::DarkModern.css_class("comment"),
        Some("ts-comment".to_string())
    );
    assert_eq!(Theme::DarkModern.css_class("unknown"), None);
}

#[test]
fn test_captured_names() {
    let names = Theme::DarkModern.captured_names();
    assert!(!names.is_empty());
    assert!(names.contains(&"keyword".to_string()));
    assert!(names.contains(&"string".to_string()));
}

#[test]
fn test_css_variables() {
    let vars = Theme::DarkModern.css_variables();
    assert!(vars.contains("--ts-keyword"));
    assert!(vars.contains("--ts-string"));
    assert!(vars.contains("--ts-comment"));
}

#[test]
fn test_css_class_for_index() {
    let theme = Theme::DarkModern;
    let names = theme.captured_names();
    if !names.is_empty() {
        let class = theme.css_class_for_index(0);
        assert!(class.starts_with("ts-"));
    }
}

#[test]
fn test_dark_modern_colors() {
    let colors = Theme::DarkModern.colors();
    let keyword = colors.get("keyword").unwrap();
    assert!(keyword.starts_with('#'));
}

#[test]
fn test_light_modern_colors() {
    let colors = Theme::LightModern.colors();
    let keyword = colors.get("keyword").unwrap();
    assert!(keyword.starts_with('#'));
}

#[test]
fn test_css_class_for_out_of_bounds() {
    let theme = Theme::DarkModern;
    let class = theme.css_class_for_index(1000);
    assert_eq!(class, "ts-default");
}

#[test]
fn test_light_theme_css_variables() {
    let vars = Theme::LightModern.css_variables();
    assert!(vars.contains("--ts-keyword"));
    assert!(vars.contains("#0000FF"));
}

#[test]
fn test_capture_to_css_mapping() {
    assert_eq!(
        Theme::DarkModern.css_class("keyword"),
        Some("ts-keyword".to_string())
    );
    assert_eq!(
        Theme::DarkModern.css_class("string"),
        Some("ts-string".to_string())
    );
    assert_eq!(
        Theme::DarkModern.css_class("comment"),
        Some("ts-comment".to_string())
    );
    assert_eq!(
        Theme::DarkModern.css_class("function"),
        Some("ts-function".to_string())
    );
    assert_eq!(
        Theme::DarkModern.css_class("type"),
        Some("ts-type".to_string())
    );
    assert_eq!(
        Theme::DarkModern.css_class("variable"),
        Some("ts-variable".to_string())
    );
    assert_eq!(
        Theme::DarkModern.css_class("constant.numeric"),
        Some("ts-number".to_string())
    );
    assert_eq!(
        Theme::DarkModern.css_class("operator"),
        Some("ts-operator".to_string())
    );
}

#[test]
fn test_dark_modern_background() {
    assert_eq!(dark_modern_colors().background, "#1E1E1E");
}

#[test]
fn test_dark_modern_foreground() {
    assert_eq!(dark_modern_colors().foreground, "#D4D4D4");
}

#[test]
fn test_dark_modern_keyword_color() {
    let colors = dark_modern_colors();
    let color = colors.get("keyword");
    assert_eq!(color, Some("#569CD6".to_string()));
}

#[test]
fn test_dark_modern_string_color() {
    let colors = dark_modern_colors();
    let color = colors.get("string");
    assert_eq!(color, Some("#CE9178".to_string()));
}

#[test]
fn test_dark_modern_comment_color() {
    let colors = dark_modern_colors();
    let color = colors.get("comment");
    assert_eq!(color, Some("#6A9955".to_string()));
}

#[test]
fn test_dark_modern_function_color() {
    let colors = dark_modern_colors();
    let color = colors.get("function");
    assert_eq!(color, Some("#DCDCAA".to_string()));
}

#[test]
fn test_dark_modern_type_color() {
    let colors = dark_modern_colors();
    let color = colors.get("type");
    assert_eq!(color, Some("#4EC9B0".to_string()));
}

#[test]
fn test_light_modern_background() {
    assert_eq!(light_modern_colors().background, "#FFFFFF");
}

#[test]
fn test_light_modern_foreground() {
    assert_eq!(light_modern_colors().foreground, "#000000");
}

#[test]
fn test_light_modern_keyword_color() {
    let colors = light_modern_colors();
    let color = colors.get("keyword");
    assert_eq!(color, Some("#0000FF".to_string()));
}

#[test]
fn test_light_modern_string_color() {
    let colors = light_modern_colors();
    let color = colors.get("string");
    assert_eq!(color, Some("#A31515".to_string()));
}

#[test]
fn test_light_modern_comment_color() {
    let colors = light_modern_colors();
    let color = colors.get("comment");
    assert_eq!(color, Some("#008000".to_string()));
}

#[test]
fn test_light_modern_function_color() {
    let colors = light_modern_colors();
    let color = colors.get("function");
    assert_eq!(color, Some("#795E26".to_string()));
}

#[test]
fn test_light_modern_type_color() {
    let colors = light_modern_colors();
    let color = colors.get("type");
    assert_eq!(color, Some("#267F99".to_string()));
}

#[test]
fn test_theme_from_str_error_message() {
    let err = "unknown".parse::<Theme>().unwrap_err();
    assert_eq!(err, "Unknown theme: unknown");
}
