use markpad::AssetStore;
use markpad::HighlightError;
use markpad::QueryRole;
use markpad::Theme;
use markpad::TreeSitterHighlighter;

#[test]
fn test_highlighter_creation() {
    let highlighter = TreeSitterHighlighter::new();
    assert!(highlighter.supported_languages().len() > 0);
}

#[test]
fn mod_test_supported_languages() {
    let highlighter = TreeSitterHighlighter::new();
    let languages = highlighter.supported_languages();
    assert!(languages.len() > 0);
}

#[test]
fn test_case_insensitive_language_lookup() {
    let highlighter = TreeSitterHighlighter::new();

    if highlighter.is_language_supported("rust") {
        assert!(highlighter.is_language_supported("RUST"));
        assert!(highlighter.is_language_supported("Rust"));
    }
}

#[test]
fn mod_test_unsupported_language() {
    let mut highlighter = TreeSitterHighlighter::new();
    let result = highlighter.highlight("code", "nonexistent_language_xyz");
    assert!(result.is_err());
}

#[test]
fn test_theme_switching() {
    let mut highlighter = TreeSitterHighlighter::new();
    assert_eq!(highlighter.theme(), &Theme::DarkModern);

    highlighter.set_theme(Theme::LightModern);
    assert_eq!(highlighter.theme(), &Theme::LightModern);
}

#[test]
fn test_highlight_empty_code() {
    let mut highlighter = TreeSitterHighlighter::new();

    let languages = highlighter.supported_languages();
    if let Some(lang) = languages.first() {
        let result = highlighter.highlight("", lang);
        let cached = highlighter.configs.iter().any(|p| p.0 == *lang);
        assert!(result.is_ok() || !cached);
    }
}

#[test]
fn test_error_display() {
    let err = HighlightError::UnsupportedLanguage("rust".to_string());
    assert!(err.message().contains("rust"));

    let err = HighlightError::ParseError("test error".to_string());
    assert!(err.message().contains("test error"));
}

#[test]
fn test_error_variants() {
    let err = HighlightError::UnsupportedLanguage("zzz".to_string());
    assert!(matches!(err, HighlightError::UnsupportedLanguage(_)));
    let err = HighlightError::QueryError("bad query".to_string());
    assert!(err.message().contains("bad query"));
}

#[test]
fn test_typescript_support() {
    let mut highlighter = TreeSitterHighlighter::new();

    if highlighter.is_language_supported("typescript") {
        let code = "const x: number = 42;";
        let result = highlighter.highlight(code, "typescript");
        if let Ok(html) = result {
            assert!(!html.is_empty(), "TypeScript highlight should produce output");
        }
    }
}

#[test]
fn test_all_languages_detailed() {
    let mut highlighter = TreeSitterHighlighter::new();
    let languages = highlighter.supported_languages();

    let test_codes: Vec<(&str, &str)> = vec![
        ("python", "def hello():\n    pass"),
        ("javascript", "function hello() { return 1; }"),
        ("typescript", "const x: number = 1;"),
        ("tsx", "const App = () => <div/>"),
        ("rust", "fn main() {}"),
        ("c", "int main() { return 0; }"),
        ("cpp", "int main() { return 0; }"),
        ("go", "func main() {}"),
        ("java", "public class Main {}"),
        ("json", "{ \"key\": \"value\" }"),
        ("html", "<html></html>"),
        ("css", ".class { color: red; }"),
        ("bash", "#!/bin/bash\necho hello"),
    ];

    for lang in &languages {
        let code = test_codes
            .iter()
            .find(|p| p.0 == lang.as_str())
            .map(|p| p.1)
            .unwrap_or("test");
        let _ = highlighter.highlight(code, lang);
    }
}

fn rust_keyword_store() -> AssetStore {
    let mut store = AssetStore::new();
    store.add("rust", QueryRole::Highlights, "\"fn\" @keyword\n");
    store
}

#[test]
fn test_highlight_emits_theme_classes() {
    let mut h = TreeSitterHighlighter::from_assets(rust_keyword_store(), Theme::DarkModern);
    let html = h.highlight("fn main() {}", "rust").unwrap();
    assert!(html.contains("class=\"ts-"), "expected a theme class in {html:?}");
}

#[test]
fn test_highlight_empty_source_has_no_spans() {
    let mut h = TreeSitterHighlighter::from_assets(rust_keyword_store(), Theme::DarkModern);
    let html = h.highlight("", "rust").unwrap();
    assert!(html.is_empty() || !html.contains("<span"));
}

#[test]
fn test_highlight_unknown_language_kind() {
    let mut h = TreeSitterHighlighter::new();
    let result = h.highlight("anything", "not-a-real-language");
    assert!(matches!(
        result,
        Err(HighlightError::UnsupportedLanguage(_))
    ));
}

#[test]
fn test_theme_switch_keeps_class_names() {
    let mut h = TreeSitterHighlighter::from_assets(rust_keyword_store(), Theme::DarkModern);
    let dark_html = h.highlight("fn main() {}", "rust").unwrap();
    h.set_theme(Theme::LightModern);
    let light_html = h.highlight("fn main() {}", "rust").unwrap();
    // The class vocabulary is shared: the HTML is identical across themes;
    // only the color mapping behind the classes differs.
    assert_eq!(dark_html, light_html);
    assert!(dark_html.contains("ts-keyword"));
    assert!(Theme::DarkModern.css_variables().contains("--ts-keyword: #569CD6;"));
    assert!(Theme::LightModern.css_variables().contains("--ts-keyword: #0000FF;"));
}

#[test]
fn test_highlight_escapes_source() {
    let mut h = TreeSitterHighlighter::new();
    if h.is_language_supported("html") {
        if let Ok(html) = h.highlight("<b>&</b>", "html") {
            assert!(!html.contains("<b>"));
            assert!(html.contains("&lt;") || html.contains("&amp;"));
        }
    }
}

#[test]
fn test_query_content_resolves_through_engine() {
    let mut store = AssetStore::new();
    store.add("c", QueryRole::Highlights, "(c_rule)");
    store.add("cpp", QueryRole::Highlights, "; inherits: c\n(cpp_rule)");
    let h = TreeSitterHighlighter::from_assets(store, Theme::DarkModern);
    assert_eq!(
        h.get_query_content("cpp", QueryRole::Highlights),
        "(c_rule)\n(cpp_rule)\n"
    );
}
