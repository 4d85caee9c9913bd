use markpad::LanguageRegistry;

#[test]
fn test_registry_creation() {
    let registry = LanguageRegistry::new();
    assert_eq!(registry.language_count(), 13);
}

#[test]
fn registry_test_supported_languages() {
    let registry = LanguageRegistry::new();
    let languages = registry.supported_languages();

    assert!(languages.contains(&"rust".to_string()));
    assert!(languages.contains(&"javascript".to_string()));
    assert!(languages.contains(&"python".to_string()));
}

#[test]
fn test_get_language() {
    let registry = LanguageRegistry::new();

    assert!(registry.get_language("rust").is_some());
    assert!(registry.get_language("javascript").is_some());
    assert!(registry.get_language("python").is_some());

    assert!(registry.get_language("RUST").is_some());
    assert!(registry.get_language("JavaScript").is_some());
    assert!(registry.get_language("PYTHON").is_some());
}

#[test]
fn test_aliases() {
    let registry = LanguageRegistry::new();

    assert!(registry.get_language("js").is_some());
    assert!(registry.get_language("py").is_some());
    assert!(registry.get_language("rs").is_some());

    let js_lang = registry.get_language("js");
    let javascript_lang = registry.get_language("javascript");
    assert_eq!(js_lang, javascript_lang);
}

#[test]
fn registry_test_unsupported_language() {
    let registry = LanguageRegistry::new();

    assert!(registry.get_language("unsupported").is_none());
    assert!(registry.get_language("unknown").is_none());
}

#[test]
fn test_is_supported() {
    let registry = LanguageRegistry::new();

    assert!(registry.is_supported("rust"));
    assert!(registry.is_supported("js"));
    assert!(!registry.is_supported("unknown"));
}

#[test]
fn test_canonical_name_of_alias() {
    let registry = LanguageRegistry::new();
    assert_eq!(registry.get_canonical_name("ts"), "typescript");
    assert_eq!(registry.get_canonical_name("C++"), "cpp");
    assert_eq!(registry.get_canonical_name("RUST"), "rust");
}

#[test]
fn test_canonical_name_echoes_unknown() {
    let registry = LanguageRegistry::new();
    assert_eq!(registry.get_canonical_name("Not-A-Language"), "not-a-language");
}

#[test]
fn test_register_overwrites() {
    let mut registry = LanguageRegistry::new();
    let before = registry.language_count();
    let grammar = registry.get_language("rust").unwrap();
    registry.register("RUST", grammar);
    assert_eq!(registry.language_count(), before);
    assert!(registry.is_supported("rust"));
}

#[test]
fn test_register_aliases_resolve() {
    let mut registry = LanguageRegistry::new();
    registry.register_aliases("rust", &["ferrous", "RS2"]);
    assert!(registry.is_supported("ferrous"));
    assert!(registry.is_supported("rs2"));
    assert_eq!(registry.get_canonical_name("ferrous"), "rust");
}

#[test]
fn test_all_canonical_names_resolve() {
    let registry = LanguageRegistry::new();
    for name in registry.supported_languages() {
        assert!(registry.get_language(&name).is_some());
        assert!(registry.is_supported(&name));
    }
}
