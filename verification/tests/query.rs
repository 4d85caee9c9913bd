use markpad::parse_inherits;
use markpad::remove_inherits_line;
use markpad::resolve_query;
use markpad::AssetStore;
use markpad::QueryRole;

#[test]
fn test_parse_inherits_simple() {
    let names = parse_inherits("; inherits: c\n(identifier) @variable\n");
    assert_eq!(names, vec!["c".to_string()]);
}

#[test]
fn test_parse_inherits_list_with_spaces() {
    let names = parse_inherits("; inherits: ecma , jsx,\n(rule)\n");
    assert_eq!(names, vec!["ecma".to_string(), "jsx".to_string()]);
}

#[test]
fn test_parse_inherits_skips_comments_and_blanks() {
    let names = parse_inherits("; a leading comment\n\n; inherits: html\n(rule)\n");
    assert_eq!(names, vec!["html".to_string()]);
}

#[test]
fn test_parse_inherits_stops_at_code() {
    let names = parse_inherits("(rule)\n; inherits: c\n");
    assert!(names.is_empty());
}

#[test]
fn test_parse_inherits_absent() {
    assert!(parse_inherits("(identifier) @variable\n").is_empty());
    assert!(parse_inherits("").is_empty());
}

#[test]
fn test_remove_inherits_line() {
    let out = remove_inherits_line("; inherits: c\n(one)\n(two)");
    assert_eq!(out, "(one)\n(two)\n");
}

#[test]
fn test_remove_inherits_line_keeps_other_comments() {
    let out = remove_inherits_line("; note\n; inherits: c\n(one)");
    assert_eq!(out, "; note\n(one)\n");
}

#[test]
fn test_resolve_missing_document_is_empty() {
    let store = AssetStore::new();
    assert_eq!(resolve_query(&store, "rust", QueryRole::Highlights), "");
}

#[test]
fn test_resolve_plain_document() {
    let mut store = AssetStore::new();
    store.add("rust", QueryRole::Highlights, "(identifier) @variable\n");
    assert_eq!(
        resolve_query(&store, "rust", QueryRole::Highlights),
        "(identifier) @variable\n"
    );
}

#[test]
fn test_resolve_inheritance_prepends_parent() {
    let mut store = AssetStore::new();
    store.add("c", QueryRole::Highlights, "(c_rule) @type");
    store.add("cpp", QueryRole::Highlights, "; inherits: c\n(cpp_rule) @type");
    assert_eq!(
        resolve_query(&store, "cpp", QueryRole::Highlights),
        "(c_rule) @type\n(cpp_rule) @type\n"
    );
}

#[test]
fn test_resolve_inheritance_order_preserved() {
    let mut store = AssetStore::new();
    store.add("one", QueryRole::Highlights, "(first)");
    store.add("two", QueryRole::Highlights, "(second)");
    store.add("both", QueryRole::Highlights, "; inherits: one,two\n(own)");
    assert_eq!(
        resolve_query(&store, "both", QueryRole::Highlights),
        "(first)\n(second)\n(own)\n"
    );
}

#[test]
fn test_resolve_idempotent() {
    let mut store = AssetStore::new();
    store.add("c", QueryRole::Highlights, "(c_rule) @type");
    store.add("cpp", QueryRole::Highlights, "; inherits: c\n(cpp_rule) @type");
    let first = resolve_query(&store, "cpp", QueryRole::Highlights);
    let second = resolve_query(&store, "cpp", QueryRole::Highlights);
    assert_eq!(first, second);
}

#[test]
fn test_resolve_cycle_is_cut_off() {
    let mut store = AssetStore::new();
    store.add("a", QueryRole::Highlights, "; inherits: b\n(a_rule)");
    store.add("b", QueryRole::Highlights, "; inherits: a\n(b_rule)");
    // A cyclic directive terminates: depth is bounded by the store's size.
    let resolved = resolve_query(&store, "a", QueryRole::Highlights);
    assert!(resolved.contains("(a_rule)"));
    assert_eq!(resolved, resolve_query(&store, "a", QueryRole::Highlights));
}

#[test]
fn test_resolve_missing_parent_contributes_nothing() {
    let mut store = AssetStore::new();
    store.add("kid", QueryRole::Highlights, "; inherits: ghost\n(own)");
    assert_eq!(resolve_query(&store, "kid", QueryRole::Highlights), "(own)\n");
}

#[test]
fn test_roles_are_distinct() {
    let mut store = AssetStore::new();
    store.add("rust", QueryRole::Highlights, "(h)");
    store.add("rust", QueryRole::Injections, "(i)");
    assert_eq!(resolve_query(&store, "rust", QueryRole::Highlights), "(h)");
    assert_eq!(resolve_query(&store, "rust", QueryRole::Injections), "(i)");
    assert_eq!(resolve_query(&store, "rust", QueryRole::Locals), "");
}
