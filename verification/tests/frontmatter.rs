use markpad::split_frontmatter;

#[test]
fn test_split_frontmatter_basic() {
    let (body, meta) = split_frontmatter("---\ntitle: x\n---\nbody");
    assert_eq!(meta, "title: x");
    assert_eq!(body, "body");
}

#[test]
fn test_split_frontmatter_none() {
    let (body, meta) = split_frontmatter("hello world");
    assert_eq!(body, "hello world");
    assert_eq!(meta, "");
}

#[test]
fn test_split_frontmatter_unterminated() {
    let (body, meta) = split_frontmatter("---\ntitle: x");
    assert_eq!(body, "---\ntitle: x");
    assert_eq!(meta, "");
}

#[test]
fn test_split_frontmatter_crlf() {
    let (body, meta) = split_frontmatter("---\r\ntitle\r\n---\r\nbody");
    assert_eq!(meta, "title");
    assert_eq!(body, "\nbody");
}

#[test]
fn test_split_frontmatter_at_end() {
    let (body, meta) = split_frontmatter("---\nmeta\n---");
    assert_eq!(meta, "meta");
    assert_eq!(body, "");
}

#[test]
fn test_split_frontmatter_empty() {
    let (body, meta) = split_frontmatter("");
    assert_eq!(body, "");
    assert_eq!(meta, "");
}
