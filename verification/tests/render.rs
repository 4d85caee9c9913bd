use markpad::html_escape;
use markpad::render::render_events;
use markpad::render::HtmlRenderer;
use markpad::HlEvent;
use markpad::RenderError;
use markpad::Theme;

#[test]
fn test_html_escape() {
    assert_eq!(html_escape("<script>"), "&lt;script&gt;");
    assert_eq!(html_escape("a & b"), "a &amp; b");
    assert_eq!(html_escape("'quote'"), "&#39;quote&#39;");
}

#[test]
fn test_html_escape_round_trip_example() {
    assert_eq!(html_escape("<a>&'\""), "&lt;a&gt;&amp;&#39;&quot;");
    assert_eq!(html_escape("plain text 123"), "plain text 123");
}

#[test]
fn test_render_plain_source() {
    let bytes = "fn main() {}".as_bytes().to_vec();
    let events = vec![HlEvent::Source { start: 0, end: 12 }];
    let html = render_events(&bytes, &events, Theme::DarkModern).unwrap();
    assert_eq!(String::from_utf8(html).unwrap(), "fn main() {}");
}

#[test]
fn test_render_wraps_active_capture() {
    // Capture index 4 is "keyword" in the shared capture table.
    let bytes = "fn x".as_bytes().to_vec();
    let events = vec![
        HlEvent::Start { index: 4 },
        HlEvent::Source { start: 0, end: 2 },
        HlEvent::End,
        HlEvent::Source { start: 2, end: 4 },
    ];
    let html = render_events(&bytes, &events, Theme::DarkModern).unwrap();
    assert_eq!(
        String::from_utf8(html).unwrap(),
        "<span class=\"ts-keyword\">fn</span> x"
    );
}

#[test]
fn test_render_nested_captures_wrap_all() {
    // 4 is "keyword", 15 is "string": nested captures list every class,
    // outermost first, in one span.
    let bytes = "ab".as_bytes().to_vec();
    let events = vec![
        HlEvent::Start { index: 4 },
        HlEvent::Start { index: 15 },
        HlEvent::Source { start: 0, end: 2 },
        HlEvent::End,
        HlEvent::End,
    ];
    let html = render_events(&bytes, &events, Theme::DarkModern).unwrap();
    assert_eq!(
        String::from_utf8(html).unwrap(),
        "<span class=\"ts-keyword ts-string\">ab</span>"
    );
}

#[test]
fn test_render_escapes_inside_span() {
    let bytes = "<&>".as_bytes().to_vec();
    let events = vec![
        HlEvent::Start { index: 4 },
        HlEvent::Source { start: 0, end: 3 },
        HlEvent::End,
    ];
    let html = render_events(&bytes, &events, Theme::DarkModern).unwrap();
    assert_eq!(
        String::from_utf8(html).unwrap(),
        "<span class=\"ts-keyword\">&lt;&amp;&gt;</span>"
    );
}

#[test]
fn test_render_flushes_gap_and_tail() {
    let bytes = "abcdef".as_bytes().to_vec();
    let events = vec![HlEvent::Source { start: 2, end: 4 }];
    let html = render_events(&bytes, &events, Theme::DarkModern).unwrap();
    // The gap before the run and the tail after it are flushed unhighlighted.
    assert_eq!(String::from_utf8(html).unwrap(), "abcdef");
}

#[test]
fn test_render_end_without_start_is_error() {
    let bytes = "x".as_bytes().to_vec();
    let events = vec![HlEvent::End];
    let r = render_events(&bytes, &events, Theme::DarkModern);
    assert_eq!(r, Err(RenderError::UnbalancedEnd));
}

#[test]
fn test_render_out_of_bounds_is_error() {
    let bytes = "x".as_bytes().to_vec();
    let events = vec![HlEvent::Source { start: 0, end: 5 }];
    let r = render_events(&bytes, &events, Theme::DarkModern);
    assert_eq!(r, Err(RenderError::SourceOutOfBounds));
}

#[test]
fn test_render_balanced_stream_closes_spans() {
    let bytes = "let x = 1;".as_bytes().to_vec();
    let events = vec![
        HlEvent::Start { index: 4 },
        HlEvent::Source { start: 0, end: 3 },
        HlEvent::End,
        HlEvent::Source { start: 3, end: 10 },
    ];
    let html = String::from_utf8(render_events(&bytes, &events, Theme::DarkModern).unwrap()).unwrap();
    assert_eq!(html.matches("<span").count(), html.matches("</span>").count());
}

#[test]
fn test_renderer_default_class_not_emitted() {
    // An index past the capture table maps to ts-default, which is omitted.
    let bytes = "zz".as_bytes().to_vec();
    let events = vec![
        HlEvent::Start { index: 5000 },
        HlEvent::Source { start: 0, end: 2 },
        HlEvent::End,
    ];
    let html = render_events(&bytes, &events, Theme::DarkModern).unwrap();
    assert_eq!(String::from_utf8(html).unwrap(), "zz");
}

#[test]
fn test_renderer_single_use_manual_feed() {
    let mut r = HtmlRenderer::new("hi".as_bytes().to_vec(), Theme::DarkModern);
    assert!(r.push_source(0, 2));
    assert!(!r.push_highlight_end());
    let html = r.finish();
    assert_eq!(String::from_utf8(html).unwrap(), "hi");
}
