use fresh::draw::Color;
use fresh::syntect_highlighter::{HighlightCategory, SyntectHighlighter};
use fresh::theme::Theme;

#[test]
fn test_highlighter_creation() {
    let h = SyntectHighlighter::for_extension("rs");
    assert!(h.is_some());
    assert_eq!(h.unwrap().syntax_name(), "Rust");

    let h = SyntectHighlighter::for_extension("py");
    assert!(h.is_some());
    assert_eq!(h.unwrap().syntax_name(), "Python");

    let h = SyntectHighlighter::for_extension("unknown_xyz");
    assert!(h.is_none());
}

#[test]
fn test_basic_highlighting() {
    let mut h = SyntectHighlighter::for_extension("rs").unwrap();
    let theme = Theme::dark();
    let content = "fn main() {\n    println!(\"hello\");\n}";

    let spans = h.highlight_viewport(content, 0, content.len(), &theme, 1000);

    // Should have some spans
    assert!(!spans.is_empty());

    // Keywords like "fn" should be highlighted
    let has_keyword = spans.iter().any(|s| s.color == theme.syntax_keyword);
    assert!(has_keyword, "Should highlight keywords");
}

#[test]
fn test_viewport_highlighting() {
    let mut h = SyntectHighlighter::for_extension("rs").unwrap();
    let theme = Theme::dark();

    // Create content with multiple lines
    let content = "fn foo() {}\nfn bar() {}\nfn baz() {}";

    // Highlight only middle portion
    let spans = h.highlight_viewport(content, 12, 23, &theme, 0);

    // Spans should be within or near the viewport
    for span in &spans {
        assert!(
            span.range.start < 30,
            "Span start {} too far from viewport",
            span.range.start
        );
    }
}

#[test]
fn category_colours_follow_the_theme() {
    let theme = Theme::light();
    assert_eq!(HighlightCategory::Keyword.color(&theme), Color::Rgb(0, 0, 255));
    assert_eq!(HighlightCategory::Number.color(&theme), theme.syntax_constant);
    assert_eq!(HighlightCategory::Property.color(&theme), theme.syntax_variable);
    assert_eq!(HighlightCategory::Attribute.color(&theme), Color::Rgb(9, 134, 88));
    assert_eq!(HighlightCategory::Comment.color(&Theme::dark()), Color::Rgb(106, 153, 85));
}

#[test]
fn cached_parse_is_reused_for_inner_viewports() {
    let mut h = SyntectHighlighter::for_extension("rs").unwrap();
    let theme = Theme::dark();
    let content = "fn foo() {}\nfn bar() {}\nfn baz() {}";
    let all = h.highlight_viewport(content, 0, content.len(), &theme, 0);
    let inner = h.highlight_viewport(content, 12, 23, &theme, 0);
    let expected: Vec<(usize, usize)> = all
        .iter()
        .filter(|s| s.range.start < 23 && s.range.end > 12)
        .map(|s| (s.range.start, s.range.end))
        .collect();
    let got: Vec<(usize, usize)> = inner.iter().map(|s| (s.range.start, s.range.end)).collect();
    assert_eq!(got, expected);
}

#[test]
fn merged_category_spans_never_continue_each_other() {
    let mut h = SyntectHighlighter::for_extension("rs").unwrap();
    let content = "fn foo() { let x = 1 + 2; }
// note
fn bar() {}";
    let spans = h.highlight_categories(content, 0, content.len(), 0);
    assert!(!spans.is_empty());
    for w in spans.windows(2) {
        assert!(!(w[0].end == w[1].start && w[0].category == w[1].category));
    }
}

#[test]
fn highlighter_by_name_keeps_the_name_and_extensions_ignore_ascii_case() {
    let h = SyntectHighlighter::for_syntax_name("Python").unwrap();
    assert_eq!(h.syntax_name(), "Python");
    assert!(SyntectHighlighter::for_syntax_name("No Such Syntax").is_none());
    let upper = SyntectHighlighter::for_extension("RS").unwrap();
    assert_eq!(upper.syntax_name(), "Rust");
}
