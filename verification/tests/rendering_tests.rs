use fresh::composite_renderer::{BufferSource, SimpleBuffer};
use fresh::split_rendering::should_show_line_number;
use fresh::text_content::{LineEnding, TextContentProvider, TextContentProviderExt, TextLine};
use fresh::theme::Theme;
use fresh::view_pipeline::{Layout, ViewTokenWire, ViewTokenWireKind};
use std::ops::Range;

fn simple_layout(text: &str) -> Layout {
    let token = ViewTokenWire {
        source_offset: Some(0),
        kind: ViewTokenWireKind::Text(text.to_string()),
        style: None,
    };
    Layout::from_tokens(&[token], 0..text.len())
}

#[test]
fn should_show_line_numbers_for_source_lines() {
    let layout = simple_layout("a\nb");
    assert!(should_show_line_number(&layout.lines[0]));
}

#[test]
fn test_simple_buffer() {
    let buf = SimpleBuffer::new("line 1\nline 2\nline 3");
    assert_eq!(buf.line_count(), 3);
    assert_eq!(buf.get_line(0), Some("line 1".to_string()));
    assert_eq!(buf.get_line(2), Some("line 3".to_string()));
    assert_eq!(buf.get_line(3), None);
}

// Simple line-list content provider
struct LinesBuffer {
    lines: Vec<String>,
}

impl TextContentProvider for LinesBuffer {
    fn len(&self) -> usize {
        self.lines.iter().map(|l| l.len() + 1).sum::<usize>().saturating_sub(1)
    }

    fn is_binary(&self) -> bool {
        false
    }

    fn line_ending(&self) -> LineEnding {
        LineEnding::Lf
    }

    fn line_count(&self) -> usize {
        self.lines.len()
    }

    fn spec_line_count(&self) -> usize {
        self.line_count()
    }

    fn spec_line(&self, line_num: usize) -> Option<TextLine> {
        self.get_line(line_num)
    }

    fn get_line(&self, line_num: usize) -> Option<TextLine> {
        self.lines.get(line_num).map(|content| {
            let start_byte = self.lines[..line_num].iter().map(|l| l.len() + 1).sum();
            TextLine {
                start_byte,
                content: content.clone(),
                line_ending_len: if line_num < self.lines.len() - 1 { 1 } else { 0 },
            }
        })
    }

    fn slice_bytes(&self, range: Range<usize>) -> Vec<u8> {
        self.content().as_bytes()[range].to_vec()
    }

    fn byte_to_line(&self, byte_offset: usize) -> usize {
        let mut offset = 0;
        for (i, line) in self.lines.iter().enumerate() {
            if byte_offset < offset + line.len() + 1 {
                return i;
            }
            offset += line.len() + 1;
        }
        self.lines.len().saturating_sub(1)
    }

    fn line_to_byte(&self, line: usize) -> Option<usize> {
        if line >= self.lines.len() {
            return None;
        }
        Some(self.lines[..line].iter().map(|l| l.len() + 1).sum())
    }

    fn get_text_range(&self, start: usize, end: usize) -> String {
        let content = self.content();
        content[start.min(content.len())..end.min(content.len())].to_string()
    }

    fn content(&self) -> String {
        self.lines.join("\n")
    }
}

#[test]
fn test_viewport_iterator() {
    let buffer = LinesBuffer {
        lines: vec!["line 0".into(), "line 1".into(), "line 2".into(), "line 3".into()],
    };

    let lines = buffer.viewport_lines(1, 3).collect_lines();
    assert_eq!(lines.len(), 2);
    assert_eq!(lines[0].0, 1);
    assert_eq!(lines[0].1.content, "line 1");
    assert_eq!(lines[1].0, 2);
    assert_eq!(lines[1].1.content, "line 2");
}

#[test]
fn viewport_iterator_stops_at_the_line_count() {
    let buffer = LinesBuffer { lines: vec!["a".into(), "b".into(), "c".into()] };
    let lines = buffer.viewport_lines(1, 10).collect_lines();
    assert_eq!(lines.iter().map(|l| l.0).collect::<Vec<_>>(), vec![1, 2]);
    assert!(buffer.viewport_lines(5, 10).collect_lines().is_empty());
}

#[test]
fn test_byte_line_mapping() {
    let buffer = LinesBuffer { lines: vec!["abc".into(), "defgh".into(), "i".into()] };

    // "abc\ndefgh\ni"
    assert_eq!(buffer.byte_to_line(0), 0); // 'a'
    assert_eq!(buffer.byte_to_line(3), 0); // '\n'
    assert_eq!(buffer.byte_to_line(4), 1); // 'd'
    assert_eq!(buffer.byte_to_line(9), 1); // '\n'
    assert_eq!(buffer.byte_to_line(10), 2); // 'i'

    assert_eq!(buffer.line_to_byte(0), Some(0));
    assert_eq!(buffer.line_to_byte(1), Some(4));
    assert_eq!(buffer.line_to_byte(2), Some(10));
    assert_eq!(buffer.line_to_byte(3), None);
}

#[test]
fn test_theme_from_name() {
    let theme = Theme::from_name("light");
    assert_eq!(theme.name, "light");

    let theme = Theme::from_name("high-contrast");
    assert_eq!(theme.name, "high-contrast");

    let theme = Theme::from_name("unknown");
    assert_eq!(theme.name, "dark");
}

#[test]
fn test_available_themes() {
    let themes = Theme::available_themes();
    // At minimum, should have the 4 builtin themes
    assert!(themes.len() >= 4);
    assert!(themes.contains(&"dark".to_string()));
    assert!(themes.contains(&"light".to_string()));
    assert!(themes.contains(&"high-contrast".to_string()));
    assert!(themes.contains(&"nostalgia".to_string()));
}
