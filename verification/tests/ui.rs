use ntx::ui::{
    build_note_lines, centered_rect, cursor_position, list_label, note_scroll, render_row,
    style_markdown_line, template_title, truncate, vt100_color, wrap_code_line, Cell, Color, Line,
    Rect, Style, TermColor,
};

fn texts(l: &Line) -> Vec<String> {
    l.spans.iter().map(|s| s.content.clone()).collect()
}

fn chars(s: &str) -> Vec<char> {
    s.chars().collect()
}

#[test]
fn markdown_headings_and_items() {
    let h1 = style_markdown_line(&chars("  # Title "));
    assert_eq!(texts(&h1), vec![" # Title"]);
    assert_eq!(h1.spans[0].style.fg, Some(Color::Cyan));
    assert!(h1.spans[0].style.bold);
    let h2 = style_markdown_line(&chars("## Sub"));
    assert_eq!(h2.spans[0].style.fg, Some(Color::Yellow));
    let h3 = style_markdown_line(&chars("### Minor"));
    assert_eq!(h3.spans[0].style.fg, Some(Color::Green));
    let item = style_markdown_line(&chars("* point"));
    assert_eq!(texts(&item), vec!["  * point"]);
    assert!(!item.spans[0].style.bold);
    assert!(style_markdown_line(&chars("   ")).spans.is_empty());
    assert_eq!(texts(&style_markdown_line(&chars("plain"))), vec![" plain"]);
}

#[test]
fn note_lines_label_and_frame_blocks() {
    let body = "# T\n```bash\necho hi\n```\ntext\n```\nls\n```\n";
    let (lines, focused) = build_note_lines(body, 1, 10);
    let t: Vec<Vec<String>> = lines.iter().map(texts).collect();
    assert_eq!(t[0], vec![" # T"]);
    assert_eq!(t[1], vec![" [0] bash"]);
    assert_eq!(t[2], vec![" \u{250c}\u{2500}\u{2500}\u{2500}\u{2500}\u{2500}\u{2500}\u{2510}"]);
    assert_eq!(t[3], vec![" \u{2502} ", "echo hi"]);
    assert_eq!(t[4], vec![" \u{2514}\u{2500}\u{2500}\u{2500}\u{2500}\u{2500}\u{2500}\u{2518}"]);
    assert_eq!(t[5], vec![" text"]);
    assert_eq!(t[6], vec![">[1]"]);
    assert_eq!(lines.len(), 10);
    assert_eq!(focused, Some(6));
    assert_eq!(lines[6].spans[0].style.fg, Some(Color::Cyan));
}

#[test]
fn note_lines_without_focused_block() {
    let (_, focused) = build_note_lines("no code", 0, 20);
    assert_eq!(focused, None);
}

#[test]
fn code_lines_wrap_at_words() {
    let pieces = wrap_code_line(&chars("aa bb cc dd"), 5, 3);
    let got: Vec<String> = pieces.iter().map(|p| p.iter().collect()).collect();
    assert_eq!(got, vec!["aa bb", "cc", "dd"]);
}

#[test]
fn note_scroll_rules() {
    assert_eq!(note_scroll(7, Some(50), true, 10), 7);
    assert_eq!(note_scroll(0, Some(30), true, 10), 27);
    assert_eq!(note_scroll(0, Some(5), true, 10), 0);
    assert_eq!(note_scroll(0, Some(30), false, 10), 0);
    assert_eq!(note_scroll(0, None, true, 10), 0);
}

#[test]
fn truncate_marks_cut() {
    assert_eq!(truncate("hello", 5), "hello");
    assert_eq!(truncate("hello", 4), "hel\u{2026}");
    assert_eq!(truncate("hello", 0), "\u{2026}");
    assert_eq!(truncate("h\u{e9}llo", 3), "h\u{e9}\u{2026}");
}

#[test]
fn centered_rect_formula() {
    let r = centered_rect(50, 3, Rect { x: 0, y: 0, width: 80, height: 24 });
    assert_eq!(r, Rect { x: 20, y: 11, width: 40, height: 3 });
    let r = centered_rect(100, 2, Rect { x: 65535, y: 65530, width: 0, height: 10 });
    assert_eq!(r, Rect { x: 65535, y: 65534, width: 0, height: 2 });
    let r = centered_rect(60, 3, Rect { x: 2, y: 1, width: 101, height: 10 });
    assert_eq!(r, Rect { x: 22, y: 5, width: 60, height: 3 });
}

#[test]
fn labels_and_titles() {
    assert_eq!(list_label("proj", true), "\u{25b8} proj");
    assert_eq!(list_label("proj", false), "  proj");
    let vars = vec!["host".to_string(), "port".to_string()];
    assert_eq!(template_title(&vars, 1), " port (2/2) ");
    assert_eq!(template_title(&vars, 5), " ? (6/2) ");
}

fn cell(s: &str, bold: bool) -> Option<Cell> {
    Some(Cell {
        contents: s.to_string(),
        fgcolor: TermColor::Idx(2),
        bgcolor: TermColor::Default,
        bold,
        italic: false,
        underline: false,
        inverse: false,
    })
}

#[test]
fn rows_merge_cells_of_one_style() {
    let row = vec![cell("a", false), cell("", false), None, cell("b", true), cell("c", true)];
    let l = render_row(&row);
    assert_eq!(texts(&l), vec!["a ", "bc"]);
    assert_eq!(
        l.spans[0].style,
        Style {
            fg: Some(Color::Indexed(2)),
            bg: Some(Color::Reset),
            bold: false,
            italic: false,
            underlined: false,
            reversed: false
        }
    );
    assert!(l.spans[1].style.bold);
}

#[test]
fn terminal_colors() {
    assert_eq!(vt100_color(TermColor::Default), Color::Reset);
    assert_eq!(vt100_color(TermColor::Idx(9)), Color::Indexed(9));
    assert_eq!(vt100_color(TermColor::Rgb(1, 2, 3)), Color::Rgb(1, 2, 3));
}

#[test]
fn cursor_shown_inside_area() {
    assert_eq!(cursor_position(false, (3, 7), 10, 20), Some((7, 3)));
    assert_eq!(cursor_position(true, (3, 7), 10, 20), None);
    assert_eq!(cursor_position(false, (10, 7), 10, 20), None);
}
