use ntx::screen::{confirm_delete_message, input_line, note_heading, padded};
use ntx::app::SidebarLevel;
use ntx::notes::parse_note;
use ntx::screen::{
    command_bar_line, empty_list_message, note_border, note_items, panel_hint, panel_split,
    project_items, projects_help, sidebar_border, sidebar_help, sidebar_width, status_line,
};
use ntx::ui::{Color, Line};

fn texts(l: &Line) -> Vec<String> {
    l.spans.iter().map(|s| s.content.clone()).collect()
}

#[test]
fn project_list_marks_selection() {
    let ps = vec!["api".to_string(), "web".to_string()];
    let items = project_items(&ps, 1);
    assert_eq!(texts(&items[0]), vec!["  api"]);
    assert_eq!(texts(&items[1]), vec!["\u{25b8} web"]);
    assert_eq!(items[0].spans[0].style.fg, Some(Color::Gray));
    assert!(!items[0].spans[0].style.bold);
    assert_eq!(items[1].spans[0].style.fg, Some(Color::White));
    assert!(items[1].spans[0].style.bold);
}

#[test]
fn note_list_cuts_long_names() {
    let notes = vec![parse_note("a-rather-long-name", "", "/n"), parse_note("short", "", "/n")];
    let items = note_items(&notes, 0, 10);
    assert_eq!(texts(&items[0]), vec!["\u{25b8} a-rat\u{2026}"]);
    assert_eq!(texts(&items[1]), vec!["  short"]);
    assert_eq!(items[0].spans[0].style.fg, Some(Color::Yellow));
    assert_eq!(items[1].spans[0].style.fg, Some(Color::DarkGray));
}

#[test]
fn help_lines() {
    assert_eq!(
        texts(&projects_help()),
        vec![" \u{2191}\u{2193}", " nav  ", "enter", " open  ", "n", " new  ", "q", " quit"]
    );
    let notes = sidebar_help(SidebarLevel::Notes);
    assert_eq!(notes.len(), 3);
    assert_eq!(texts(&notes[2]), vec![" esc", " back"]);
    assert_eq!(notes[2].spans[0].style.fg, Some(Color::Cyan));
    assert_eq!(notes[2].spans[1].style.fg, None);
    let content = sidebar_help(SidebarLevel::NoteContent);
    assert_eq!(texts(&content[1]), vec![" y", " copy  ", "e", " edit"]);
    assert!(sidebar_help(SidebarLevel::Projects).is_empty());
}

#[test]
fn status_and_command_bars() {
    let l = status_line(&Some("Saved".to_string()), "p");
    assert_eq!(texts(&l), vec![" ", "Saved"]);
    assert_eq!(l.spans[1].style.fg, Some(Color::Yellow));
    let l = status_line(&None, "");
    assert_eq!(texts(&l)[0], " rbk");
    let l = status_line(&None, "proj");
    assert_eq!(texts(&l), vec![" proj", "  ctrl+n: notes  ctrl+b: browse  ctrl+c: quit"]);
    let l = command_bar_line("12");
    assert_eq!(texts(&l), vec![" /", "12", "\u{2588}", "  enter: exec  esc: cancel"]);
    assert!(l.spans[0].style.bold);
}

#[test]
fn pane_widths() {
    assert_eq!(sidebar_width(100), 32);
    assert_eq!(sidebar_width(40), 20);
    assert_eq!(panel_split(100), (58, 42));
    assert_eq!(panel_split(50), (20, 30));
    assert_eq!(panel_split(10), (10, 0));
}

#[test]
fn popup_texts() {
    assert_eq!(padded("New Project"), " New Project ");
    assert_eq!(input_line("ab"), "ab\u{2588}");
    assert_eq!(
        confirm_delete_message("deploy"),
        " Delete 'deploy'?  y = confirm   any key = cancel"
    );
    let titled = parse_note("slug", "# Heading\n", "/n");
    assert_eq!(note_heading(&titled), "Heading");
    let bare = parse_note("slug", "text\n", "/n");
    assert_eq!(note_heading(&bare), "slug");
}

#[test]
fn borders_hints_and_empty_lists() {
    assert_eq!(sidebar_border(SidebarLevel::Notes), Color::Cyan);
    assert_eq!(sidebar_border(SidebarLevel::NoteContent), Color::DarkGray);
    assert_eq!(note_border(true), Color::Yellow);
    assert_eq!(note_border(false), Color::DarkGray);
    assert_eq!(panel_hint(true), " ctrl+n:close  esc:unfocus ");
    assert_eq!(panel_hint(false), " ctrl+n:cycle  ctrl+w:focus ");
    assert_eq!(empty_list_message(true), "\n  No projects yet.\n\n  Press 'n' to create one.");
    assert_eq!(empty_list_message(false), "  No notes.\n  Press 'n' to create one.");
}
