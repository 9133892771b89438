use ntx::app::{
    command_lines, extract_template_vars, mouse_capture_change, f_key_bytes, handle_key, key_to_bytes, point_in,
    projects_index, should_spawn_terminal, terminal_pty_size, App, InputResult, KeyCode, KeyEvent,
    KeyModifiers, Mode, MouseEvent, MouseEventKind, SidebarLevel, TerminalStatus,
};
use ntx::notes::{parse_note, Note};

fn note(slug: &str, body: &str) -> Note {
    parse_note(slug, body, "/n/x.md")
}

fn two_notes() -> Vec<Note> {
    vec![
        note("a", "# A\n\n```bash\nls\n```\n\n```bash\necho <name> <dir>\n```\n"),
        note("b", "# B\n\nno blocks\n"),
    ]
}

fn none() -> KeyModifiers {
    KeyModifiers { shift: false, control: false, alt: false }
}

fn key(code: KeyCode) -> KeyEvent {
    KeyEvent { code, modifiers: none() }
}

fn ctrl(c: char) -> KeyEvent {
    KeyEvent { code: KeyCode::Char(c), modifiers: KeyModifiers { shift: false, control: true, alt: false } }
}

fn alive() -> Option<TerminalStatus> {
    Some(TerminalStatus { alive: true, scrollback_len: 10 })
}

fn in_project() -> App {
    App::new_in_project("p", vec!["o".to_string(), "p".to_string()], two_notes())
}

#[test]
fn new_browser_starts_at_projects() {
    let app = App::new_browser(vec!["a".to_string()]);
    assert!(matches!(app.mode, Mode::Normal));
    assert_eq!(app.sidebar_level, SidebarLevel::Projects);
    assert_eq!(app.project_selected, 0);
    assert!(app.current_project.is_empty());
}

#[test]
fn new_in_project_selects_it() {
    let app = in_project();
    assert!(matches!(app.mode, Mode::Terminal));
    assert_eq!(app.sidebar_level, SidebarLevel::Notes);
    assert_eq!(app.project_selected, 1);
    assert_eq!(app.current_project, "p");
    assert_eq!(app.notes.len(), 2);
}

#[test]
fn projects_index_defaults_to_zero() {
    let ps = vec!["x".to_string(), "y".to_string()];
    assert_eq!(projects_index(&ps, "y"), 1);
    assert_eq!(projects_index(&ps, "z"), 0);
}

#[test]
fn project_navigation_wraps_and_returns() {
    let mut app = App::new_browser(vec!["a".to_string(), "b".to_string(), "c".to_string()]);
    app.select_prev_project();
    assert_eq!(app.project_selected, 2);
    app.select_next_project();
    assert_eq!(app.project_selected, 0);
    app.select_next_project();
    app.select_prev_project();
    assert_eq!(app.project_selected, 0);
}

#[test]
fn note_navigation_resets_block() {
    let mut app = in_project();
    app.block_focused = 1;
    app.note_view_scroll = 4;
    app.select_next_note();
    assert_eq!(app.notes_selected, 1);
    assert_eq!(app.block_focused, 0);
    assert_eq!(app.note_view_scroll, 0);
    app.select_next_note();
    assert_eq!(app.notes_selected, 0);
    app.select_prev_note();
    assert_eq!(app.notes_selected, 1);
}

#[test]
fn block_navigation_wraps() {
    let mut app = in_project();
    app.prev_block();
    assert_eq!(app.block_focused, 1);
    app.next_block();
    assert_eq!(app.block_focused, 0);
    app.notes_selected = 1;
    app.next_block();
    assert_eq!(app.block_focused, 0);
}

#[test]
fn select_project_asks_for_its_notes() {
    let mut app = App::new_browser(vec!["a".to_string(), "b".to_string()]);
    app.project_selected = 1;
    let r = handle_key(&mut app, key(KeyCode::Enter));
    assert!(matches!(r, InputResult::LoadProject(ref p) if p == "b"));
    assert_eq!(app.current_project, "b");
    assert_eq!(app.sidebar_level, SidebarLevel::Notes);
    app.terminal = alive();
    app.project_loaded(two_notes(), Some("/srv".to_string()));
    assert_eq!(app.notes.len(), 2);
    assert_eq!(app.pending_exec, Some("cd /srv".to_string()));
}

#[test]
fn select_project_on_empty_list() {
    let mut app = App::new_browser(vec![]);
    assert_eq!(app.select_project(), None);
    assert!(app.current_project.is_empty());
}

#[test]
fn project_loaded_without_terminal_does_not_cd() {
    let mut app = App::new_browser(vec!["a".to_string()]);
    app.project_loaded(two_notes(), Some("/srv".to_string()));
    assert_eq!(app.pending_exec, None);
}

#[test]
fn create_project_flow() {
    let mut app = App::new_browser(vec![]);
    assert!(matches!(handle_key(&mut app, key(KeyCode::Char('n'))), InputResult::Consumed));
    assert!(matches!(app.mode, Mode::NewProject));
    for c in " web ".chars() {
        handle_key(&mut app, key(KeyCode::Char(c)));
    }
    let r = handle_key(&mut app, key(KeyCode::Enter));
    assert!(matches!(r, InputResult::CreateProject(ref n) if n == "web"));
    app.project_created("web", vec!["api".to_string(), "web".to_string()]);
    assert_eq!(app.project_selected, 1);
    assert!(matches!(app.mode, Mode::Normal));
    assert_eq!(app.status_msg, Some("Created: web".to_string()));
    assert_eq!(app.status_ttl, 40);
}

#[test]
fn create_project_blank_name_cancels() {
    let mut app = App::new_browser(vec![]);
    app.mode = Mode::NewProject;
    app.input_buf = "   ".to_string();
    assert_eq!(app.create_project(), None);
    assert!(matches!(app.mode, Mode::Normal));
}

#[test]
fn terminal_spawn_results() {
    let mut app = in_project();
    app.mode = Mode::Normal;
    app.terminal_spawned(Err("no pty".to_string()));
    assert_eq!(app.status_msg, Some("Spawn failed: no pty".to_string()));
    assert!(!app.is_terminal_alive());
    app.terminal_spawned(Ok(()));
    assert!(app.is_terminal_alive());
    assert!(matches!(app.mode, Mode::Terminal));
}

#[test]
fn dead_terminal_goes_back_to_notes() {
    let mut app = in_project();
    app.terminal = Some(TerminalStatus { alive: false, scrollback_len: 0 });
    app.notes_panel_open = true;
    app.check_terminal_alive();
    assert!(app.terminal.is_none());
    assert!(matches!(app.mode, Mode::Normal));
    assert_eq!(app.sidebar_level, SidebarLevel::Notes);
    assert!(!app.notes_panel_open);
    assert_eq!(app.status_msg, Some("Terminal exited".to_string()));
}

#[test]
fn resize_only_a_live_terminal() {
    let mut app = in_project();
    assert_eq!(app.resize_terminal(100, 40), None);
    app.terminal = alive();
    assert_eq!(app.resize_terminal(100, 40), Some((39, 100)));
    app.notes_panel_open = true;
    assert_eq!(app.resize_terminal(100, 40), Some((39, 56)));
}

#[test]
fn pty_size_formula() {
    assert_eq!(terminal_pty_size(40, 100, false), (39, 100));
    assert_eq!(terminal_pty_size(40, 100, true), (39, 56));
    assert_eq!(terminal_pty_size(40, 30, true), (39, 18));
    assert_eq!(terminal_pty_size(0, 0, true), (1, 1));
    assert_eq!(terminal_pty_size(1, 0, false), (1, 1));
}

#[test]
fn status_lasts_forty_ticks() {
    let mut app = in_project();
    app.set_status("hi");
    for _ in 0..39 {
        app.tick_status();
    }
    assert_eq!(app.status_msg, Some("hi".to_string()));
    app.tick_status();
    assert_eq!(app.status_msg, None);
    assert_eq!(app.status_ttl, 0);
}

#[test]
fn template_vars_distinct_and_valid() {
    assert_eq!(
        extract_template_vars("echo <name> <a b> <dir-1> <name> <> <x_y>"),
        vec!["name", "dir-1", "x_y"]
    );
    assert!(extract_template_vars("a < b > c").is_empty());
    assert_eq!(extract_template_vars("<ünï>"), vec!["ünï"]);
    assert_eq!(extract_template_vars("<open"), vec!["open"]);
}

#[test]
fn block_with_placeholders_prompts_first() {
    let mut app = in_project();
    app.block_focused = 1;
    app.execute_focused_block();
    match &app.mode {
        Mode::TemplateInput { vars, values, current, .. } => {
            assert_eq!(vars, &vec!["name".to_string(), "dir".to_string()]);
            assert_eq!(values, &vec![String::new(), String::new()]);
            assert_eq!(*current, 0);
        }
        _ => panic!("expected a prompt"),
    }
    assert_eq!(app.pending_exec, None);
    // An empty value is refused.
    handle_key(&mut app, key(KeyCode::Enter));
    assert_eq!(app.status_msg, Some("Value cannot be empty".to_string()));
    for c in "bob".chars() {
        handle_key(&mut app, key(KeyCode::Char(c)));
    }
    handle_key(&mut app, key(KeyCode::Enter));
    for c in "/tmpx".chars() {
        handle_key(&mut app, key(KeyCode::Char(c)));
    }
    handle_key(&mut app, key(KeyCode::Backspace));
    handle_key(&mut app, key(KeyCode::Enter));
    assert_eq!(app.pending_exec, Some("echo bob /tmp".to_string()));
    assert!(matches!(app.mode, Mode::Terminal));
    assert!(app.notes_panel_open);
}

#[test]
fn block_without_placeholders_runs_at_once() {
    let mut app = in_project();
    app.execute_focused_block();
    assert_eq!(app.pending_exec, Some("ls".to_string()));
    assert!(matches!(app.mode, Mode::Terminal));
    assert!(app.notes_panel_open && !app.notes_panel_focused);
}

#[test]
fn command_bar_runs_block_by_number() {
    let mut app = in_project();
    app.mode = Mode::Normal;
    app.sidebar_level = SidebarLevel::NoteContent;
    handle_key(&mut app, key(KeyCode::Char('/')));
    assert_eq!(app.command_bar, Some(String::new()));
    handle_key(&mut app, key(KeyCode::Char('x')));
    handle_key(&mut app, key(KeyCode::Char('0')));
    assert_eq!(app.command_bar, Some("0".to_string()));
    handle_key(&mut app, key(KeyCode::Enter));
    assert_eq!(app.command_bar, None);
    assert_eq!(app.pending_exec, Some("ls".to_string()));
}

#[test]
fn command_bar_missing_block() {
    let mut app = in_project();
    app.command_bar = Some("7".to_string());
    app.submit_command_bar();
    assert_eq!(app.status_msg, Some("No block [7]".to_string()));
}

#[test]
fn command_bar_backspace_closes_when_empty() {
    let mut app = in_project();
    app.command_bar = Some("1".to_string());
    assert!(matches!(handle_key(&mut app, key(KeyCode::Backspace)), InputResult::Consumed));
    assert_eq!(app.command_bar, None);
}

#[test]
fn ctrl_c_quits_or_forwards() {
    let mut app = in_project();
    assert!(matches!(handle_key(&mut app, ctrl('c')), InputResult::ForwardToPty(ref b) if b == &vec![3u8]));
    app.mode = Mode::Normal;
    handle_key(&mut app, ctrl('c'));
    assert!(app.should_quit);
}

#[test]
fn terminal_keys_go_to_pty() {
    let mut app = in_project();
    app.scroll_offset = 3;
    let r = handle_key(&mut app, key(KeyCode::Char('é')));
    assert!(matches!(r, InputResult::ForwardToPty(ref b) if b == &"é".as_bytes().to_vec()));
    assert_eq!(app.scroll_offset, 0);
    assert!(matches!(handle_key(&mut app, key(KeyCode::Other)), InputResult::Ignored));
}

#[test]
fn shift_page_up_scrolls_within_scrollback() {
    let mut app = in_project();
    app.terminal = Some(TerminalStatus { alive: true, scrollback_len: 7 });
    let k = KeyEvent { code: KeyCode::PageUp, modifiers: KeyModifiers { shift: true, control: false, alt: false } };
    handle_key(&mut app, k);
    assert_eq!(app.scroll_offset, 5);
    handle_key(&mut app, k);
    assert_eq!(app.scroll_offset, 7);
}

#[test]
fn notes_panel_focus_and_keys() {
    let mut app = in_project();
    handle_key(&mut app, ctrl('n'));
    assert!(app.notes_panel_open);
    handle_key(&mut app, ctrl('w'));
    assert!(app.notes_panel_focused);
    handle_key(&mut app, key(KeyCode::Down));
    assert_eq!(app.block_focused, 1);
    assert!(matches!(handle_key(&mut app, key(KeyCode::Char('y'))), InputResult::CopyBlock));
    assert!(matches!(handle_key(&mut app, key(KeyCode::Char('z'))), InputResult::Consumed));
    handle_key(&mut app, key(KeyCode::Esc));
    assert!(!app.notes_panel_focused);
    handle_key(&mut app, ctrl('b'));
    assert!(matches!(app.mode, Mode::Normal));
    assert_eq!(app.sidebar_level, SidebarLevel::Notes);
}

#[test]
fn notes_list_keys() {
    let mut app = in_project();
    app.mode = Mode::Normal;
    assert!(matches!(handle_key(&mut app, key(KeyCode::Char('e'))), InputResult::EditNote));
    assert!(matches!(handle_key(&mut app, key(KeyCode::Char('n'))), InputResult::NewNote));
    handle_key(&mut app, key(KeyCode::Char('d')));
    assert!(matches!(app.mode, Mode::ConfirmDelete));
    assert!(matches!(handle_key(&mut app, key(KeyCode::Char('y'))), InputResult::DeleteNote));
    assert!(matches!(app.mode, Mode::Normal));
    handle_key(&mut app, key(KeyCode::Right));
    assert_eq!(app.sidebar_level, SidebarLevel::NoteContent);
    handle_key(&mut app, key(KeyCode::Esc));
    assert_eq!(app.sidebar_level, SidebarLevel::Notes);
    handle_key(&mut app, key(KeyCode::Esc));
    assert_eq!(app.sidebar_level, SidebarLevel::Projects);
    assert!(app.notes.is_empty());
}

#[test]
fn mouse_scrolls_what_it_is_over() {
    let mut app = in_project();
    app.terminal = Some(TerminalStatus { alive: true, scrollback_len: 100 });
    app.terminal_area = Some((0, 0, 50, 20));
    app.notes_panel_area = Some((50, 0, 30, 20));
    app.handle_mouse(MouseEvent { kind: MouseEventKind::ScrollUp, column: 10, row: 5 });
    assert_eq!(app.scroll_offset, 3);
    app.handle_mouse(MouseEvent { kind: MouseEventKind::ScrollDown, column: 60, row: 5 });
    assert_eq!(app.notes_selected, 1);
    app.notes_panel_focused = true;
    app.handle_mouse(MouseEvent { kind: MouseEventKind::ScrollDown, column: 60, row: 5 });
    assert_eq!(app.note_view_scroll, 3);
}

#[test]
fn point_in_bounds() {
    assert!(point_in(Some((2, 3, 4, 5)), 2, 3));
    assert!(!point_in(Some((2, 3, 4, 5)), 6, 3));
    assert!(!point_in(None, 0, 0));
}

#[test]
fn key_bytes() {
    assert_eq!(key_to_bytes(ctrl('a')), vec![1]);
    assert_eq!(key_to_bytes(key(KeyCode::Enter)), vec![b'\r']);
    assert_eq!(key_to_bytes(key(KeyCode::Backspace)), vec![127]);
    assert_eq!(key_to_bytes(key(KeyCode::Up)), b"\x1b[A".to_vec());
    assert_eq!(key_to_bytes(key(KeyCode::F(5))), b"\x1b[15~".to_vec());
    assert_eq!(f_key_bytes(1), b"\x1bOP".to_vec());
    assert_eq!(f_key_bytes(12), b"\x1b[24~".to_vec());
    assert!(f_key_bytes(13).is_empty());
}

#[test]
fn command_split_into_lines() {
    assert_eq!(command_lines("a\n  # c\n\n  b"), vec!["a\r", "  b\r"]);
}

#[test]
fn spawn_wanted_on_entering_terminal() {
    let mut app = in_project();
    app.mode = Mode::Normal;
    assert!(should_spawn_terminal(&app, &key(KeyCode::Enter)));
    assert!(!should_spawn_terminal(&app, &key(KeyCode::Char('q'))));
}

#[test]
fn refresh_and_clamp() {
    let mut app = in_project();
    app.refresh_projects(vec!["z".to_string()]);
    assert_eq!(app.projects, vec!["z".to_string()]);
    app.terminal = Some(TerminalStatus { alive: true, scrollback_len: 4 });
    app.scroll_offset = 9;
    app.clamp_scroll();
    assert_eq!(app.scroll_offset, 4);
    assert_eq!(app.focused_block_content(), Some("ls".to_string()));
    app.browse_to_projects();
    assert_eq!(app.sidebar_level, SidebarLevel::Projects);
    assert_eq!(app.current_project, "p");
}

#[test]
fn ascii_template_vars() {
    assert_eq!(extract_template_vars("ssh <user>@<host>:<port_1>"), vec!["user", "host", "port_1"]);
    assert!(extract_template_vars("<a.b> <a/b>").is_empty());
}

#[test]
fn mouse_capture_follows_the_prompt() {
    let prompt = Mode::TemplateInput {
        template: "<a>".to_string(),
        vars: vec!["a".to_string()],
        values: vec![String::new()],
        current: 0,
    };
    assert_eq!(mouse_capture_change(&Mode::Terminal, &prompt), Some(false));
    assert_eq!(mouse_capture_change(&prompt, &Mode::Terminal), Some(true));
    assert_eq!(mouse_capture_change(&Mode::Normal, &Mode::Terminal), None);
    assert_eq!(mouse_capture_change(&prompt, &prompt), None);
}

#[test]
fn status_ticks_count_down() {
    let mut app = in_project();
    app.set_status("x");
    app.tick_status();
    assert_eq!(app.status_ttl, 39);
    assert_eq!(app.status_msg, Some("x".to_string()));
}
