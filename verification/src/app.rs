//! The application's state and every decision it makes on a key, a mouse
//! scroll or a finished piece of outside work. What needs the disk or the
//! terminal process is asked for through `InputResult` or a method's return
//! value, and its outcome is handed back to a method here.
use vstd::prelude::*;

use crate::notes::Note;
use crate::text::{
    append_chars, chars_eq, chars_of, decimal, first_index, lemma_first_index_at, lines, opt_view, parse_usize, push_str,
    replace_all, slice_of, spec_parse_usize, spec_replace, split_lines, string_of, string_views,
    strings_of, trim, trimmed, usize_to_chars, views,
};

verus! {

broadcast use vstd::string::group_string_axioms;

// ── Types ──────────────────────────────────────────────────────────────────

/// What the library knows of the terminal process: whether its shell still
/// runs and how many lines of scrollback it holds.
#[derive(Debug, Clone, Copy, PartialEq, Eq, Structural)]
pub struct TerminalStatus {
    pub alive: bool,
    pub scrollback_len: usize,
}

#[derive(Debug, Clone)]
pub enum Mode {
    /// Sidebar active — browsing projects or notes.
    Normal,
    /// Terminal has focus.
    Terminal,
    /// Filling template variables before executing a block.
    TemplateInput { template: String, vars: Vec<String>, values: Vec<String>, current: usize },
    /// Typing a new project name.
    NewProject,
    /// Waiting for delete confirmation.
    ConfirmDelete,
}

/// Which level the Normal-mode sidebar is showing.
#[derive(Debug, Clone, Copy, PartialEq, Eq, Structural)]
pub enum SidebarLevel {
    /// Project list.
    Projects,
    /// Notes list for current project (left) + note preview (right).
    Notes,
    /// Note content focused — navigating code blocks.
    NoteContent,
}

/// What the caller is to do after a key.
#[derive(Debug)]
pub enum InputResult {
    Consumed,
    ForwardToPty(Vec<u8>),
    CopyBlock,
    EditNote,
    NewNote,
    DeleteNote,
    Ignored,
    /// Load the notes (and, where the terminal runs, the config) of this
    /// project and hand them to `App::project_loaded`.
    LoadProject(String),
    /// Create this project's directories and hand the new project list to
    /// `App::project_created`.
    CreateProject(String),
}

/// A key, as the terminal reports it.
#[derive(Debug, Clone, Copy, PartialEq, Eq, Structural)]
pub enum KeyCode {
    Char(char),
    Enter,
    Backspace,
    Tab,
    BackTab,
    Esc,
    Up,
    Down,
    Left,
    Right,
    Home,
    End,
    PageUp,
    PageDown,
    Delete,
    Insert,
    F(u8),
    Other,
}

/// The modifier keys held with a key.
#[derive(Debug, Clone, Copy, PartialEq, Eq, Structural)]
pub struct KeyModifiers {
    pub shift: bool,
    pub control: bool,
    pub alt: bool,
}

/// A key press.
#[derive(Debug, Clone, Copy, PartialEq, Eq, Structural)]
pub struct KeyEvent {
    pub code: KeyCode,
    pub modifiers: KeyModifiers,
}

/// What a mouse event did.
#[derive(Debug, Clone, Copy, PartialEq, Eq, Structural)]
pub enum MouseEventKind {
    ScrollUp,
    ScrollDown,
    Other,
}

/// A mouse event at a cell of the screen.
#[derive(Debug, Clone, Copy, PartialEq, Eq, Structural)]
pub struct MouseEvent {
    pub kind: MouseEventKind,
    pub column: u16,
    pub row: u16,
}

pub struct App {
    pub mode: Mode,
    pub should_quit: bool,
    pub sidebar_level: SidebarLevel,
    // Projects
    pub projects: Vec<String>,
    pub project_selected: usize,
    pub current_project: String,
    // Terminal
    pub terminal: Option<TerminalStatus>,
    pub scroll_offset: u16,
    // Notes
    pub notes: Vec<Note>,
    pub notes_selected: usize,
    pub block_focused: usize,
    /// Right-side notes panel visible in Terminal mode.
    pub notes_panel_open: bool,
    /// Notes panel has keyboard focus in Terminal mode.
    pub notes_panel_focused: bool,
    pub note_view_scroll: u16,
    // UI
    pub status_msg: Option<String>,
    pub status_ttl: u8,
    pub input_buf: String,
    pub command_bar: Option<String>,
    pub pending_exec: Option<String>,
    // Mouse hit areas (set by the renderer, used for scroll targeting)
    pub terminal_area: Option<(u16, u16, u16, u16)>,
    pub notes_panel_area: Option<(u16, u16, u16, u16)>,
}

// ── Model ──────────────────────────────────────────────────────────────────

pub enum ModeView {
    Normal,
    Terminal,
    TemplateInput {
        template: Seq<char>,
        vars: Seq<Seq<char>>,
        values: Seq<Seq<char>>,
        current: usize,
    },
    NewProject,
    ConfirmDelete,
}

impl View for Mode {
    type V = ModeView;

    open spec fn view(&self) -> ModeView {
        match self {
            Mode::Normal => ModeView::Normal,
            Mode::Terminal => ModeView::Terminal,
            Mode::TemplateInput { template, vars, values, current } => ModeView::TemplateInput {
                template: template@,
                vars: string_views(vars@),
                values: string_views(values@),
                current: *current,
            },
            Mode::NewProject => ModeView::NewProject,
            Mode::ConfirmDelete => ModeView::ConfirmDelete,
        }
    }
}

/// The application state with strings as character sequences.
pub struct AppView {
    pub mode: ModeView,
    pub should_quit: bool,
    pub sidebar_level: SidebarLevel,
    pub projects: Seq<Seq<char>>,
    pub project_selected: usize,
    pub current_project: Seq<char>,
    pub terminal: Option<TerminalStatus>,
    pub scroll_offset: u16,
    pub notes: Seq<Note>,
    pub notes_selected: usize,
    pub block_focused: usize,
    pub notes_panel_open: bool,
    pub notes_panel_focused: bool,
    pub note_view_scroll: u16,
    pub status_msg: Option<Seq<char>>,
    pub status_ttl: u8,
    pub input_buf: Seq<char>,
    pub command_bar: Option<Seq<char>>,
    pub pending_exec: Option<Seq<char>>,
    pub terminal_area: Option<(u16, u16, u16, u16)>,
    pub notes_panel_area: Option<(u16, u16, u16, u16)>,
}

impl View for App {
    type V = AppView;

    open spec fn view(&self) -> AppView {
        AppView {
            mode: self.mode@,
            should_quit: self.should_quit,
            sidebar_level: self.sidebar_level,
            projects: string_views(self.projects@),
            project_selected: self.project_selected,
            current_project: self.current_project@,
            terminal: self.terminal,
            scroll_offset: self.scroll_offset,
            notes: self.notes@,
            notes_selected: self.notes_selected,
            block_focused: self.block_focused,
            notes_panel_open: self.notes_panel_open,
            notes_panel_focused: self.notes_panel_focused,
            note_view_scroll: self.note_view_scroll,
            status_msg: opt_view(self.status_msg),
            status_ttl: self.status_ttl,
            input_buf: self.input_buf@,
            command_bar: opt_view(self.command_bar),
            pending_exec: opt_view(self.pending_exec),
            terminal_area: self.terminal_area,
            notes_panel_area: self.notes_panel_area,
        }
    }
}

/// `InputResult` with its bytes and strings as sequences.
pub enum Response {
    Consumed,
    ForwardToPty(Seq<u8>),
    CopyBlock,
    EditNote,
    NewNote,
    DeleteNote,
    Ignored,
    LoadProject(Seq<char>),
    CreateProject(Seq<char>),
}

impl View for InputResult {
    type V = Response;

    open spec fn view(&self) -> Response {
        match self {
            InputResult::Consumed => Response::Consumed,
            InputResult::ForwardToPty(b) => Response::ForwardToPty(b@),
            InputResult::CopyBlock => Response::CopyBlock,
            InputResult::EditNote => Response::EditNote,
            InputResult::NewNote => Response::NewNote,
            InputResult::DeleteNote => Response::DeleteNote,
            InputResult::Ignored => Response::Ignored,
            InputResult::LoadProject(p) => Response::LoadProject(p@),
            InputResult::CreateProject(p) => Response::CreateProject(p@),
        }
    }
}

/// Number of ticks a status message stays.
pub open spec fn status_ticks() -> u8 {
    40
}

impl AppView {
    /// The template being filled in has a value for each variable and is at one of them.
    pub open spec fn wf(self) -> bool {
        match self.mode {
            ModeView::TemplateInput { vars, values, current, .. } => current < values.len()
                && values.len() == vars.len(),
            _ => true,
        }
    }

    /// The note under the cursor.
    pub open spec fn selected_note(self) -> Option<Note> {
        if self.notes_selected < self.notes.len() {
            Some(self.notes[self.notes_selected as int])
        } else {
            None
        }
    }

    pub open spec fn is_terminal_alive(self) -> bool {
        match self.terminal {
            Some(t) => t.alive,
            None => false,
        }
    }

    pub open spec fn in_terminal_mode(self) -> bool {
        self.mode is Terminal
    }

    /// The content of code block `index` of the selected note.
    pub open spec fn block_content(self, index: int) -> Option<Seq<char>> {
        match self.selected_note() {
            Some(n) => if 0 <= index < n.code_blocks@.len() {
                Some(n.code_blocks@[index].content@)
            } else {
                None
            },
            None => None,
        }
    }

    pub open spec fn set_status(self, msg: Seq<char>) -> AppView {
        AppView { status_msg: Some(msg), status_ttl: status_ticks(), ..self }
    }

    pub open spec fn tick_status(self) -> AppView {
        if self.status_ttl > 0 {
            let t = (self.status_ttl - 1) as u8;
            AppView { status_ttl: t, status_msg: if t == 0 { None } else { self.status_msg }, ..self }
        } else {
            self
        }
    }

    pub open spec fn select_next_project(self) -> AppView {
        if self.projects.len() > 0 {
            AppView {
                project_selected: ((self.project_selected + 1) % (self.projects.len() as int)) as usize,
                ..self
            }
        } else {
            self
        }
    }

    pub open spec fn select_prev_project(self) -> AppView {
        if self.projects.len() > 0 {
            AppView {
                project_selected: if self.project_selected == 0 {
                    (self.projects.len() - 1) as usize
                } else {
                    (self.project_selected - 1) as usize
                },
                ..self
            }
        } else {
            self
        }
    }

    pub open spec fn select_next_note(self) -> AppView {
        if self.notes.len() > 0 {
            AppView {
                notes_selected: ((self.notes_selected + 1) % (self.notes.len() as int)) as usize,
                block_focused: 0,
                note_view_scroll: 0,
                ..self
            }
        } else {
            self
        }
    }

    pub open spec fn select_prev_note(self) -> AppView {
        if self.notes.len() > 0 {
            AppView {
                notes_selected: if self.notes_selected == 0 {
                    (self.notes.len() - 1) as usize
                } else {
                    (self.notes_selected - 1) as usize
                },
                block_focused: 0,
                note_view_scroll: 0,
                ..self
            }
        } else {
            self
        }
    }

    pub open spec fn next_block(self) -> AppView {
        match self.selected_note() {
            Some(n) => {
                let count = n.code_blocks@.len();
                if count > 0 {
                    AppView {
                        block_focused: ((self.block_focused + 1) % (count as int)) as usize,
                        note_view_scroll: 0,
                        ..self
                    }
                } else {
                    self
                }
            },
            None => self,
        }
    }

    pub open spec fn prev_block(self) -> AppView {
        match self.selected_note() {
            Some(n) => {
                let count = n.code_blocks@.len();
                if count > 0 {
                    AppView {
                        block_focused: if self.block_focused == 0 {
                            (count - 1) as usize
                        } else {
                            (self.block_focused - 1) as usize
                        },
                        note_view_scroll: 0,
                        ..self
                    }
                } else {
                    self
                }
            },
            None => self,
        }
    }

    pub open spec fn clamp_scroll(self) -> AppView {
        match self.terminal {
            Some(t) => {
                let max = t.scrollback_len as u16;
                AppView {
                    scroll_offset: if self.scroll_offset < max {
                        self.scroll_offset
                    } else {
                        max
                    },
                    ..self
                }
            },
            None => self,
        }
    }

    pub open spec fn toggle_notes_panel(self) -> AppView {
        AppView {
            notes_panel_open: !self.notes_panel_open,
            notes_panel_focused: false,
            ..self
        }
    }

    pub open spec fn open_notes_browser(self) -> AppView {
        AppView {
            notes_panel_open: false,
            notes_panel_focused: false,
            mode: ModeView::Normal,
            sidebar_level: SidebarLevel::Notes,
            ..self
        }
    }

    pub open spec fn back_to_projects(self) -> AppView {
        AppView {
            sidebar_level: SidebarLevel::Projects,
            current_project: seq![],
            notes: seq![],
            terminal: None,
            ..self
        }
    }

    pub open spec fn browse_to_projects(self) -> AppView {
        AppView { sidebar_level: SidebarLevel::Projects, ..self }
    }

    pub open spec fn check_terminal_alive(self) -> AppView {
        match self.terminal {
            Some(t) => if !t.alive {
                AppView {
                    terminal: None,
                    mode: ModeView::Normal,
                    sidebar_level: SidebarLevel::Notes,
                    notes_panel_open: false,
                    notes_panel_focused: false,
                    ..self
                }.set_status("Terminal exited"@)
            } else {
                self
            },
            None => self,
        }
    }

    /// Runs `content` as a command, or asks for its template variables first.
    pub open spec fn execute_content(self, content: Seq<char>) -> AppView {
        let vars = spec_template_vars(content);
        if vars.len() == 0 {
            AppView {
                pending_exec: Some(content),
                mode: ModeView::Terminal,
                notes_panel_open: true,
                notes_panel_focused: false,
                ..self
            }
        } else {
            AppView {
                mode: ModeView::TemplateInput {
                    template: content,
                    vars,
                    values: Seq::new(vars.len(), |i: int| Seq::<char>::empty()),
                    current: 0,
                },
                ..self
            }
        }
    }

    pub open spec fn execute_focused_block(self) -> AppView {
        match self.block_content(self.block_focused as int) {
            Some(c) => self.execute_content(c),
            None => self,
        }
    }

    pub open spec fn execute_block_by_index(self, index: usize) -> AppView {
        match self.block_content(index as int) {
            Some(c) => AppView { block_focused: index, note_view_scroll: 0, ..self }.execute_content(
                c,
            ),
            None => self.set_status("No block ["@ + decimal(index as nat) + "]"@),
        }
    }

    pub open spec fn submit_template_var(self) -> AppView {
        match self.mode {
            ModeView::TemplateInput { template, vars, values, current } => {
                if values[current as int].len() == 0 {
                    self.set_status("Value cannot be empty"@)
                } else if current + 1 < vars.len() {
                    AppView {
                        mode: ModeView::TemplateInput {
                            template,
                            vars,
                            values,
                            current: (current + 1) as usize,
                        },
                        ..self
                    }
                } else {
                    AppView {
                        pending_exec: Some(fill_template(template, vars, values)),
                        mode: ModeView::Terminal,
                        notes_panel_open: true,
                        notes_panel_focused: false,
                        ..self
                    }
                }
            },
            _ => self,
        }
    }

    pub open spec fn submit_command_bar(self) -> AppView {
        match self.command_bar {
            Some(input) => {
                let v = AppView { command_bar: None, ..self };
                let t = trim(input);
                match spec_parse_usize(t) {
                    Some(index) => v.execute_block_by_index(index as usize),
                    None => v.set_status("Invalid block number: "@ + t),
                }
            },
            None => self,
        }
    }
}

// ── Template variables ─────────────────────────────────────────────────────

/// `char::is_alphanumeric` (Unicode `Alphabetic` or `Numeric`).
pub uninterp spec fn unicode_alphanumeric(c: char) -> bool;

/// ASCII letters and digits.
pub open spec fn ascii_alphanumeric(c: char) -> bool {
    ('a' <= c && c <= 'z') || ('A' <= c && c <= 'Z') || ('0' <= c && c <= '9')
}

/// `char::is_alphanumeric`: whether `c` is Unicode alphabetic or numeric;
/// only the name of that property is stated here.
#[verifier::external_body]
fn is_alphanumeric(c: char) -> (r: bool)
    ensures
        r == unicode_alphanumeric(c),
{
    c.is_alphanumeric()
}

/// `char::is_alphanumeric`: among ASCII characters the letters and digits,
/// beyond ASCII the Unicode alphabetic and numeric characters.
pub open spec fn alphanumeric(c: char) -> bool {
    if c <= '\x7f' {
        ascii_alphanumeric(c)
    } else {
        unicode_alphanumeric(c)
    }
}

/// `char::is_alphanumeric`, tested in place for ASCII characters.
fn alphanumeric_char(c: char) -> (r: bool)
    ensures
        r == alphanumeric(c),
{
    if c <= '\x7f' {
        ('a' <= c && c <= 'z') || ('A' <= c && c <= 'Z') || ('0' <= c && c <= '9')
    } else {
        is_alphanumeric(c)
    }
}

/// A character a template variable's name may hold.
pub open spec fn var_char(c: char) -> bool {
    alphanumeric(c) || c == '_' || c == '-'
}

/// A template variable's name: non-empty, of name characters only.
pub open spec fn valid_var(v: Seq<char>) -> bool {
    v.len() > 0 && forall|i: int| 0 <= i < v.len() ==> var_char(#[trigger] v[i])
}

/// The variables found in `s`, after those already `found`: each `<` starts
/// a name that runs to the next `>` (or the end); valid names are taken
/// once, in order of first appearance.
pub open spec fn template_scan(s: Seq<char>, found: Seq<Seq<char>>) -> Seq<Seq<char>>
    decreases s.len(),
{
    if s.len() == 0 {
        found
    } else if s[0] != '<' {
        template_scan(s.drop_first(), found)
    } else {
        let rest = s.drop_first();
        let j = crate::text::first_index(rest, '>');
        let name = rest.take(j as int);
        let after = if j < rest.len() {
            rest.skip(j + 1 as int)
        } else {
            seq![]
        };
        let found2 = if valid_var(name) && !found.contains(name) {
            found.push(name)
        } else {
            found
        };
        proof {
            crate::text::lemma_first_index_bound(rest, '>');
        }
        template_scan(after, found2)
    }
}

/// The distinct `<name>` template variables of a command, in order.
pub open spec fn spec_template_vars(s: Seq<char>) -> Seq<Seq<char>> {
    template_scan(s, seq![])
}

/// `<name>`
pub open spec fn placeholder(name: Seq<char>) -> Seq<char> {
    seq!['<'] + name + seq!['>']
}

/// The template with each `<var>` replaced by its value, variable by variable.
pub open spec fn fill_template(t: Seq<char>, vars: Seq<Seq<char>>, values: Seq<Seq<char>>) -> Seq<
    char,
>
    decreases vars.len(),
{
    if vars.len() == 0 || values.len() == 0 {
        t
    } else {
        let n = if vars.len() < values.len() {
            vars.len()
        } else {
            values.len()
        };
        spec_replace(
            fill_template(t, vars.take(n - 1), values.take(n - 1)),
            placeholder(vars[n - 1]),
            values[n - 1],
        )
    }
}

/// Stepping within `0..n` from `a % n` is stepping from `a`.
proof fn lemma_succ_mod(a: int, n: int)
    requires
        a >= 0,
        n > 0,
    ensures
        (a % n + 1) % n == (a + 1) % n,
{
    vstd::arithmetic::div_mod::lemma_add_mod_noop(a, 1, n);
    vstd::arithmetic::div_mod::lemma_mod_twice(a, n);
    vstd::arithmetic::div_mod::lemma_add_mod_noop(a % n, 1, n);
}

/// The first index at which `x` stands in `s`.
pub open spec fn position_of(s: Seq<Seq<char>>, x: Seq<char>) -> Option<nat>
    decreases s.len(),
{
    if s.len() == 0 {
        None
    } else if s[0] == x {
        Some(0)
    } else {
        match position_of(s.drop_first(), x) {
            Some(i) => Some(i + 1),
            None => None,
        }
    }
}

/// `position_of` finds the first occurrence.
pub proof fn lemma_position_of(s: Seq<Seq<char>>, x: Seq<char>, i: int)
    requires
        0 <= i <= s.len(),
        forall|k: int| 0 <= k < i ==> #[trigger] s[k] != x,
    ensures
        i < s.len() && s[i] == x ==> position_of(s, x) == Some(i as nat),
        i == s.len() ==> position_of(s, x) is None,
    decreases i,
{
    if i > 0 {
        assert forall|k: int| 0 <= k < i - 1 implies #[trigger] s.drop_first()[k] != x by {
            assert(s.drop_first()[k] == s[k + 1]);
        }
        lemma_position_of(s.drop_first(), x, i - 1);
    }
}

/// The index of `name` in the project list, or 0.
pub open spec fn spec_projects_index(projects: Seq<Seq<char>>, name: Seq<char>) -> usize {
    match position_of(projects, name) {
        Some(i) => i as usize,
        None => 0,
    }
}

/// The state a project browser starts in.
pub open spec fn browser_view(projects: Seq<Seq<char>>) -> AppView {
    AppView {
        mode: ModeView::Normal,
        should_quit: false,
        sidebar_level: SidebarLevel::Projects,
        projects,
        project_selected: 0,
        current_project: seq![],
        terminal: None,
        scroll_offset: 0,
        notes: seq![],
        notes_selected: 0,
        block_focused: 0,
        notes_panel_open: false,
        notes_panel_focused: false,
        note_view_scroll: 0,
        status_msg: None,
        status_ttl: 0,
        input_buf: seq![],
        command_bar: None,
        pending_exec: None,
        terminal_area: None,
        notes_panel_area: None,
    }
}

/// The area holds the cell (the area's far edges within `u16`).
pub open spec fn spec_point_in(area: Option<(u16, u16, u16, u16)>, col: u16, row: u16) -> bool {
    match area {
        Some((x, y, w, h)) => col >= x && col < x + w && row >= y && row < y + h,
        None => false,
    }
}

/// The area's far edges are within `u16`, as the renderer's areas are.
pub open spec fn area_fits(area: Option<(u16, u16, u16, u16)>) -> bool {
    match area {
        Some((x, y, w, h)) => x + w <= u16::MAX && y + h <= u16::MAX,
        None => true,
    }
}

/// `a - b`, or 0.
pub open spec fn sat_sub(a: u16, b: u16) -> u16 {
    if a >= b {
        (a - b) as u16
    } else {
        0
    }
}

/// `a + b`, or `u16::MAX`.
pub open spec fn sat_add(a: u16, b: u16) -> u16 {
    if a + b <= u16::MAX {
        (a + b) as u16
    } else {
        u16::MAX
    }
}

/// The PTY size for a screen of `total_rows` by `total_cols`: one row less
/// for the status bar, and, with the notes panel open, the panel's width
/// (42, or less on a narrow screen) and its two border columns less; never
/// below one row or one column.
pub open spec fn spec_pty_size(total_rows: u16, total_cols: u16, notes_open: bool) -> (u16, u16) {
    let rows = sat_sub(total_rows, 1);
    let rows = if rows < 1 {
        1u16
    } else {
        rows
    };
    let cols = if notes_open {
        let sub20 = sat_sub(total_cols, 20);
        let panel_w = if 42 < sub20 {
            42u16
        } else {
            sub20
        };
        let c = sat_sub(total_cols, (panel_w + 2) as u16);
        if c < 1 {
            1u16
        } else {
            c
        }
    } else if total_cols < 1 {
        1u16
    } else {
        total_cols
    };
    (rows, cols)
}

impl AppView {
    /// Loads a project chosen in the list; the name to load the notes of.
    pub open spec fn select_project(self) -> (AppView, Option<Seq<char>>) {
        if self.project_selected < self.projects.len() {
            let p = self.projects[self.project_selected as int];
            (
                AppView {
                    current_project: p,
                    notes_selected: 0,
                    block_focused: 0,
                    note_view_scroll: 0,
                    sidebar_level: SidebarLevel::Notes,
                    ..self
                },
                Some(p),
            )
        } else {
            (self, None)
        }
    }

    /// The chosen project's notes have been loaded, and, where the terminal
    /// runs, its config's working directory.
    pub open spec fn project_loaded(self, notes: Seq<Note>, working_dir: Option<Seq<char>>) -> AppView {
        let v = AppView { notes, ..self };
        match working_dir {
            Some(d) => if v.is_terminal_alive() && d.len() > 0 {
                AppView { pending_exec: Some("cd "@ + d), ..v }
            } else {
                v
            },
            None => v,
        }
    }

    /// Takes the typed project name; the name to create, unless it is blank.
    pub open spec fn create_project(self) -> (AppView, Option<Seq<char>>) {
        let name = trim(self.input_buf);
        if name.len() == 0 {
            (AppView { mode: ModeView::Normal, ..self }, None)
        } else {
            (AppView { input_buf: seq![], ..self }, Some(name))
        }
    }

    /// The project has been created and the list read anew.
    pub open spec fn project_created(self, name: Seq<char>, projects: Seq<Seq<char>>) -> AppView {
        let v = AppView { projects, ..self };
        let v = match position_of(projects, name) {
            Some(i) => AppView { project_selected: i as usize, ..v },
            None => v,
        };
        AppView { mode: ModeView::Normal, ..v }.set_status("Created: "@ + name)
    }

    pub open spec fn reload_notes(self, notes: Seq<Note>) -> AppView {
        if self.current_project.len() > 0 {
            let v = AppView { notes, ..self };
            if v.notes_selected >= notes.len() {
                AppView {
                    notes_selected: if notes.len() == 0 {
                        0
                    } else {
                        (notes.len() - 1) as usize
                    },
                    ..v
                }
            } else {
                v
            }
        } else {
            self
        }
    }

    /// The terminal process has been started, or failed to start with this message.
    pub open spec fn terminal_spawned(self, result: Result<(), Seq<char>>) -> AppView {
        match result {
            Ok(()) => AppView {
                terminal: Some(TerminalStatus { alive: true, scrollback_len: 0 }),
                mode: ModeView::Terminal,
                scroll_offset: 0,
                ..self
            },
            Err(e) => self.set_status("Spawn failed: "@ + e),
        }
    }

    /// The PTY size to give a running terminal on a screen of this size.
    pub open spec fn resize_terminal(self, total_cols: u16, total_rows: u16) -> Option<(u16, u16)> {
        if self.is_terminal_alive() {
            Some(spec_pty_size(total_rows, total_cols, self.notes_panel_open))
        } else {
            None
        }
    }

    pub open spec fn handle_mouse(self, m: MouseEvent) -> AppView {
        let over_notes = spec_point_in(self.notes_panel_area, m.column, m.row);
        let over_terminal = spec_point_in(self.terminal_area, m.column, m.row);
        match m.kind {
            MouseEventKind::ScrollUp => if over_notes {
                if self.notes_panel_focused {
                    AppView { note_view_scroll: sat_sub(self.note_view_scroll, 3), ..self }
                } else {
                    self.select_prev_note()
                }
            } else if over_terminal && self.in_terminal_mode() {
                AppView { scroll_offset: sat_add(self.scroll_offset, 3), ..self }.clamp_scroll()
            } else {
                self
            },
            MouseEventKind::ScrollDown => if over_notes {
                if self.notes_panel_focused {
                    AppView { note_view_scroll: sat_add(self.note_view_scroll, 3), ..self }
                } else {
                    self.select_next_note()
                }
            } else if over_terminal && self.in_terminal_mode() {
                AppView { scroll_offset: sat_sub(self.scroll_offset, 3), ..self }
            } else {
                self
            },
            MouseEventKind::Other => self,
        }
    }
}

// ── State changes ──────────────────────────────────────────────────────────

/// The position of `name` among `names`, if any.
fn position(names: &Vec<String>, name: &str) -> (r: Option<usize>)
    ensures
        match (r, position_of(string_views(names@), name@)) {
            (Some(i), Some(j)) => i == j,
            (None, None) => true,
            _ => false,
        },
{
    let target = String::from_str(name);
    let ghost sv = string_views(names@);
    let mut i: usize = 0;
    while i < names.len()
        invariant
            i <= names.len(),
            sv == string_views(names@),
            target@ == name@,
            forall|k: int| 0 <= k < i ==> #[trigger] sv[k] != name@,
        decreases names.len() - i,
    {
        if names[i] == target {
            proof {
                lemma_position_of(sv, name@, i as int);
            }
            return Some(i);
        }
        i += 1;
    }
    proof {
        lemma_position_of(sv, name@, i as int);
    }
    None
}

/// The index of `name` in the project list, or 0.
pub fn projects_index(projects: &Vec<String>, name: &str) -> (r: usize)
    ensures
        r == spec_projects_index(string_views(projects@), name@),
{
    match position(projects, name) {
        Some(i) => i,
        None => 0,
    }
}

/// Whether the cell is in the area.
pub fn point_in(area: Option<(u16, u16, u16, u16)>, col: u16, row: u16) -> (r: bool)
    requires
        area_fits(area),
    ensures
        r == spec_point_in(area, col, row),
{
    match area {
        Some((x, y, w, h)) => col >= x && col < x + w && row >= y && row < y + h,
        None => false,
    }
}

/// Calculate PTY dimensions given total terminal size and whether notes panel is open.
pub fn terminal_pty_size(total_rows: u16, total_cols: u16, notes_open: bool) -> (r: (u16, u16))
    ensures
        r == spec_pty_size(total_rows, total_cols, notes_open),
{
    let status_rows: u16 = 1;
    let notes_border: u16 = 2;
    let rows = total_rows.saturating_sub(status_rows).max(1);
    let cols = if notes_open {
        let panel_w = 42u16.min(total_cols.saturating_sub(20));
        total_cols.saturating_sub(panel_w + notes_border).max(1)
    } else {
        total_cols.max(1)
    };
    (rows, cols)
}

/// The distinct `<name>` template variables of a command, in order of first
/// appearance: a name runs from a `<` to the next `>` (or the end) and holds
/// only alphanumerics, `_` and `-`.
pub fn extract_template_vars(content: &str) -> (vars: Vec<String>)
    ensures
        string_views(vars@) == spec_template_vars(content@),
{
    let s = chars_of(content);
    let mut vars: Vec<Vec<char>> = Vec::new();
    let mut i: usize = 0;
    assert(s@.skip(0) =~= s@);
    assert(views(vars@) =~= seq![]);
    while i < s.len()
        invariant
            i <= s.len(),
            spec_template_vars(s@) == template_scan(s@.skip(i as int), views(vars@)),
        decreases s.len() - i,
    {
        let ghost tail = s@.skip(i as int);
        if s[i] != '<' {
            assert(tail.drop_first() =~= s@.skip(i + 1));
            i += 1;
        } else {
            let start = i + 1;
            let mut j = start;
            while j < s.len() && s[j] != '>'
                invariant
                    start <= j <= s.len(),
                    forall|k: int| start <= k < j ==> #[trigger] s@[k] != '>',
                decreases s.len() - j,
            {
                j += 1;
            }
            let ghost rest = tail.drop_first();
            assert(rest =~= s@.skip(start as int));
            proof {
                assert forall|k: int| 0 <= k < j - start implies #[trigger] rest[k] != '>' by {
                    assert(rest[k] == s@[k + start]);
                }
                lemma_first_index_at(rest, '>', j - start);
            }
            let name = slice_of(&s, start, j);
            assert(name@ =~= rest.take(j - start));
            let valid = valid_name(&name);
            let mut seen = false;
            let mut k: usize = 0;
            let ghost vv = views(vars@);
            while k < vars.len()
                invariant
                    k <= vars.len(),
                    vv == views(vars@),
                    seen == (exists|w: int| 0 <= w < k && #[trigger] vv[w] == name@),
                decreases vars.len() - k,
            {
                if chars_eq(&vars[k], &name) {
                    seen = true;
                }
                proof {
                    assert(vv[k as int] == vars@[k as int]@);
                    if !seen {
                        assert forall|w: int| 0 <= w < k + 1 implies #[trigger] vv[w] != name@ by {
                            if w == k {
                                assert(vv[w] == vars@[k as int]@);
                            }
                        }
                    }
                }
                k += 1;
            }
            assert(seen == vv.contains(name@));
            if valid && !seen {
                let ghost before = views(vars@);
                vars.push(name);
                assert(views(vars@) =~= before.push(rest.take(j - start)));
            }
            if j < s.len() {
                assert(rest.skip(j - start + 1) =~= s@.skip(j + 1));
                i = j + 1;
            } else {
                assert(s@.skip(s.len() as int) =~= seq![]);
                i = s.len();
            }
        }
    }
    strings_of(&vars)
}

/// Whether `name` is a valid template variable name.
fn valid_name(name: &Vec<char>) -> (r: bool)
    ensures
        r == valid_var(name@),
{
    if name.len() == 0 {
        return false;
    }
    let mut i: usize = 0;
    while i < name.len()
        invariant
            i <= name.len(),
            forall|k: int| 0 <= k < i ==> var_char(#[trigger] name@[k]),
        decreases name.len() - i,
    {
        let c = name[i];
        if !(alphanumeric_char(c) || c == '_' || c == '-') {
            return false;
        }
        i += 1;
    }
    true
}

/// The template with each `<var>` replaced by its value.
fn fill(template: &String, vars: &Vec<String>, values: &Vec<String>) -> (r: String)
    requires
        vars.len() == values.len(),
    ensures
        r@ == fill_template(template@, string_views(vars@), string_views(values@)),
{
    let ghost vs = string_views(vars@);
    let ghost ws = string_views(values@);
    let mut result = chars_of(template.as_str());
    let mut k: usize = 0;
    assert(vs.take(0) =~= seq![]);
    while k < vars.len()
        invariant
            k <= vars.len() == values.len(),
            vs == string_views(vars@),
            ws == string_views(values@),
            result@ == fill_template(template@, vs.take(k as int), ws.take(k as int)),
        decreases vars.len() - k,
    {
        let mut ph: Vec<char> = Vec::new();
        ph.push('<');
        push_str(&mut ph, vars[k].as_str());
        ph.push('>');
        assert(ph@ =~= placeholder(vs[k as int]));
        let val = chars_of(values[k].as_str());
        result = replace_all(&result, &ph, &val);
        assert(vs.take(k + 1).take(k as int) =~= vs.take(k as int));
        assert(ws.take(k + 1).take(k as int) =~= ws.take(k as int));
        k += 1;
    }
    assert(vs.take(vars.len() as int) =~= vs);
    assert(ws.take(values.len() as int) =~= ws);
    string_of(&result)
}

/// The lines of a command to send to the shell, each ended by `\r`;
/// blank lines and `#` comments are left out.
pub open spec fn command_lines_of(ls: Seq<Seq<char>>) -> Seq<Seq<char>>
    decreases ls.len(),
{
    if ls.len() == 0 {
        seq![]
    } else {
        let rest = command_lines_of(ls.drop_last());
        let t = trim(ls.last());
        if t.len() == 0 || t[0] == '#' {
            rest
        } else {
            rest.push(ls.last().push('\r'))
        }
    }
}

/// The lines of a pending command to write to the terminal.
pub fn command_lines(cmd: &str) -> (r: Vec<String>)
    ensures
        string_views(r@) == command_lines_of(lines(cmd@)),
{
    let c = chars_of(cmd);
    let ls = split_lines(&c);
    let ghost lv = views(ls@);
    let mut out: Vec<Vec<char>> = Vec::new();
    let mut i: usize = 0;
    assert(lv.take(0) =~= seq![]);
    while i < ls.len()
        invariant
            i <= ls.len(),
            lv == views(ls@),
            views(out@) == command_lines_of(lv.take(i as int)),
        decreases ls.len() - i,
    {
        assert(lv.take(i + 1).drop_last() =~= lv.take(i as int));
        let t = trimmed(&ls[i]);
        if !(t.len() == 0 || t[0] == '#') {
            let mut l = slice_of(&ls[i], 0, ls[i].len());
            assert(l@ =~= ls@[i as int]@);
            l.push('\r');
            let ghost before = views(out@);
            out.push(l);
            assert(views(out@) =~= before.push(l@));
        }
        i += 1;
    }
    assert(lv.take(ls.len() as int) =~= lv);
    strings_of(&out)
}

impl App {
    pub fn new_browser(projects: Vec<String>) -> (app: App)
        ensures
            app@ == browser_view(string_views(projects@)),
    {
        App {
            mode: Mode::Normal,
            should_quit: false,
            sidebar_level: SidebarLevel::Projects,
            projects,
            project_selected: 0,
            current_project: String::new(),
            terminal: None,
            scroll_offset: 0,
            notes: Vec::new(),
            notes_selected: 0,
            block_focused: 0,
            notes_panel_open: false,
            notes_panel_focused: false,
            note_view_scroll: 0,
            status_msg: None,
            status_ttl: 0,
            input_buf: String::new(),
            command_bar: None,
            pending_exec: None,
            terminal_area: None,
            notes_panel_area: None,
        }
    }

    /// The state when started in a project, with the project list and that
    /// project's notes: terminal mode, the project selected in the list.
    pub fn new_in_project(project: &str, projects: Vec<String>, notes: Vec<Note>) -> (app: App)
        ensures
            app@ == (AppView {
                mode: ModeView::Terminal,
                sidebar_level: SidebarLevel::Notes,
                project_selected: spec_projects_index(string_views(projects@), project@),
                current_project: project@,
                notes: notes@,
                ..browser_view(string_views(projects@))
            }),
    {
        let project_selected = projects_index(&projects, project);
        App {
            mode: Mode::Terminal,
            should_quit: false,
            sidebar_level: SidebarLevel::Notes,
            projects,
            project_selected,
            current_project: String::from_str(project),
            terminal: None,
            scroll_offset: 0,
            notes,
            notes_selected: 0,
            block_focused: 0,
            notes_panel_open: false,
            notes_panel_focused: false,
            note_view_scroll: 0,
            status_msg: None,
            status_ttl: 0,
            input_buf: String::new(),
            command_bar: None,
            pending_exec: None,
            terminal_area: None,
            notes_panel_area: None,
        }
    }

    // ── Project / notes loading ───────────────────────────────────────────

    /// Opens the project under the cursor; returns its name, whose notes
    /// (and config, where the terminal runs) are to be loaded.
    pub fn select_project(&mut self) -> (r: Option<String>)
        ensures
            (final(self)@, opt_view(r)) == old(self)@.select_project(),
    {
        if self.project_selected >= self.projects.len() {
            return None;
        }
        let project = self.projects[self.project_selected].clone();
        self.current_project = project.clone();
        self.notes_selected = 0;
        self.block_focused = 0;
        self.note_view_scroll = 0;
        self.sidebar_level = SidebarLevel::Notes;
        Some(project)
    }

    /// Takes the selected project's notes, and its config's working
    /// directory where the terminal runs (to `cd` into).
    pub fn project_loaded(&mut self, notes: Vec<Note>, working_dir: Option<String>)
        ensures
            final(self)@ == old(self)@.project_loaded(notes@, opt_view(working_dir)),
    {
        self.notes = notes;
        if self.is_terminal_alive() {
            match working_dir {
                Some(dir) => {
                    if !dir.as_str().is_empty() {
                        let mut cmd = chars_of("cd ");
                        push_str(&mut cmd, dir.as_str());
                        self.pending_exec = Some(string_of(&cmd));
                    }
                },
                None => {},
            }
        }
    }

    pub fn back_to_projects(&mut self)
        ensures
            final(self)@ == old(self)@.back_to_projects(),
    {
        self.sidebar_level = SidebarLevel::Projects;
        self.current_project = String::new();
        self.notes.clear();
        self.terminal = None;
    }

    /// Go to project list without killing an active terminal session.
    pub fn browse_to_projects(&mut self)
        ensures
            final(self)@ == old(self)@.browse_to_projects(),
    {
        self.sidebar_level = SidebarLevel::Projects;
    }

    /// Takes the project list read anew.
    pub fn refresh_projects(&mut self, projects: Vec<String>)
        ensures
            final(self)@ == (AppView { projects: string_views(projects@), ..old(self)@ }),
    {
        self.projects = projects;
    }

    /// Takes the current project's notes read anew, keeping the selection in range.
    pub fn reload_notes(&mut self, notes: Vec<Note>)
        ensures
            final(self)@ == old(self)@.reload_notes(notes@),
    {
        if !self.current_project.as_str().is_empty() {
            self.notes = notes;
            if self.notes_selected >= self.notes.len() {
                self.notes_selected = self.notes.len().saturating_sub(1);
            }
        }
    }

    /// Takes the typed name of a new project; returns it, trimmed, to be
    /// created, or leaves the prompt where it is blank.
    pub fn create_project(&mut self) -> (r: Option<String>)
        ensures
            (final(self)@, opt_view(r)) == old(self)@.create_project(),
    {
        let name = trimmed(&chars_of(self.input_buf.as_str()));
        if name.len() == 0 {
            self.mode = Mode::Normal;
            return None;
        }
        self.input_buf = String::new();
        Some(string_of(&name))
    }

    /// The project has been created; takes the project list read anew.
    pub fn project_created(&mut self, name: &str, projects: Vec<String>)
        ensures
            final(self)@ == old(self)@.project_created(name@, string_views(projects@)),
    {
        self.projects = projects;
        match position(&self.projects, name) {
            Some(idx) => {
                self.project_selected = idx;
            },
            None => {},
        }
        self.mode = Mode::Normal;
        let mut msg = chars_of("Created: ");
        push_str(&mut msg, name);
        let msg = string_of(&msg);
        self.set_status(msg.as_str());
    }

    // ── Terminal ──────────────────────────────────────────────────────────

    /// The terminal process has been started, or has failed to with this message.
    pub fn terminal_spawned(&mut self, result: Result<(), String>)
        ensures
            final(self)@ == old(self)@.terminal_spawned(match result {
                Ok(()) => Ok(()),
                Err(e) => Err(e@),
            }),
    {
        match result {
            Ok(()) => {
                self.terminal = Some(TerminalStatus { alive: true, scrollback_len: 0 });
                self.mode = Mode::Terminal;
                self.scroll_offset = 0;
            },
            Err(e) => {
                let mut msg = chars_of("Spawn failed: ");
                push_str(&mut msg, e.as_str());
                let msg = string_of(&msg);
                self.set_status(msg.as_str());
            },
        }
    }

    pub fn is_terminal_alive(&self) -> (r: bool)
        ensures
            r == self@.is_terminal_alive(),
    {
        match self.terminal {
            Some(t) => t.alive,
            None => false,
        }
    }

    /// Drops a terminal whose shell has exited and goes back to the notes.
    pub fn check_terminal_alive(&mut self)
        ensures
            final(self)@ == old(self)@.check_terminal_alive(),
    {
        let dead = match self.terminal {
            Some(t) => !t.alive,
            None => false,
        };
        if dead {
            self.terminal = None;
            self.mode = Mode::Normal;
            self.sidebar_level = SidebarLevel::Notes;
            self.notes_panel_open = false;
            self.notes_panel_focused = false;
            self.set_status("Terminal exited");
        }
    }

    /// The PTY size to resize a running terminal to, for a screen of this size.
    pub fn resize_terminal(&self, total_cols: u16, total_rows: u16) -> (r: Option<(u16, u16)>)
        ensures
            r == self@.resize_terminal(total_cols, total_rows),
    {
        if !self.is_terminal_alive() {
            return None;
        }
        Some(terminal_pty_size(total_rows, total_cols, self.notes_panel_open))
    }

    // ── Notes panel ───────────────────────────────────────────────────────

    /// Toggle notes panel open/closed. Focus is managed separately via ctrl+w.
    pub fn toggle_notes_panel(&mut self)
        ensures
            final(self)@ == old(self)@.toggle_notes_panel(),
    {
        self.notes_panel_open = !self.notes_panel_open;
        self.notes_panel_focused = false;
    }

    /// Open notes panel and switch to Normal/Notes so user can pick a note.
    pub fn open_notes_browser(&mut self)
        ensures
            final(self)@ == old(self)@.open_notes_browser(),
    {
        self.notes_panel_open = false;
        self.notes_panel_focused = false;
        self.mode = Mode::Normal;
        self.sidebar_level = SidebarLevel::Notes;
    }

    // ── Note helpers ──────────────────────────────────────────────────────

    pub fn selected_note(&self) -> (r: Option<&Note>)
        ensures
            match r {
                Some(n) => self@.selected_note() == Some(*n),
                None => self@.selected_note() is None,
            },
    {
        if self.notes_selected < self.notes.len() {
            Some(&self.notes[self.notes_selected])
        } else {
            None
        }
    }

    /// The content of code block `index` of the selected note.
    fn block_content(&self, index: usize) -> (r: Option<String>)
        ensures
            opt_view(r) == self@.block_content(index as int),
    {
        match self.selected_note() {
            Some(n) => if index < n.code_blocks.len() {
                Some(n.code_blocks[index].content.clone())
            } else {
                None
            },
            None => None,
        }
    }

    pub fn focused_block_content(&self) -> (r: Option<String>)
        ensures
            opt_view(r) == self@.block_content(self.block_focused as int),
    {
        self.block_content(self.block_focused)
    }

    pub fn execute_focused_block(&mut self)
        ensures
            final(self)@ == old(self)@.execute_focused_block(),
    {
        match self.focused_block_content() {
            Some(content) => self.execute_content(content),
            None => {},
        }
    }

    /// Runs code block `index` of the selected note.
    pub fn execute_block_by_index(&mut self, index: usize)
        ensures
            final(self)@ == old(self)@.execute_block_by_index(index),
    {
        match self.block_content(index) {
            Some(content) => {
                self.block_focused = index;
                self.note_view_scroll = 0;
                self.execute_content(content);
            },
            None => {
                let mut msg = chars_of("No block [");
                let digits = usize_to_chars(index);
                append_chars(&mut msg, &digits);
                msg.push(']');
                assert(msg@ =~= "No block ["@ + decimal(index as nat) + "]"@) by {
                    reveal_strlit("]");
                }
                let msg = string_of(&msg);
                self.set_status(msg.as_str());
            },
        }
    }

    /// Runs `content` as a command, or asks for its template variables first.
    fn execute_content(&mut self, content: String)
        ensures
            final(self)@ == old(self)@.execute_content(content@),
    {
        let vars = extract_template_vars(content.as_str());
        if vars.len() == 0 {
            self.pending_exec = Some(content);
            self.mode = Mode::Terminal;
            self.notes_panel_open = true;
            self.notes_panel_focused = false;
        } else {
            let mut values: Vec<String> = Vec::new();
            let mut i: usize = 0;
            while i < vars.len()
                invariant
                    i <= vars.len(),
                    string_views(values@) =~= Seq::new(i as nat, |k: int| Seq::<char>::empty()),
                decreases vars.len() - i,
            {
                let e = String::new();
                let ghost before = values@;
                values.push(e);
                assert(string_views(values@) =~= string_views(before).push(e@));
                i += 1;
            }
            self.mode = Mode::TemplateInput { template: content, vars, values, current: 0 };
        }
    }

    /// Takes the value typed for the current template variable: an empty
    /// one is refused, else the next variable is asked for, or after the
    /// last one the filled-in command is run.
    pub fn submit_template_var(&mut self)
        requires
            old(self)@.wf(),
        ensures
            final(self)@ == old(self)@.submit_template_var(),
            final(self)@.wf(),
    {
        let mut m = Mode::Normal;
        std::mem::swap(&mut m, &mut self.mode);
        match m {
            Mode::TemplateInput { template, vars, values, current } => {
                assert(current < values.len());
                if values[current].as_str().is_empty() {
                    self.mode = Mode::TemplateInput { template, vars, values, current };
                    self.set_status("Value cannot be empty");
                    return ;
                }
                if current + 1 < vars.len() {
                    self.mode = Mode::TemplateInput { template, vars, values, current: current + 1 };
                } else {
                    let result = fill(&template, &vars, &values);
                    self.pending_exec = Some(result);
                    self.mode = Mode::Terminal;
                    self.notes_panel_open = true;
                    self.notes_panel_focused = false;
                }
            },
            other => {
                self.mode = other;
            },
        }
    }

    /// Runs the code block whose number was typed in the command bar.
    pub fn submit_command_bar(&mut self)
        ensures
            final(self)@ == old(self)@.submit_command_bar(),
    {
        let input = self.command_bar.take();
        match input {
            Some(input) => {
                let t = trimmed(&chars_of(input.as_str()));
                match parse_usize(&t) {
                    Some(index) => self.execute_block_by_index(index),
                    None => {
                        let mut msg = chars_of("Invalid block number: ");
                        append_chars(&mut msg, &t);
                        let msg = string_of(&msg);
                        self.set_status(msg.as_str());
                    },
                }
            },
            None => {},
        }
        self.command_bar = None;
    }

    // ── Navigation ────────────────────────────────────────────────────────

    pub fn select_next_project(&mut self)
        ensures
            final(self)@ == old(self)@.select_next_project(),
    {
        let n = self.projects.len();
        if n > 0 {
            proof {
                lemma_succ_mod(self.project_selected as int, n as int);
            }
            self.project_selected = (self.project_selected % n + 1) % n;
        }
    }

    pub fn select_prev_project(&mut self)
        ensures
            final(self)@ == old(self)@.select_prev_project(),
    {
        let n = self.projects.len();
        if n > 0 {
            self.project_selected = match self.project_selected.checked_sub(1) {
                Some(p) => p,
                None => n - 1,
            };
        }
    }

    pub fn select_next_note(&mut self)
        ensures
            final(self)@ == old(self)@.select_next_note(),
    {
        let n = self.notes.len();
        if n > 0 {
            proof {
                lemma_succ_mod(self.notes_selected as int, n as int);
            }
            self.notes_selected = (self.notes_selected % n + 1) % n;
            self.block_focused = 0;
            self.note_view_scroll = 0;
        }
    }

    pub fn select_prev_note(&mut self)
        ensures
            final(self)@ == old(self)@.select_prev_note(),
    {
        let n = self.notes.len();
        if n > 0 {
            self.notes_selected = match self.notes_selected.checked_sub(1) {
                Some(p) => p,
                None => n - 1,
            };
            self.block_focused = 0;
            self.note_view_scroll = 0;
        }
    }

    pub fn next_block(&mut self)
        ensures
            final(self)@ == old(self)@.next_block(),
    {
        let count = match self.selected_note() {
            Some(note) => note.code_blocks.len(),
            None => 0,
        };
        if count > 0 {
            proof {
                lemma_succ_mod(self.block_focused as int, count as int);
            }
            self.block_focused = (self.block_focused % count + 1) % count;
            self.note_view_scroll = 0;
        }
    }

    pub fn prev_block(&mut self)
        ensures
            final(self)@ == old(self)@.prev_block(),
    {
        let count = match self.selected_note() {
            Some(note) => note.code_blocks.len(),
            None => 0,
        };
        if count > 0 {
            self.block_focused = match self.block_focused.checked_sub(1) {
                Some(b) => b,
                None => count - 1,
            };
            self.note_view_scroll = 0;
        }
    }

    /// Keeps the scroll offset within the terminal's scrollback.
    pub fn clamp_scroll(&mut self)
        ensures
            final(self)@ == old(self)@.clamp_scroll(),
    {
        match self.terminal {
            Some(t) => {
                let max = t.scrollback_len as u16;
                self.scroll_offset = self.scroll_offset.min(max);
            },
            None => {},
        }
    }

    // ── Mouse ─────────────────────────────────────────────────────────────

    /// Scrolls the notes panel or the terminal under the mouse.
    pub fn handle_mouse(&mut self, mouse: MouseEvent)
        requires
            area_fits(old(self).notes_panel_area),
            area_fits(old(self).terminal_area),
        ensures
            final(self)@ == old(self)@.handle_mouse(mouse),
    {
        let col = mouse.column;
        let row = mouse.row;
        let over_notes = point_in(self.notes_panel_area, col, row);
        let over_terminal = point_in(self.terminal_area, col, row);
        let in_terminal = match self.mode {
            Mode::Terminal => true,
            _ => false,
        };
        match mouse.kind {
            MouseEventKind::ScrollUp => {
                if over_notes {
                    if self.notes_panel_focused {
                        self.note_view_scroll = self.note_view_scroll.saturating_sub(3);
                    } else {
                        self.select_prev_note();
                    }
                } else if over_terminal && in_terminal {
                    self.scroll_offset = self.scroll_offset.saturating_add(3);
                    self.clamp_scroll();
                }
            },
            MouseEventKind::ScrollDown => {
                if over_notes {
                    if self.notes_panel_focused {
                        self.note_view_scroll = self.note_view_scroll.saturating_add(3);
                    } else {
                        self.select_next_note();
                    }
                } else if over_terminal && in_terminal {
                    self.scroll_offset = self.scroll_offset.saturating_sub(3);
                }
            },
            MouseEventKind::Other => {},
        }
    }

    // ── Status ────────────────────────────────────────────────────────────

    pub fn set_status(&mut self, msg: &str)
        ensures
            final(self)@ == old(self)@.set_status(msg@),
    {
        self.status_msg = Some(String::from_str(msg));
        self.status_ttl = 40;
    }

    /// Counts a status message down; it goes when its time is up.
    pub fn tick_status(&mut self)
        ensures
            final(self)@ == old(self)@.tick_status(),
    {
        if self.status_ttl > 0 {
            self.status_ttl -= 1;
            if self.status_ttl == 0 {
                self.status_msg = None;
            }
        }
    }
}

// ── Keys ───────────────────────────────────────────────────────────────────

/// The byte a control-modified character sends: its code's low byte, less
/// `'a'`, plus one, wrapping (so ctrl+a is 1 and ctrl+c is 3).
pub open spec fn ctrl_byte(c: char) -> u8 {
    (((c as u32) % 256 + 160) % 256) as u8
}

/// The escape sequence of function key `n` (F1 to F12; none for others).
pub open spec fn spec_f_key_bytes(n: u8) -> Seq<u8> {
    if n == 1 {
        seq![27u8, 79, 80]
    } else if n == 2 {
        seq![27u8, 79, 81]
    } else if n == 3 {
        seq![27u8, 79, 82]
    } else if n == 4 {
        seq![27u8, 79, 83]
    } else if n == 5 {
        seq![27u8, 91, 49, 53, 126]
    } else if n == 6 {
        seq![27u8, 91, 49, 55, 126]
    } else if n == 7 {
        seq![27u8, 91, 49, 56, 126]
    } else if n == 8 {
        seq![27u8, 91, 49, 57, 126]
    } else if n == 9 {
        seq![27u8, 91, 50, 48, 126]
    } else if n == 10 {
        seq![27u8, 91, 50, 49, 126]
    } else if n == 11 {
        seq![27u8, 91, 50, 51, 126]
    } else if n == 12 {
        seq![27u8, 91, 50, 52, 126]
    } else {
        seq![]
    }
}

/// The bytes a key sends to the shell: a control character for ctrl with
/// a character, a character's UTF-8 encoding, and the xterm sequences of
/// the other keys; none for keys without one.
pub open spec fn spec_key_bytes(key: KeyEvent) -> Seq<u8> {
    match key.code {
        KeyCode::Char(c) => if key.modifiers.control {
            seq![ctrl_byte(c)]
        } else {
            vstd::utf8::encode_scalar(c as u32)
        },
        KeyCode::Enter => seq![13u8],
        KeyCode::Backspace => seq![127u8],
        KeyCode::Tab => seq![9u8],
        KeyCode::Esc => seq![27u8],
        KeyCode::Up => seq![27u8, 91, 65],
        KeyCode::Down => seq![27u8, 91, 66],
        KeyCode::Right => seq![27u8, 91, 67],
        KeyCode::Left => seq![27u8, 91, 68],
        KeyCode::Home => seq![27u8, 91, 72],
        KeyCode::End => seq![27u8, 91, 70],
        KeyCode::PageUp => seq![27u8, 91, 53, 126],
        KeyCode::PageDown => seq![27u8, 91, 54, 126],
        KeyCode::Delete => seq![27u8, 91, 51, 126],
        KeyCode::Insert => seq![27u8, 91, 50, 126],
        KeyCode::F(n) => spec_f_key_bytes(n),
        _ => seq![],
    }
}

/// The escape sequence of function key `n`.
pub fn f_key_bytes(n: u8) -> (r: Vec<u8>)
    ensures
        r@ == spec_f_key_bytes(n),
{
    let r = if n == 1 {
        vec![27u8, 79, 80]
    } else if n == 2 {
        vec![27u8, 79, 81]
    } else if n == 3 {
        vec![27u8, 79, 82]
    } else if n == 4 {
        vec![27u8, 79, 83]
    } else if n == 5 {
        vec![27u8, 91, 49, 53, 126]
    } else if n == 6 {
        vec![27u8, 91, 49, 55, 126]
    } else if n == 7 {
        vec![27u8, 91, 49, 56, 126]
    } else if n == 8 {
        vec![27u8, 91, 49, 57, 126]
    } else if n == 9 {
        vec![27u8, 91, 50, 48, 126]
    } else if n == 10 {
        vec![27u8, 91, 50, 49, 126]
    } else if n == 11 {
        vec![27u8, 91, 50, 51, 126]
    } else if n == 12 {
        vec![27u8, 91, 50, 52, 126]
    } else {
        Vec::new()
    };
    assert(r@ =~= spec_f_key_bytes(n));
    r
}

/// The UTF-8 encoding of a character (`char::encode_utf8`).
pub fn char_utf8(c: char) -> (r: Vec<u8>)
    ensures
        r@ == vstd::utf8::encode_scalar(c as u32),
{
    let n = c as u32;
    let r = if n <= 0x7F {
        vec![(n & 0x7F) as u8]
    } else if n <= 0x7FF {
        vec![0xC0 | ((n >> 6) & 0x1F) as u8, 0x80 | (n & 0x3F) as u8]
    } else if n <= 0xFFFF {
        vec![
            0xE0 | ((n >> 12) & 0x0F) as u8,
            0x80 | ((n >> 6) & 0x3F) as u8,
            0x80 | (n & 0x3F) as u8,
        ]
    } else {
        vec![
            0xF0 | ((n >> 18) & 0x7) as u8,
            0x80 | ((n >> 12) & 0x3F) as u8,
            0x80 | ((n >> 6) & 0x3F) as u8,
            0x80 | (n & 0x3F) as u8,
        ]
    };
    assert(r@ =~= vstd::utf8::encode_scalar(c as u32));
    r
}

/// The bytes a key sends to the shell.
pub fn key_to_bytes(key: KeyEvent) -> (r: Vec<u8>)
    ensures
        r@ == spec_key_bytes(key),
{
    let ctrl = key.modifiers.control;
    let r = match key.code {
        KeyCode::Char(c) => if ctrl {
            vec![((c as u32 % 256 + 160) % 256) as u8]
        } else {
            char_utf8(c)
        },
        KeyCode::Enter => vec![13u8],
        KeyCode::Backspace => vec![127u8],
        KeyCode::Tab => vec![9u8],
        KeyCode::Esc => vec![27u8],
        KeyCode::Up => vec![27u8, 91, 65],
        KeyCode::Down => vec![27u8, 91, 66],
        KeyCode::Right => vec![27u8, 91, 67],
        KeyCode::Left => vec![27u8, 91, 68],
        KeyCode::Home => vec![27u8, 91, 72],
        KeyCode::End => vec![27u8, 91, 70],
        KeyCode::PageUp => vec![27u8, 91, 53, 126],
        KeyCode::PageDown => vec![27u8, 91, 54, 126],
        KeyCode::Delete => vec![27u8, 91, 51, 126],
        KeyCode::Insert => vec![27u8, 91, 50, 126],
        KeyCode::F(n) => f_key_bytes(n),
        _ => Vec::new(),
    };
    assert(r@ =~= spec_key_bytes(key));
    r
}

/// `s` without its last character, if any (`String::pop`).
pub open spec fn pop_char(s: Seq<char>) -> Seq<char> {
    if s.len() > 0 {
        s.drop_last()
    } else {
        s
    }
}

/// `s` with its last character removed, if any.
fn string_pop(s: &String) -> (r: String)
    ensures
        r@ == pop_char(s@),
{
    let mut c = chars_of(s.as_str());
    if c.len() > 0 {
        c.pop();
    }
    string_of(&c)
}

/// `s` with `c` appended.
fn string_pushed(s: &String, c: char) -> (r: String)
    ensures
        r@ == s@.push(c),
{
    let mut v = chars_of(s.as_str());
    v.push(c);
    string_of(&v)
}

impl AppView {
    pub open spec fn projects_key(self, key: KeyEvent) -> (AppView, Response) {
        match key.code {
            KeyCode::Char('q') => (AppView { should_quit: true, ..self }, Response::Consumed),
            KeyCode::Esc => (
                if self.is_terminal_alive() {
                    AppView { mode: ModeView::Terminal, ..self }
                } else {
                    self
                },
                Response::Consumed,
            ),
            KeyCode::Up | KeyCode::Char('k') => (self.select_prev_project(), Response::Consumed),
            KeyCode::Down | KeyCode::Char('j') => (self.select_next_project(), Response::Consumed),
            KeyCode::Enter | KeyCode::Right => {
                let (v, p) = self.select_project();
                (
                    v,
                    match p {
                        Some(n) => Response::LoadProject(n),
                        None => Response::Consumed,
                    },
                )
            },
            KeyCode::Char('n') => (
                AppView { input_buf: seq![], mode: ModeView::NewProject, ..self },
                Response::Consumed,
            ),
            _ => (self, Response::Ignored),
        }
    }

    pub open spec fn notes_key(self, key: KeyEvent) -> (AppView, Response) {
        match key.code {
            KeyCode::Char('q') => (AppView { should_quit: true, ..self }, Response::Consumed),
            KeyCode::Esc => (
                if self.is_terminal_alive() {
                    AppView { mode: ModeView::Terminal, ..self }
                } else {
                    self.back_to_projects()
                },
                Response::Consumed,
            ),
            KeyCode::Left => (
                if self.is_terminal_alive() {
                    self.browse_to_projects()
                } else {
                    self.back_to_projects()
                },
                Response::Consumed,
            ),
            KeyCode::Up | KeyCode::Char('k') => (self.select_prev_note(), Response::Consumed),
            KeyCode::Down | KeyCode::Char('j') => (self.select_next_note(), Response::Consumed),
            KeyCode::Enter => (
                if self.selected_note() is Some {
                    AppView {
                        mode: ModeView::Terminal,
                        notes_panel_open: true,
                        notes_panel_focused: false,
                        block_focused: 0,
                        note_view_scroll: 0,
                        ..self
                    }
                } else {
                    self
                },
                Response::Consumed,
            ),
            KeyCode::Right | KeyCode::Char('l') => (
                if self.selected_note() is Some {
                    AppView {
                        sidebar_level: SidebarLevel::NoteContent,
                        block_focused: 0,
                        note_view_scroll: 0,
                        ..self
                    }
                } else {
                    self
                },
                Response::Consumed,
            ),
            KeyCode::Char('e') => (self, Response::EditNote),
            KeyCode::Char('n') => (self, Response::NewNote),
            KeyCode::Char('d') => (
                if self.selected_note() is Some {
                    AppView { mode: ModeView::ConfirmDelete, ..self }
                } else {
                    self
                },
                Response::Consumed,
            ),
            _ => (self, Response::Ignored),
        }
    }

    pub open spec fn confirm_delete_key(self, key: KeyEvent) -> (AppView, Response) {
        match key.code {
            KeyCode::Char('y') | KeyCode::Char('Y') => (
                AppView { mode: ModeView::Normal, ..self },
                Response::DeleteNote,
            ),
            _ => (AppView { mode: ModeView::Normal, ..self }, Response::Consumed),
        }
    }

    pub open spec fn note_content_key(self, key: KeyEvent) -> (AppView, Response) {
        match key.code {
            KeyCode::Esc | KeyCode::Left | KeyCode::Char('h') => (
                AppView { sidebar_level: SidebarLevel::Notes, ..self },
                Response::Consumed,
            ),
            KeyCode::Up | KeyCode::Char('k') => (self.prev_block(), Response::Consumed),
            KeyCode::Down | KeyCode::Char('j') => (self.next_block(), Response::Consumed),
            KeyCode::Tab => (self.next_block(), Response::Consumed),
            KeyCode::BackTab => (self.prev_block(), Response::Consumed),
            KeyCode::Enter => (
                match self.selected_note() {
                    Some(n) => if n.code_blocks@.len() > 0 {
                        self.execute_focused_block()
                    } else {
                        self
                    },
                    None => self,
                },
                Response::Consumed,
            ),
            KeyCode::Char('y') => (self, Response::CopyBlock),
            KeyCode::Char('e') => (self, Response::EditNote),
            KeyCode::PageUp => (
                AppView { note_view_scroll: sat_sub(self.note_view_scroll, 5), ..self },
                Response::Consumed,
            ),
            KeyCode::PageDown => (
                AppView { note_view_scroll: sat_add(self.note_view_scroll, 5), ..self },
                Response::Consumed,
            ),
            KeyCode::Char('/') => (
                AppView { command_bar: Some(seq![]), ..self },
                Response::Consumed,
            ),
            _ => (self, Response::Ignored),
        }
    }

    pub open spec fn notes_panel_key(self, key: KeyEvent) -> (AppView, Response) {
        match key.code {
            KeyCode::Esc => (AppView { notes_panel_focused: false, ..self }, Response::Consumed),
            KeyCode::Left => (self.open_notes_browser(), Response::Consumed),
            KeyCode::Up | KeyCode::Char('k') => (self.prev_block(), Response::Consumed),
            KeyCode::Down | KeyCode::Char('j') => (self.next_block(), Response::Consumed),
            KeyCode::Tab => (
                if key.modifiers.shift {
                    self.prev_block()
                } else {
                    self.next_block()
                },
                Response::Consumed,
            ),
            KeyCode::Enter => (self.execute_focused_block(), Response::Consumed),
            KeyCode::Char('y') => (self, Response::CopyBlock),
            KeyCode::Char('e') => (self, Response::EditNote),
            KeyCode::PageUp => (
                AppView { note_view_scroll: sat_sub(self.note_view_scroll, 5), ..self },
                Response::Consumed,
            ),
            KeyCode::PageDown => (
                AppView { note_view_scroll: sat_add(self.note_view_scroll, 5), ..self },
                Response::Consumed,
            ),
            KeyCode::Char('/') => (
                AppView { command_bar: Some(seq![]), ..self },
                Response::Consumed,
            ),
            _ => (self, Response::Consumed),
        }
    }

    pub open spec fn terminal_key(self, key: KeyEvent) -> (AppView, Response) {
        let ctrl = key.modifiers.control;
        let shift_or_ctrl = key.modifiers.shift || ctrl;
        if shift_or_ctrl && key.code == KeyCode::PageUp {
            (
                AppView { scroll_offset: sat_add(self.scroll_offset, 5), ..self }.clamp_scroll(),
                Response::Consumed,
            )
        } else if shift_or_ctrl && key.code == KeyCode::PageDown {
            (AppView { scroll_offset: sat_sub(self.scroll_offset, 5), ..self }, Response::Consumed)
        } else if ctrl && key.code == KeyCode::Char('w') && self.notes_panel_open {
            (
                AppView { notes_panel_focused: !self.notes_panel_focused, ..self },
                Response::Consumed,
            )
        } else if self.notes_panel_open && self.notes_panel_focused {
            self.notes_panel_key(key)
        } else {
            let bytes = spec_key_bytes(key);
            (
                AppView { scroll_offset: 0, ..self },
                if bytes.len() == 0 {
                    Response::Ignored
                } else {
                    Response::ForwardToPty(bytes)
                },
            )
        }
    }

    pub open spec fn text_input_key(self, key: KeyEvent) -> (AppView, Response) {
        match key.code {
            KeyCode::Esc => (
                AppView { input_buf: seq![], mode: ModeView::Normal, ..self },
                Response::Consumed,
            ),
            KeyCode::Enter => {
                let (v, n) = self.create_project();
                (
                    v,
                    match n {
                        Some(x) => Response::CreateProject(x),
                        None => Response::Consumed,
                    },
                )
            },
            KeyCode::Backspace => (
                AppView { input_buf: pop_char(self.input_buf), ..self },
                Response::Consumed,
            ),
            KeyCode::Char(c) => (
                AppView { input_buf: self.input_buf.push(c), ..self },
                Response::Consumed,
            ),
            _ => (self, Response::Ignored),
        }
    }

    /// The value being typed for the current template variable, changed by `f`.
    pub open spec fn edit_value(self, f: spec_fn(Seq<char>) -> Seq<char>) -> AppView {
        match self.mode {
            ModeView::TemplateInput { template, vars, values, current } => AppView {
                mode: ModeView::TemplateInput {
                    template,
                    vars,
                    values: values.update(current as int, f(values[current as int])),
                    current,
                },
                ..self
            },
            _ => self,
        }
    }

    pub open spec fn template_input_key(self, key: KeyEvent) -> (AppView, Response) {
        match key.code {
            KeyCode::Esc => (
                AppView { mode: ModeView::Terminal, ..self }.set_status("Cancelled"@),
                Response::Consumed,
            ),
            KeyCode::Enter => (self.submit_template_var(), Response::Consumed),
            KeyCode::Backspace => (
                self.edit_value(|v: Seq<char>| pop_char(v)),
                Response::Consumed,
            ),
            KeyCode::Char(c) => (self.edit_value(|v: Seq<char>| v.push(c)), Response::Consumed),
            _ => (self, Response::Consumed),
        }
    }

    pub open spec fn command_bar_key(self, key: KeyEvent) -> AppView {
        let buf = self.command_bar->0;
        match key.code {
            KeyCode::Esc => AppView { command_bar: None, ..self },
            KeyCode::Enter => self.submit_command_bar(),
            KeyCode::Backspace => {
                let b = pop_char(buf);
                AppView { command_bar: if b.len() == 0 { None } else { Some(b) }, ..self }
            },
            KeyCode::Char(c) => if '0' <= c && c <= '9' {
                AppView { command_bar: Some(buf.push(c)), ..self }
            } else {
                self
            },
            _ => self,
        }
    }

    pub open spec fn mode_key(self, key: KeyEvent) -> (AppView, Response) {
        match self.mode {
            ModeView::Normal => match self.sidebar_level {
                SidebarLevel::Projects => self.projects_key(key),
                SidebarLevel::Notes => self.notes_key(key),
                SidebarLevel::NoteContent => self.note_content_key(key),
            },
            ModeView::Terminal => self.terminal_key(key),
            ModeView::TemplateInput { .. } => self.template_input_key(key),
            ModeView::NewProject => self.text_input_key(key),
            ModeView::ConfirmDelete => self.confirm_delete_key(key),
        }
    }

    /// What a key does: the command bar takes every key while it is open;
    /// ctrl+c sends ^C to the shell in the terminal and quits elsewhere;
    /// ctrl+n toggles the notes panel in the terminal and focuses a note's
    /// content in the notes list; ctrl+b opens the notes browser from the
    /// terminal; other keys go to the handler of the mode and level.
    pub open spec fn handle_key(self, key: KeyEvent) -> (AppView, Response) {
        let ctrl = key.modifiers.control;
        if self.command_bar is Some {
            (self.command_bar_key(key), Response::Consumed)
        } else if ctrl && key.code == KeyCode::Char('c') {
            if self.in_terminal_mode() {
                (self, Response::ForwardToPty(seq![3u8]))
            } else {
                (AppView { should_quit: true, ..self }, Response::Consumed)
            }
        } else if ctrl && key.code == KeyCode::Char('n') && self.in_terminal_mode() {
            (self.toggle_notes_panel(), Response::Consumed)
        } else if ctrl && key.code == KeyCode::Char('n') && self.mode is Normal
            && self.sidebar_level == SidebarLevel::Notes {
            (AppView { sidebar_level: SidebarLevel::NoteContent, ..self }, Response::Consumed)
        } else if ctrl && key.code == KeyCode::Char('b') && self.in_terminal_mode() {
            (self.open_notes_browser(), Response::Consumed)
        } else {
            self.mode_key(key)
        }
    }
}

// ── Input handling ─────────────────────────────────────────────────────────

/// Handles a key press: changes the state and says what the caller is to do.
pub fn handle_key(app: &mut App, key: KeyEvent) -> (r: InputResult)
    requires
        old(app)@.wf(),
    ensures
        (final(app)@, r@) == old(app)@.handle_key(key),
        final(app)@.wf(),
{
    // Command bar intercepts all keys
    if app.command_bar.is_some() {
        handle_command_bar_key(app, key);
        return InputResult::Consumed;
    }
    let ctrl = key.modifiers.control;
    let in_terminal = match app.mode {
        Mode::Terminal => true,
        _ => false,
    };
    let in_normal = match app.mode {
        Mode::Normal => true,
        _ => false,
    };
    // ctrl+c: quit in Normal mode, send ^C to PTY in Terminal mode
    if ctrl && key.code == KeyCode::Char('c') {
        if in_terminal {
            let b = vec![3u8];
            assert(b@ =~= seq![3u8]);
            return InputResult::ForwardToPty(b);
        } else {
            app.should_quit = true;
            return InputResult::Consumed;
        }
    }
    // ctrl+n: toggle notes panel open/closed; ctrl+w moves focus to/from it
    if ctrl && key.code == KeyCode::Char('n') {
        if in_terminal {
            app.toggle_notes_panel();
            return InputResult::Consumed;
        }
        if in_normal && app.sidebar_level == SidebarLevel::Notes {
            app.sidebar_level = SidebarLevel::NoteContent;
            return InputResult::Consumed;
        }
    }
    // ctrl+b: open notes browser from Terminal mode
    if ctrl && key.code == KeyCode::Char('b') && in_terminal {
        app.open_notes_browser();
        return InputResult::Consumed;
    }
    match app.mode {
        Mode::Normal => match app.sidebar_level {
            SidebarLevel::Projects => handle_projects_key(app, key),
            SidebarLevel::Notes => handle_notes_key(app, key),
            SidebarLevel::NoteContent => handle_note_content_key(app, key),
        },
        Mode::Terminal => handle_terminal_key(app, key),
        Mode::TemplateInput { .. } => handle_template_input_key(app, key),
        Mode::NewProject => handle_text_input_key(app, key),
        Mode::ConfirmDelete => handle_confirm_delete_key(app, key),
    }
}

fn handle_command_bar_key(app: &mut App, key: KeyEvent)
    requires
        old(app).command_bar is Some,
    ensures
        final(app)@ == old(app)@.command_bar_key(key),
{
    match key.code {
        KeyCode::Esc => {
            app.command_bar = None;
        },
        KeyCode::Enter => {
            app.submit_command_bar();
        },
        KeyCode::Backspace => {
            let b = match &app.command_bar {
                Some(buf) => string_pop(buf),
                None => String::new(),
            };
            if b.as_str().is_empty() {
                app.command_bar = None;
            } else {
                app.command_bar = Some(b);
            }
        },
        KeyCode::Char(c) => {
            if '0' <= c && c <= '9' {
                let b = match &app.command_bar {
                    Some(buf) => string_pushed(buf, c),
                    None => String::new(),
                };
                app.command_bar = Some(b);
            }
        },
        _ => {},
    }
}

fn handle_projects_key(app: &mut App, key: KeyEvent) -> (r: InputResult)
    ensures
        (final(app)@, r@) == old(app)@.projects_key(key),
{
    match key.code {
        KeyCode::Char('q') => {
            app.should_quit = true;
            InputResult::Consumed
        },
        KeyCode::Esc => {
            if app.is_terminal_alive() {
                app.mode = Mode::Terminal;
            }
            InputResult::Consumed
        },
        KeyCode::Up | KeyCode::Char('k') => {
            app.select_prev_project();
            InputResult::Consumed
        },
        KeyCode::Down | KeyCode::Char('j') => {
            app.select_next_project();
            InputResult::Consumed
        },
        KeyCode::Enter | KeyCode::Right => match app.select_project() {
            Some(p) => InputResult::LoadProject(p),
            None => InputResult::Consumed,
        },
        KeyCode::Char('n') => {
            app.input_buf = String::new();
            app.mode = Mode::NewProject;
            InputResult::Consumed
        },
        _ => InputResult::Ignored,
    }
}

fn handle_notes_key(app: &mut App, key: KeyEvent) -> (r: InputResult)
    ensures
        (final(app)@, r@) == old(app)@.notes_key(key),
{
    match key.code {
        KeyCode::Char('q') => {
            app.should_quit = true;
            InputResult::Consumed
        },
        KeyCode::Esc => {
            if app.is_terminal_alive() {
                app.mode = Mode::Terminal;
            } else {
                app.back_to_projects();
            }
            InputResult::Consumed
        },
        KeyCode::Left => {
            if app.is_terminal_alive() {
                app.browse_to_projects();
            } else {
                app.back_to_projects();
            }
            InputResult::Consumed
        },
        KeyCode::Up | KeyCode::Char('k') => {
            app.select_prev_note();
            InputResult::Consumed
        },
        KeyCode::Down | KeyCode::Char('j') => {
            app.select_next_note();
            InputResult::Consumed
        },
        KeyCode::Enter => {
            // Collapse sidebar, enter terminal mode with notes panel open
            if app.selected_note().is_some() {
                app.mode = Mode::Terminal;
                app.notes_panel_open = true;
                app.notes_panel_focused = false;
                app.block_focused = 0;
                app.note_view_scroll = 0;
            }
            InputResult::Consumed
        },
        KeyCode::Right | KeyCode::Char('l') => {
            if app.selected_note().is_some() {
                app.sidebar_level = SidebarLevel::NoteContent;
                app.block_focused = 0;
                app.note_view_scroll = 0;
            }
            InputResult::Consumed
        },
        KeyCode::Char('e') => InputResult::EditNote,
        KeyCode::Char('n') => InputResult::NewNote,
        KeyCode::Char('d') => {
            if app.selected_note().is_some() {
                app.mode = Mode::ConfirmDelete;
            }
            InputResult::Consumed
        },
        _ => InputResult::Ignored,
    }
}

fn handle_confirm_delete_key(app: &mut App, key: KeyEvent) -> (r: InputResult)
    ensures
        (final(app)@, r@) == old(app)@.confirm_delete_key(key),
{
    match key.code {
        KeyCode::Char('y') | KeyCode::Char('Y') => {
            app.mode = Mode::Normal;
            InputResult::DeleteNote
        },
        _ => {
            app.mode = Mode::Normal;
            InputResult::Consumed
        },
    }
}

fn handle_note_content_key(app: &mut App, key: KeyEvent) -> (r: InputResult)
    ensures
        (final(app)@, r@) == old(app)@.note_content_key(key),
{
    match key.code {
        KeyCode::Esc | KeyCode::Left | KeyCode::Char('h') => {
            app.sidebar_level = SidebarLevel::Notes;
            InputResult::Consumed
        },
        KeyCode::Up | KeyCode::Char('k') => {
            app.prev_block();
            InputResult::Consumed
        },
        KeyCode::Down | KeyCode::Char('j') => {
            app.next_block();
            InputResult::Consumed
        },
        KeyCode::Tab => {
            app.next_block();
            InputResult::Consumed
        },
        KeyCode::BackTab => {
            app.prev_block();
            InputResult::Consumed
        },
        KeyCode::Enter => {
            // Execute block: collapses sidebar, enters Terminal mode, opens notes panel
            let has_blocks = match app.selected_note() {
                Some(note) => note.code_blocks.len() > 0,
                None => false,
            };
            if has_blocks {
                app.execute_focused_block();
            }
            InputResult::Consumed
        },
        KeyCode::Char('y') => InputResult::CopyBlock,
        KeyCode::Char('e') => InputResult::EditNote,
        KeyCode::PageUp => {
            app.note_view_scroll = app.note_view_scroll.saturating_sub(5);
            InputResult::Consumed
        },
        KeyCode::PageDown => {
            app.note_view_scroll = app.note_view_scroll.saturating_add(5);
            InputResult::Consumed
        },
        KeyCode::Char('/') => {
            app.command_bar = Some(String::new());
            InputResult::Consumed
        },
        _ => InputResult::Ignored,
    }
}

fn handle_terminal_key(app: &mut App, key: KeyEvent) -> (r: InputResult)
    ensures
        (final(app)@, r@) == old(app)@.terminal_key(key),
{
    let ctrl = key.modifiers.control;
    // Shift+PageUp/Down for scrollback
    if key.modifiers.shift || ctrl {
        if key.code == KeyCode::PageUp {
            app.scroll_offset = app.scroll_offset.saturating_add(5);
            app.clamp_scroll();
            return InputResult::Consumed;
        }
        if key.code == KeyCode::PageDown {
            app.scroll_offset = app.scroll_offset.saturating_sub(5);
            return InputResult::Consumed;
        }
    }
    // ctrl+w: toggle focus between terminal and notes panel (checked before routing)
    if ctrl && key.code == KeyCode::Char('w') && app.notes_panel_open {
        app.notes_panel_focused = !app.notes_panel_focused;
        return InputResult::Consumed;
    }
    // Route to notes panel navigation when notes panel is focused
    if app.notes_panel_open && app.notes_panel_focused {
        return handle_notes_panel_key(app, key);
    }
    app.scroll_offset = 0;
    let bytes = key_to_bytes(key);
    if bytes.len() == 0 {
        InputResult::Ignored
    } else {
        InputResult::ForwardToPty(bytes)
    }
}

fn handle_notes_panel_key(app: &mut App, key: KeyEvent) -> (r: InputResult)
    ensures
        (final(app)@, r@) == old(app)@.notes_panel_key(key),
{
    match key.code {
        KeyCode::Esc => {
            app.notes_panel_focused = false;
            InputResult::Consumed
        },
        KeyCode::Left => {
            app.open_notes_browser();
            InputResult::Consumed
        },
        KeyCode::Up | KeyCode::Char('k') => {
            app.prev_block();
            InputResult::Consumed
        },
        KeyCode::Down | KeyCode::Char('j') => {
            app.next_block();
            InputResult::Consumed
        },
        KeyCode::Tab => {
            if key.modifiers.shift {
                app.prev_block();
            } else {
                app.next_block();
            }
            InputResult::Consumed
        },
        KeyCode::Enter => {
            app.execute_focused_block();
            InputResult::Consumed
        },
        KeyCode::Char('y') => InputResult::CopyBlock,
        KeyCode::Char('e') => InputResult::EditNote,
        KeyCode::PageUp => {
            app.note_view_scroll = app.note_view_scroll.saturating_sub(5);
            InputResult::Consumed
        },
        KeyCode::PageDown => {
            app.note_view_scroll = app.note_view_scroll.saturating_add(5);
            InputResult::Consumed
        },
        KeyCode::Char('/') => {
            app.command_bar = Some(String::new());
            InputResult::Consumed
        },
        _ => InputResult::Consumed,  // Don't leak to PTY when notes focused
    }
}

fn handle_text_input_key(app: &mut App, key: KeyEvent) -> (r: InputResult)
    ensures
        (final(app)@, r@) == old(app)@.text_input_key(key),
{
    match key.code {
        KeyCode::Esc => {
            app.input_buf = String::new();
            app.mode = Mode::Normal;
            InputResult::Consumed
        },
        KeyCode::Enter => match app.create_project() {
            Some(name) => InputResult::CreateProject(name),
            None => InputResult::Consumed,
        },
        KeyCode::Backspace => {
            app.input_buf = string_pop(&app.input_buf);
            InputResult::Consumed
        },
        KeyCode::Char(c) => {
            app.input_buf = string_pushed(&app.input_buf, c);
            InputResult::Consumed
        },
        _ => InputResult::Ignored,
    }
}

fn handle_template_input_key(app: &mut App, key: KeyEvent) -> (r: InputResult)
    requires
        old(app)@.wf(),
    ensures
        (final(app)@, r@) == old(app)@.template_input_key(key),
        final(app)@.wf(),
{
    match key.code {
        KeyCode::Esc => {
            app.mode = Mode::Terminal;
            app.set_status("Cancelled");
            InputResult::Consumed
        },
        KeyCode::Enter => {
            app.submit_template_var();
            InputResult::Consumed
        },
        KeyCode::Backspace => {
            edit_template_value(app, None);
            InputResult::Consumed
        },
        KeyCode::Char(c) => {
            edit_template_value(app, Some(c));
            InputResult::Consumed
        },
        _ => InputResult::Consumed,
    }
}

/// Removes the last character of the current template value, or appends `c`.
fn edit_template_value(app: &mut App, c: Option<char>)
    requires
        old(app)@.wf(),
    ensures
        final(app)@ == match c {
            Some(ch) => old(app)@.edit_value(|v: Seq<char>| v.push(ch)),
            None => old(app)@.edit_value(|v: Seq<char>| pop_char(v)),
        },
        final(app)@.wf(),
{
    let mut m = Mode::Normal;
    std::mem::swap(&mut m, &mut app.mode);
    match m {
        Mode::TemplateInput { template, vars, mut values, current } => {
            let ghost old_values = string_views(values@);
            let new_value = match c {
                Some(ch) => string_pushed(&values[current], ch),
                None => string_pop(&values[current]),
            };
            values.set(current, new_value);
            assert(string_views(values@) =~= old_values.update(current as int, new_value@));
            app.mode = Mode::TemplateInput { template, vars, values, current };
        },
        other => {
            app.mode = other;
        },
    }
}

/// Whether the key, in this state, is to start a terminal after it is
/// handled: Enter on a note in the list, or on a note with code blocks in
/// its content, while no terminal runs.
pub open spec fn spec_should_spawn(v: AppView, key: KeyEvent) -> bool {
    if key.code != KeyCode::Enter || v.is_terminal_alive() {
        false
    } else {
        match (v.mode, v.sidebar_level) {
            (ModeView::Normal, SidebarLevel::Notes) => v.selected_note() is Some,
            (ModeView::Normal, SidebarLevel::NoteContent) => match v.selected_note() {
                Some(n) => n.code_blocks@.len() > 0,
                None => false,
            },
            _ => false,
        }
    }
}

/// What becomes of mouse capture after a key moved the app from mode
/// `before` to mode `after`: released (`Some(false)`) on entering the
/// template prompt, so terminal text can be selected to paste into it; taken
/// back (`Some(true)`) on leaving it; unchanged (`None`) otherwise.
pub fn mouse_capture_change(before: &Mode, after: &Mode) -> (r: Option<bool>)
    ensures
        r == (if !(before is TemplateInput) && after is TemplateInput {
            Some(false)
        } else if before is TemplateInput && !(after is TemplateInput) {
            Some(true)
        } else {
            None
        }),
{
    let was = match before {
        Mode::TemplateInput { .. } => true,
        _ => false,
    };
    let now = match after {
        Mode::TemplateInput { .. } => true,
        _ => false,
    };
    if !was && now {
        Some(false)
    } else if was && !now {
        Some(true)
    } else {
        None
    }
}

/// Returns true if the current key + app state should trigger a terminal spawn.
/// Spawning happens after key handling so app state is updated first.
pub fn should_spawn_terminal(app: &App, key: &KeyEvent) -> (r: bool)
    ensures
        r == spec_should_spawn(app@, *key),
{
    if key.code != KeyCode::Enter || app.is_terminal_alive() {
        return false;
    }
    match (&app.mode, app.sidebar_level) {
        (Mode::Normal, SidebarLevel::Notes) => app.selected_note().is_some(),
        (Mode::Normal, SidebarLevel::NoteContent) => match app.selected_note() {
            Some(n) => n.code_blocks.len() > 0,
            None => false,
        },
        _ => false,
    }
}

} // verus!
