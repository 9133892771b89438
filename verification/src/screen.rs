//! What the screen's lists, key hints, status bar and command bar say, and
//! how wide the sidebar and the notes panel are.
use vstd::prelude::*;

use crate::app::SidebarLevel;
use crate::notes::Note;
use crate::text::{string_views};
use crate::ui::{
    fg, fg_bold, line_view, lines_view, list_label, nat_sub, plain, spec_list_label,
    spec_truncate, truncate, Color, Line, Span, Style,
};

verus! {

broadcast use vstd::string::group_string_axioms;

// ── Model ──────────────────────────────────────────────────────────────────

/// A key hint: the key in cyan, then what it does.
pub open spec fn hint(key: Seq<char>, action: Seq<char>) -> Seq<(Seq<char>, Style)> {
    seq![(key, fg(Color::Cyan)), (action, plain())]
}

/// The project list: each name behind its marker, the selected one bold white.
pub open spec fn spec_project_items(projects: Seq<Seq<char>>, selected: nat) -> Seq<
    Seq<(Seq<char>, Style)>,
> {
    Seq::new(
        projects.len(),
        |i: int|
            seq![
                (
                    spec_list_label(projects[i], i == selected),
                    if i == selected {
                        fg_bold(Color::White)
                    } else {
                        fg(Color::Gray)
                    },
                ),
            ],
    )
}

/// The names of notes.
pub open spec fn note_names(notes: Seq<Note>) -> Seq<Seq<char>> {
    notes.map_values(|n: Note| n.name@)
}

/// The notes list in a sidebar `width` wide: each name cut to fit behind its
/// marker, the selected one bold yellow.
pub open spec fn spec_note_items(names: Seq<Seq<char>>, selected: nat, width: nat) -> Seq<
    Seq<(Seq<char>, Style)>,
> {
    Seq::new(
        names.len(),
        |i: int|
            seq![
                (
                    spec_list_label(spec_truncate(names[i], nat_sub(width, 4)), i == selected),
                    if i == selected {
                        fg_bold(Color::Yellow)
                    } else {
                        fg(Color::DarkGray)
                    },
                ),
            ],
    )
}

/// The key hints under the project list.
pub open spec fn spec_projects_help() -> Seq<(Seq<char>, Style)> {
    hint(" \u{2191}\u{2193}"@, " nav  "@) + hint("enter"@, " open  "@) + hint("n"@, " new  "@)
        + hint("q"@, " quit"@)
}

/// The key hints under the notes list, by what has the focus.
pub open spec fn spec_sidebar_help(level: SidebarLevel) -> Seq<Seq<(Seq<char>, Style)>> {
    match level {
        SidebarLevel::Notes => seq![
            hint(" \u{2191}\u{2193}"@, " nav  "@) + hint("\u{2192}/enter"@, " open"@),
            hint(" e"@, " edit  "@) + hint("n"@, " new  "@) + hint("d"@, " del"@),
            hint(" esc"@, " back"@),
        ],
        SidebarLevel::NoteContent => seq![
            hint(" \u{2191}\u{2193}/tab"@, " block  "@) + hint("enter"@, " exec"@),
            hint(" y"@, " copy  "@) + hint("e"@, " edit"@),
            hint(" \u{2190}/esc"@, " back"@),
        ],
        SidebarLevel::Projects => seq![],
    }
}

/// The status bar: the message in yellow, or else the project (`rbk` where
/// there is none) and the main keys.
pub open spec fn spec_status_line(status_msg: Option<Seq<char>>, project: Seq<char>) -> Seq<
    (Seq<char>, Style),
> {
    match status_msg {
        Some(msg) => seq![(seq![' '], plain()), (msg, fg(Color::Yellow))],
        None => seq![
            (
                seq![' '] + if project.len() == 0 {
                    "rbk"@
                } else {
                    project
                },
                fg(Color::DarkGray),
            ),
            ("  ctrl+n: notes  ctrl+b: browse  ctrl+c: quit"@, fg(Color::DarkGray)),
        ],
    }
}

/// The command bar: a yellow `/`, the typed number, a cursor block and its keys.
pub open spec fn spec_command_bar_line(input: Seq<char>) -> Seq<(Seq<char>, Style)> {
    seq![
        (" /"@, fg_bold(Color::Yellow)),
        (input, fg(Color::White)),
        ("\u{2588}"@, fg(Color::Yellow)),
        ("  enter: exec  esc: cancel"@, fg(Color::DarkGray)),
    ]
}

/// The width of the notes sidebar on a screen `width` wide.
pub open spec fn spec_sidebar_width(width: u16) -> u16 {
    if 32 <= width / 2 {
        32
    } else {
        (width / 2) as u16
    }
}

/// The widths of the terminal pane and of the notes panel beside it, on a
/// screen `width` wide.
pub open spec fn spec_panel_split(width: u16) -> (u16, u16) {
    let room: int = if width >= 20 {
        width - 20
    } else {
        0
    };
    let panel: int = if 42 <= room {
        42
    } else {
        room
    };
    ((width - panel) as u16, panel as u16)
}

// ── Operations ─────────────────────────────────────────────────────────────

fn styled(text: &str, style: Style) -> (s: Span)
    ensures
        s.content@ == text@,
        s.style == style,
{
    Span { content: String::from_str(text), style }
}

fn cyan() -> (s: Style)
    ensures
        s == fg(Color::Cyan),
{
    Style { fg: Some(Color::Cyan), bg: None, bold: false, italic: false, underlined: false, reversed: false }
}

fn no_style() -> (s: Style)
    ensures
        s == plain(),
{
    Style { fg: None, bg: None, bold: false, italic: false, underlined: false, reversed: false }
}

fn with_fg(c: Color, bold: bool) -> (s: Style)
    ensures
        s == (if bold {
            fg_bold(c)
        } else {
            fg(c)
        }),
{
    Style { fg: Some(c), bg: None, bold, italic: false, underlined: false, reversed: false }
}

/// Appends a key hint to the spans.
fn push_hint(spans: &mut Vec<Span>, key: &str, action: &str)
    ensures
        final(spans)@.map_values(|s: Span| (s.content@, s.style)) == old(spans)@.map_values(
            |s: Span| (s.content@, s.style),
        ) + hint(key@, action@),
{
    let ghost before = spans@;
    spans.push(styled(key, cyan()));
    spans.push(styled(action, no_style()));
    assert(spans@.map_values(|s: Span| (s.content@, s.style)) =~= before.map_values(
        |s: Span| (s.content@, s.style),
    ) + hint(key@, action@));
}

fn one_line(text: String, style: Style) -> (l: Line)
    ensures
        line_view(l) == seq![(text@, style)],
{
    let mut spans: Vec<Span> = Vec::new();
    spans.push(Span { content: text, style });
    let l = Line { spans };
    assert(line_view(l) =~= seq![(text@, style)]);
    l
}

/// The lines of the project list.
pub fn project_items(projects: &Vec<String>, selected: usize) -> (r: Vec<Line>)
    ensures
        lines_view(r@) == spec_project_items(string_views(projects@), selected as nat),
{
    let ghost want = spec_project_items(string_views(projects@), selected as nat);
    let mut out: Vec<Line> = Vec::new();
    let mut i: usize = 0;
    while i < projects.len()
        invariant
            i <= projects.len(),
            want == spec_project_items(string_views(projects@), selected as nat),
            lines_view(out@) == want.take(i as int),
        decreases projects.len() - i,
    {
        let sel = i == selected;
        let label = list_label(projects[i].as_str(), sel);
        let style = with_fg(if sel { Color::White } else { Color::Gray }, sel);
        let l = one_line(label, style);
        let ghost before = out@;
        out.push(l);
        assert(lines_view(out@) =~= lines_view(before).push(line_view(l)));
        assert(want.take(i + 1) =~= want.take(i as int).push(want[i as int]));
        i += 1;
    }
    assert(want.take(projects.len() as int) =~= want);
    out
}

/// The lines of the notes list in a sidebar `width` wide.
pub fn note_items(notes: &Vec<Note>, selected: usize, width: u16) -> (r: Vec<Line>)
    ensures
        lines_view(r@) == spec_note_items(note_names(notes@), selected as nat, width as nat),
{
    let ghost want = spec_note_items(note_names(notes@), selected as nat, width as nat);
    let room = (width as usize).saturating_sub(4);
    let mut out: Vec<Line> = Vec::new();
    let mut i: usize = 0;
    while i < notes.len()
        invariant
            i <= notes.len(),
            room == nat_sub(width as nat, 4),
            want == spec_note_items(note_names(notes@), selected as nat, width as nat),
            lines_view(out@) == want.take(i as int),
        decreases notes.len() - i,
    {
        let sel = i == selected;
        let name = truncate(notes[i].name.as_str(), room);
        let label = list_label(name.as_str(), sel);
        let style = with_fg(if sel { Color::Yellow } else { Color::DarkGray }, sel);
        let l = one_line(label, style);
        let ghost before = out@;
        out.push(l);
        assert(note_names(notes@)[i as int] == notes@[i as int].name@);
        assert(lines_view(out@) =~= lines_view(before).push(line_view(l)));
        assert(want.take(i + 1) =~= want.take(i as int).push(want[i as int]));
        i += 1;
    }
    assert(want.take(notes.len() as int) =~= want);
    out
}

/// The key hints under the project list.
pub fn projects_help() -> (l: Line)
    ensures
        line_view(l) == spec_projects_help(),
{
    let mut spans: Vec<Span> = Vec::new();
    push_hint(&mut spans, " \u{2191}\u{2193}", " nav  ");
    push_hint(&mut spans, "enter", " open  ");
    push_hint(&mut spans, "n", " new  ");
    push_hint(&mut spans, "q", " quit");
    assert(Seq::<Span>::empty().map_values(|s: Span| (s.content@, s.style)) =~= seq![]);
    let l = Line { spans };
    assert(line_view(l) =~= spec_projects_help());
    l
}

/// A line of key hints.
fn hint_line(spans: Vec<Span>) -> (l: Line)
    ensures
        l.spans@ == spans@,
{
    Line { spans }
}

/// The key hints under the notes list.
pub fn sidebar_help(level: SidebarLevel) -> (r: Vec<Line>)
    ensures
        lines_view(r@) == spec_sidebar_help(level),
{
    let mut out: Vec<Line> = Vec::new();
    let ghost none = Seq::<Span>::empty().map_values(|s: Span| (s.content@, s.style));
    assert(none =~= seq![]);
    match level {
        SidebarLevel::Notes => {
            let mut a: Vec<Span> = Vec::new();
            push_hint(&mut a, " \u{2191}\u{2193}", " nav  ");
            push_hint(&mut a, "\u{2192}/enter", " open");
            let mut b: Vec<Span> = Vec::new();
            push_hint(&mut b, " e", " edit  ");
            push_hint(&mut b, "n", " new  ");
            push_hint(&mut b, "d", " del");
            let mut c: Vec<Span> = Vec::new();
            push_hint(&mut c, " esc", " back");
            out.push(hint_line(a));
            out.push(hint_line(b));
            out.push(hint_line(c));
        },
        SidebarLevel::NoteContent => {
            let mut a: Vec<Span> = Vec::new();
            push_hint(&mut a, " \u{2191}\u{2193}/tab", " block  ");
            push_hint(&mut a, "enter", " exec");
            let mut b: Vec<Span> = Vec::new();
            push_hint(&mut b, " y", " copy  ");
            push_hint(&mut b, "e", " edit");
            let mut c: Vec<Span> = Vec::new();
            push_hint(&mut c, " \u{2190}/esc", " back");
            out.push(hint_line(a));
            out.push(hint_line(b));
            out.push(hint_line(c));
        },
        SidebarLevel::Projects => {},
    }
    assert(lines_view(out@) =~= spec_sidebar_help(level));
    out
}

/// The status bar's line.
pub fn status_line(status_msg: &Option<String>, project: &str) -> (l: Line)
    ensures
        line_view(l) == spec_status_line(crate::text::opt_view(*status_msg), project@),
{
    proof {
        reveal_strlit(" ");
    }
    let mut spans: Vec<Span> = Vec::new();
    match status_msg {
        Some(msg) => {
            spans.push(styled(" ", no_style()));
            let m = msg.clone();
            assert(m@ == msg@);
            assert(crate::text::opt_view(*status_msg) == Some(msg@));
            assert(spans@[0].content@ =~= seq![' ']);
            spans.push(Span { content: m, style: with_fg(Color::Yellow, false) });
            assert(spans@.map_values(|s: Span| (s.content@, s.style)) =~= spec_status_line(
                crate::text::opt_view(*status_msg),
                project@,
            ));
        },
        None => {
            let mut t = crate::text::chars_of(" ");
            let p = crate::text::chars_of(project);
            if p.len() == 0 {
                crate::text::push_str(&mut t, "rbk");
            } else {
                crate::text::append_chars(&mut t, &p);
            }
            spans.push(Span { content: crate::text::string_of(&t), style: with_fg(Color::DarkGray, false) });
            spans.push(styled("  ctrl+n: notes  ctrl+b: browse  ctrl+c: quit", with_fg(Color::DarkGray, false)));
            assert(spans@[0].content@ == seq![' '] + if project@.len() == 0 {
                "rbk"@
            } else {
                project@
            });
            assert(spans@.map_values(|s: Span| (s.content@, s.style)) =~= spec_status_line(
                crate::text::opt_view(*status_msg),
                project@,
            ));
        },
    }
    let l = Line { spans };
    assert(line_view(l) =~= spec_status_line(crate::text::opt_view(*status_msg), project@));
    l
}

/// The command bar's line.
pub fn command_bar_line(input: &str) -> (l: Line)
    ensures
        line_view(l) == spec_command_bar_line(input@),
{
    let mut spans: Vec<Span> = Vec::new();
    spans.push(styled(" /", with_fg(Color::Yellow, true)));
    spans.push(styled(input, with_fg(Color::White, false)));
    spans.push(styled("\u{2588}", with_fg(Color::Yellow, false)));
    spans.push(styled("  enter: exec  esc: cancel", with_fg(Color::DarkGray, false)));
    let l = Line { spans };
    assert(line_view(l) =~= spec_command_bar_line(input@));
    l
}

/// The width of the notes sidebar.
pub fn sidebar_width(width: u16) -> (r: u16)
    ensures
        r == spec_sidebar_width(width),
{
    if 32 <= width / 2 {
        32
    } else {
        width / 2
    }
}

/// The widths of the terminal pane and of the notes panel.
pub fn panel_split(width: u16) -> (r: (u16, u16))
    ensures
        r == spec_panel_split(width),
{
    let room = width.saturating_sub(20);
    let panel = if 42 <= room {
        42
    } else {
        room
    };
    (width - panel, panel)
}

/// A title with a space on either side, as block borders show titles.
pub open spec fn spec_padded(t: Seq<char>) -> Seq<char> {
    seq![' '] + t + seq![' ']
}

/// A title with a space on either side.
pub fn padded(t: &str) -> (r: String)
    ensures
        r@ == spec_padded(t@),
{
    let mut c = vec![' '];
    crate::text::push_str(&mut c, t);
    c.push(' ');
    crate::text::string_of(&c)
}

/// What a note is headed by: its title, or else its name.
pub open spec fn spec_note_heading(n: Note) -> Seq<char> {
    match n.title {
        Some(t) => t@,
        None => n.name@,
    }
}

/// What a note is headed by.
pub fn note_heading(n: &Note) -> (r: String)
    ensures
        r@ == spec_note_heading(*n),
{
    match &n.title {
        Some(t) => t.clone(),
        None => n.name.clone(),
    }
}

/// Typed text followed by a block cursor.
pub open spec fn spec_input_line(value: Seq<char>) -> Seq<char> {
    value.push('\u{2588}')
}

/// Typed text followed by a block cursor.
pub fn input_line(value: &str) -> (r: String)
    ensures
        r@ == spec_input_line(value@),
{
    let mut c = crate::text::chars_of(value);
    c.push('\u{2588}');
    crate::text::string_of(&c)
}

/// The question asked before a note is deleted.
pub open spec fn spec_confirm_delete(name: Seq<char>) -> Seq<char> {
    " Delete '"@ + name + "'?  y = confirm   any key = cancel"@
}

/// The question asked before a note is deleted.
pub fn confirm_delete_message(name: &str) -> (r: String)
    ensures
        r@ == spec_confirm_delete(name@),
{
    let mut c = crate::text::chars_of(" Delete '");
    crate::text::push_str(&mut c, name);
    crate::text::push_str(&mut c, "'?  y = confirm   any key = cancel");
    crate::text::string_of(&c)
}

/// The notes sidebar's border: cyan while the notes list has the focus.
pub open spec fn spec_sidebar_border(level: SidebarLevel) -> Color {
    if level == SidebarLevel::Notes {
        Color::Cyan
    } else {
        Color::DarkGray
    }
}

/// The notes sidebar's border colour.
pub fn sidebar_border(level: SidebarLevel) -> (c: Color)
    ensures
        c == spec_sidebar_border(level),
{
    if level == SidebarLevel::Notes {
        Color::Cyan
    } else {
        Color::DarkGray
    }
}

/// A note pane's border: yellow while it has the focus.
pub open spec fn spec_note_border(focused: bool) -> Color {
    if focused {
        Color::Yellow
    } else {
        Color::DarkGray
    }
}

/// A note pane's border colour.
pub fn note_border(focused: bool) -> (c: Color)
    ensures
        c == spec_note_border(focused),
{
    if focused {
        Color::Yellow
    } else {
        Color::DarkGray
    }
}

/// The keys shown under the notes panel: closing and leaving it while it
/// has the focus, cycling and focusing it otherwise.
pub open spec fn spec_panel_hint(focused: bool) -> Seq<char> {
    if focused {
        " ctrl+n:close  esc:unfocus "@
    } else {
        " ctrl+n:cycle  ctrl+w:focus "@
    }
}

/// The keys shown under the notes panel.
pub fn panel_hint(focused: bool) -> (r: String)
    ensures
        r@ == spec_panel_hint(focused),
{
    if focused {
        String::from_str(" ctrl+n:close  esc:unfocus ")
    } else {
        String::from_str(" ctrl+n:cycle  ctrl+w:focus ")
    }
}

/// What an empty list says: how to create the first project or note.
pub open spec fn spec_empty_list_message(projects: bool) -> Seq<char> {
    if projects {
        "\n  No projects yet.\n\n  Press 'n' to create one."@
    } else {
        "  No notes.\n  Press 'n' to create one."@
    }
}

/// What an empty project or notes list says.
pub fn empty_list_message(projects: bool) -> (r: String)
    ensures
        r@ == spec_empty_list_message(projects),
{
    if projects {
        String::from_str("\n  No projects yet.\n\n  Press 'n' to create one.")
    } else {
        String::from_str("  No notes.\n  Press 'n' to create one.")
    }
}

} // verus!
