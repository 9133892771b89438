use ntx::notes::{new_note_file, note_slug, parse_note, sort_notes};
use ntx::paths::{
    base_dir, base_dir_from, conf_dir, notes_dir, path_join, project_dir, projects_dir,
    projects_dir_from, sort_names,
};
use ntx::terminal::shell_init_plan;

#[test]
fn path_join_like_unix_paths() {
    assert_eq!(path_join("/a", "b"), "/a/b");
    assert_eq!(path_join("/a/", "b"), "/a/b");
    assert_eq!(path_join("", "b"), "b");
    assert_eq!(path_join("/a", "/etc"), "/etc");
}

#[test]
fn base_dir_under_home() {
    assert_eq!(base_dir_from(Some("/home/u".to_string())), "/home/u/.ntx");
    assert_eq!(base_dir_from(None), "/.ntx");
}

#[test]
fn project_dirs_nest() {
    let base = base_dir();
    assert!(base.ends_with("/.ntx"));
    assert!(base.len() >= "/.ntx".len());
    assert_eq!(projects_dir(), path_join(&base, "projects"));
    assert_eq!(project_dir("p"), path_join(&projects_dir(), "p"));
    assert_eq!(conf_dir("p"), path_join(&project_dir("p"), "config"));
    assert_eq!(notes_dir("p"), path_join(&project_dir("p"), "notes"));
}

#[test]
fn project_names_sorted_by_code_point() {
    let names = vec!["b".to_string(), "B".to_string(), "a".to_string(), "ab".to_string()];
    assert_eq!(sort_names(names), vec!["B", "a", "ab", "b"]);
}

#[test]
fn slugs_of_markdown_files() {
    assert_eq!(note_slug("deploy.md"), Some("deploy".to_string()));
    assert_eq!(note_slug("a.b.md"), Some("a.b".to_string()));
    assert_eq!(note_slug("notes.txt"), None);
    assert_eq!(note_slug(".md"), None);
    assert_eq!(note_slug("README"), None);
    assert_eq!(note_slug("x.MD"), None);
}

#[test]
fn notes_sorted_ignoring_case() {
    let mk = |slug: &str| parse_note(slug, "", "/n");
    let sorted = sort_notes(vec![mk("beta"), mk("Alpha"), mk("\u{c9}clair"), mk("alpha"), mk("Beta")]);
    let names: Vec<String> = sorted.iter().map(|n| n.name.clone()).collect();
    assert_eq!(names, vec!["Alpha", "alpha", "beta", "Beta", "\u{c9}clair"]);
}

#[test]
fn zsh_init_plan() {
    let p = shell_init_plan("w", "/bin/zsh", "/tmp", "/tmp/ntx_w.sh", "/home/u");
    assert_eq!(p.rc_dir, "/tmp/ntx_rc_w");
    assert_eq!(
        p.files,
        vec![
            (
                "/tmp/ntx_rc_w/.zshenv".to_string(),
                "[ -f \"/home/u/.zshenv\" ] && source \"/home/u/.zshenv\"\n".to_string()
            ),
            (
                "/tmp/ntx_rc_w/.zshrc".to_string(),
                "ZDOTDIR=\"$HOME\"\n[ -f \"/home/u/.zshrc\" ] && source \"/home/u/.zshrc\"\nsource \"/tmp/ntx_w.sh\"\n"
                    .to_string()
            ),
        ]
    );
    assert_eq!(p.env, vec![("ZDOTDIR".to_string(), "/tmp/ntx_rc_w".to_string())]);
    assert!(p.args.is_empty());
}

#[test]
fn bash_init_plan() {
    let p = shell_init_plan("w", "/usr/bin/bash", "/tmp", "/tmp/i.sh", "/h");
    assert_eq!(
        p.files,
        vec![(
            "/tmp/ntx_rc_w/.bashrc".to_string(),
            "[ -f \"/h/.bashrc\" ] && source \"/h/.bashrc\"\nsource \"/tmp/i.sh\"\n".to_string()
        )]
    );
    assert!(p.env.is_empty());
    assert_eq!(p.args, vec!["--rcfile", "/tmp/ntx_rc_w/.bashrc"]);
}

#[test]
fn other_shell_needs_no_files() {
    let p = shell_init_plan("w", "/bin/fish", "/tmp", "/tmp/i.sh", "/h");
    assert!(p.files.is_empty() && p.env.is_empty() && p.args.is_empty());
}

#[test]
fn new_note_names() {
    let (name, template) = new_note_file(1700000000);
    assert_eq!(name, "new-note-1700000000.md");
    assert_eq!(template, "---\nname: \ntags: []\n---\n\n# \n\n```bash\n\n```\n");
    assert_eq!(new_note_file(-5).0, "new-note--5.md");
    assert_eq!(new_note_file(i64::MIN).0, "new-note--9223372036854775808.md");
}

#[test]
fn ascii_and_unicode_lowercase() {
    let s = |v: Vec<char>| v.into_iter().collect::<String>();
    assert_eq!(s(ntx::notes::lowercase_of("Deploy-API_2")), "deploy-api_2");
    assert_eq!(s(ntx::notes::lowercase_of("\u{c9}CLAIR")), "\u{e9}clair");
}

#[test]
fn projects_dir_under_home() {
    assert_eq!(projects_dir_from(Some("/home/u".to_string())), "/home/u/.ntx/projects");
    assert_eq!(projects_dir_from(None), "/.ntx/projects");
}
