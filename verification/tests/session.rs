use ntx::config::blank;
use ntx::session::{expand_tilde, lookup_prop, parse_conf, session_name, Session};

const CONF: &str = "# a comment\ndir = ~/dev/app\nshell = \"/bin/bash\"\ninit_script = '/etc/init.sh'\n\n[env]\nNODE_ENV = development\nEMPTY =\n= skipped\n\n[other]\nignored = yes\n\n[SCRIPT]\necho one\n  echo two  \n\n";

#[test]
fn parse_conf_reads_props_env_and_script() {
    let (props, env, script) = parse_conf(CONF);
    assert_eq!(lookup_prop(&props, "dir"), Some("~/dev/app".to_string()));
    assert_eq!(lookup_prop(&props, "shell"), Some("/bin/bash".to_string()));
    assert_eq!(lookup_prop(&props, "init_script"), Some("/etc/init.sh".to_string()));
    assert_eq!(lookup_prop(&props, "ignored"), None);
    assert_eq!(
        env,
        vec![
            ("NODE_ENV".to_string(), "development".to_string()),
            ("EMPTY".to_string(), "".to_string()),
        ]
    );
    assert_eq!(script, Some("echo one\n  echo two".to_string()));
}

#[test]
fn parse_conf_later_prop_wins() {
    let (props, _, _) = parse_conf("dir = /a\ndir = /b\n");
    assert_eq!(lookup_prop(&props, "dir"), Some("/b".to_string()));
}

#[test]
fn parse_conf_blank_script_is_none() {
    let (props, env, script) = parse_conf("[script]\n   \n\n");
    assert!(props.is_empty());
    assert!(env.is_empty());
    assert_eq!(script, None);
}

#[test]
fn from_conf_fills_session() {
    let s = Session::from_conf("work", "proj", "/c/work.conf", CONF);
    assert_eq!(s.name, "work");
    assert_eq!(s.project, "proj");
    assert_eq!(s.file_path, "/c/work.conf");
    assert_eq!(s.working_dir, Some("~/dev/app".to_string()));
    assert_eq!(s.shell, Some("/bin/bash".to_string()));
    assert_eq!(s.init_script, Some("/etc/init.sh".to_string()));
    assert_eq!(s.script_body, Some("echo one\n  echo two".to_string()));
    assert_eq!(s.env_vars.len(), 2);
}

fn sample() -> Session {
    Session {
        name: "default".to_string(),
        project: "p".to_string(),
        file_path: "/x/default.conf".to_string(),
        working_dir: Some("/srv".to_string()),
        shell: Some("/bin/zsh".to_string()),
        init_script: Some("/etc/rc".to_string()),
        script_body: Some("echo ready".to_string()),
        env_vars: vec![("A".to_string(), "1".to_string())],
    }
}

#[test]
fn to_conf_string_layout() {
    assert_eq!(
        sample().to_conf_string(),
        "dir = /srv\nshell = /bin/zsh\ninit_script = /etc/rc\n\n[env]\nA = 1\n\n[script]\necho ready\n"
    );
}

#[test]
fn conf_round_trip() {
    let s = sample();
    let back = Session::from_conf(&s.name, &s.project, &s.file_path, &s.to_conf_string());
    assert_eq!(back.working_dir, s.working_dir);
    assert_eq!(back.shell, s.shell);
    assert_eq!(back.init_script, s.init_script);
    assert_eq!(back.script_body, s.script_body);
    assert_eq!(back.env_vars, s.env_vars);
}

#[test]
fn shell_bin_prefers_config_then_env() {
    let mut s = sample();
    assert_eq!(s.shell_bin(Some("/bin/fish".to_string())), "/bin/zsh");
    s.shell = None;
    assert_eq!(s.shell_bin(Some("/bin/fish".to_string())), "/bin/fish");
    assert_eq!(s.shell_bin(None), "/bin/zsh");
}

#[test]
fn working_dir_expands_tilde() {
    let mut s = sample();
    s.working_dir = Some("~/code".to_string());
    assert_eq!(s.working_dir_path_in(Some("/home/u".to_string())), "/home/u/code");
    s.working_dir = None;
    assert_eq!(s.working_dir_path_in(Some("/home/u".to_string())), "/home/u");
    assert_eq!(s.working_dir_path_in(None), "/");
}

#[test]
fn expand_tilde_cases() {
    assert_eq!(expand_tilde("~", Some("/h".to_string())), "/h");
    assert_eq!(expand_tilde("~/a/b", Some("/h".to_string())), "/h/a/b");
    assert_eq!(expand_tilde("~/a", None), "~/a");
    assert_eq!(expand_tilde("/abs", Some("/h".to_string())), "/abs");
    assert_eq!(expand_tilde("~user", Some("/h".to_string())), "~user");
}

#[test]
fn init_file_text_and_path() {
    let s = sample();
    let (path, text) = s.build_init_file("/tmp").unwrap();
    assert_eq!(path, "/tmp/ntx_default.sh");
    assert_eq!(text, "source /etc/rc\necho ready\nclear");
}

#[test]
fn init_file_none_without_script() {
    let mut s = sample();
    s.init_script = None;
    s.script_body = None;
    assert!(s.build_init_file("/tmp").is_none());
}

#[test]
fn blank_session_is_default() {
    let s = blank("proj");
    assert_eq!(s.name, "default");
    assert_eq!(s.project, "proj");
    assert!(s.file_path.ends_with("/.ntx/projects/proj/config/default.conf"));
    assert!(s.working_dir.is_none() && s.shell.is_none() && s.script_body.is_none());
    assert!(s.env_vars.is_empty());
}

#[test]
fn quoted_value_loses_its_quotes() {
    let mut s = sample();
    s.working_dir = Some("\"/srv\"".to_string());
    let back = Session::from_conf(&s.name, &s.project, &s.file_path, &s.to_conf_string());
    assert_eq!(back.working_dir, Some("/srv".to_string()));
}

#[test]
fn script_keeps_shell_tests() {
    let (_, _, script) = parse_conf("[script]\n[ -f ~/.env ] && source ~/.env\necho hi");
    assert_eq!(script, Some("[ -f ~/.env ] && source ~/.env\necho hi".to_string()));
}

#[test]
fn script_ends_at_a_section_header() {
    let (_, env, script) = parse_conf("[script]\necho a\n[other]\necho b\n[ENV]\nK = v\n");
    assert_eq!(script, Some("echo a".to_string()));
    assert_eq!(env, vec![("K".to_string(), "v".to_string())]);
}

#[test]
fn bracket_line_outside_script_opens_other() {
    let (props, _, _) = parse_conf("[ x ]\ndir = /a\n");
    assert!(props.is_empty());
}

#[test]
fn props_hold_each_key_once() {
    let (props, _, _) = parse_conf("dir = /a\nshell = /bin/sh\ndir = /b\n");
    assert_eq!(
        props,
        vec![
            ("shell".to_string(), "/bin/sh".to_string()),
            ("dir".to_string(), "/b".to_string()),
        ]
    );
}

#[test]
fn child_env_ends_with_term() {
    assert_eq!(
        sample().child_env(),
        vec![
            ("A".to_string(), "1".to_string()),
            ("TERM".to_string(), "xterm-256color".to_string()),
        ]
    );
}

#[test]
fn session_names_from_file_names() {
    assert_eq!(session_name(Some("work.conf".to_string())), "work");
    assert_eq!(session_name(Some("a.b.conf".to_string())), "a.b");
    assert_eq!(session_name(Some(".conf".to_string())), ".conf");
    assert_eq!(session_name(Some("plain".to_string())), "plain");
    assert_eq!(session_name(None), "unnamed");
}
