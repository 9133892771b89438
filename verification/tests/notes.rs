use ntx::notes::{parse_note, split_frontmatter};

#[test]
fn test_parse_note_full() {
    let content = r#"---
name: My Commands
tags: [build, dev]
---

# Build Commands

Some text.

```bash
cargo build
cargo test
```

More text.

```sql
SELECT * FROM events;
```
"#;
    let note = parse_note("my-commands", content, "/tmp/test.md");
    assert_eq!(note.name, "My Commands");
    assert_eq!(note.tags, vec!["build", "dev"]);
    assert_eq!(note.title, Some("Build Commands".to_string()));
    assert_eq!(note.code_blocks.len(), 2);
    assert_eq!(note.code_blocks[0].content, "cargo build\ncargo test");
    assert_eq!(note.code_blocks[1].content, "SELECT * FROM events;");
}

#[test]
fn test_parse_note_minimal() {
    let content = "Just some text with no frontmatter or headings.\n";
    let note = parse_note("bare-note", content, "/tmp/bare.md");
    assert_eq!(note.name, "bare-note");
    assert_eq!(note.title, None);
    assert!(note.tags.is_empty());
    assert!(note.code_blocks.is_empty());
}

#[test]
fn test_parse_note_no_name() {
    let content = r#"---
tags: [ssh]
---

# SSH Tunnels
"#;
    let note = parse_note("ssh-tunnels", content, "/tmp/ssh.md");
    assert_eq!(note.name, "ssh-tunnels");
    assert_eq!(note.title, Some("SSH Tunnels".to_string()));
    assert_eq!(note.tags, vec!["ssh"]);
}

#[test]
fn empty_frontmatter_is_recognised() {
    let note = parse_note("x", "---\n---\nbody", "/n");
    assert_eq!(note.body, "body");
    assert_eq!(note.name, "x");
    assert!(note.tags.is_empty());
}

#[test]
fn split_frontmatter_cases() {
    let c = |s: &str| s.chars().collect::<Vec<char>>();
    let st = |v: Vec<char>| v.into_iter().collect::<String>();
    let (fm, body) = split_frontmatter(&c("---\n---\nbody"));
    assert_eq!((st(fm), st(body)), (String::new(), "body".to_string()));
    let (fm, body) = split_frontmatter(&c("---\nname: A\n---\n\n# T"));
    assert_eq!((st(fm), st(body)), ("name: A".to_string(), "# T".to_string()));
    let (fm, body) = split_frontmatter(&c("---\nname: A\nno close"));
    assert_eq!((st(fm), st(body)), (String::new(), "---\nname: A\nno close".to_string()));
}
