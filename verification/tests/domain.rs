use myknowledge::context::Context;
use myknowledge::note::{tags_from_names, Note};
use myknowledge::tag::{split_tag_input, Tag};

fn is_uuid_v4_text(s: &str) -> bool {
    let cs: Vec<char> = s.chars().collect();
    if cs.len() != 36 {
        return false;
    }
    for (i, c) in cs.iter().enumerate() {
        if i == 8 || i == 13 || i == 18 || i == 23 {
            if *c != '-' {
                return false;
            }
        } else if !(c.is_ascii_digit() || ('a'..='f').contains(c)) {
            return false;
        }
    }
    cs[14] == '4' && matches!(cs[19], '8' | '9' | 'a' | 'b')
}

#[test]
fn tag_new_normalises_the_name() {
    assert_eq!(Tag::new("  Rust Lang ").name, "rust-lang");
    assert_eq!(Tag::new("CLI").name, "cli");
    assert_eq!(Tag::new("").name, "");
}

#[test]
fn tag_name_never_holds_a_space() {
    for raw in ["a b c", "  Two  Words ", "x"] {
        assert!(!Tag::new(raw).name.contains(' '));
    }
}

#[test]
fn tags_from_names_keeps_order() {
    let tags = tags_from_names(&vec!["B".to_string(), "a b".to_string()]);
    assert_eq!(tags, vec![Tag { name: "b".to_string() }, Tag { name: "a-b".to_string() }]);
}

#[test]
fn context_new_trims_name_and_gets_fresh_id() {
    let c = Context::new("  Coding ", Some("code things".to_string()));
    assert_eq!(c.name, "Coding");
    assert_eq!(c.description, Some("code things".to_string()));
    assert!(is_uuid_v4_text(&c.id));
    assert!(c.created_at.nanos < 1_000_000_000);
    assert!(c.created_at.secs >= 0);
    assert!(c.created_at.secs > 1_600_000_000);
    let d = Context::new("Coding", None);
    assert_ne!(c.id, d.id);
}

#[test]
fn context_clone_is_equal() {
    let c = Context::new("Work", None);
    assert_eq!(c.clone(), c);
}

#[test]
fn note_new_trims_and_builds_tags() {
    let n = Note::new(
        "ctx".to_string(),
        "  My Title ".to_string(),
        "\n body \n".to_string(),
        vec!["Rust Lang".to_string(), " CLI ".to_string()],
    );
    assert_eq!(n.context_id, "ctx");
    assert_eq!(n.title, "My Title");
    assert_eq!(n.content, "body");
    assert_eq!(n.tags, vec![Tag { name: "rust-lang".to_string() }, Tag { name: "cli".to_string() }]);
    assert!(is_uuid_v4_text(&n.id));
    assert!(n.created_at.secs <= n.updated_at.secs);
}

#[test]
fn note_updates_touch_only_their_field() {
    let mut n = Note::new("c".to_string(), "t".to_string(), "x".to_string(), vec![]);
    let before = n.clone();
    n.update_title("  New Title ");
    assert_eq!(n.title, "New Title");
    assert_eq!(n.content, before.content);
    assert_eq!(n.id, before.id);
    n.update_content(" new body\n");
    assert_eq!(n.content, "new body");
    assert_eq!(n.title, "New Title");
    n.update_tags(vec![Tag::new("x")]);
    assert_eq!(n.tags, vec![Tag { name: "x".to_string() }]);
    assert_eq!(n.created_at, before.created_at);
}

#[test]
fn split_tag_input_trims_and_drops_empty_pieces() {
    assert_eq!(split_tag_input("rust, cli ,, ,notes"), vec!["rust", "cli", "notes"]);
    assert_eq!(split_tag_input(""), Vec::<String>::new());
    assert_eq!(split_tag_input("  "), Vec::<String>::new());
    assert_eq!(split_tag_input("one"), vec!["one"]);
    assert_eq!(split_tag_input(",a,"), vec!["a"]);
}

#[test]
fn tag_ignores_surrounding_whitespace() {
    for raw in ["Rust Lang", "", "  x y  ", "\u{3000}Wide"] {
        let padded = format!(" \t{}\n\u{A0}", raw);
        assert_eq!(Tag::new(&padded), Tag::new(raw));
    }
}

#[test]
fn tag_normal_form_is_fixed() {
    for raw in ["  Rust Lang ", "CLI", "", "a  B\tc", "x-Y z"] {
        let t = Tag::new(raw);
        assert_eq!(Tag::new(&t.name), t);
    }
}

#[test]
fn tag_ignores_ascii_case() {
    for raw in ["Rust Lang", " cli tools ", "MiXeD-Case 42"] {
        assert_eq!(Tag::new(&raw.to_ascii_uppercase()), Tag::new(raw));
        assert_eq!(Tag::new(&raw.to_ascii_lowercase()), Tag::new(raw));
    }
}

#[test]
fn note_clone_keeps_every_field() {
    let n = Note::new("c".to_string(), "T".to_string(), "body".to_string(), vec!["a".to_string()]);
    assert_eq!(n.clone(), n);
}
