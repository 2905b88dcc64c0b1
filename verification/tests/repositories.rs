use myknowledge::context::Context;
use myknowledge::context_repo::{
    find_context_by_id, find_context_by_name, save_context, search_contexts_by_name,
    FileContextRepository,
};
use myknowledge::display::{
    export_entry, export_header, listing_entry, note_preview, read_view, tags_display,
};
use myknowledge::note::Note;
use myknowledge::note_file::{render_note_file, split_note_file};
use myknowledge::note_repo::{
    is_note_file_name, note_file_name, notes_in_context, notes_with_any_tag, notes_with_content,
    search_notes, FileNoteRepository,
};
use myknowledge::system::Timestamp;
use myknowledge::tag::Tag;
use std::path::PathBuf;

fn ctx(id: &str, name: &str) -> Context {
    Context {
        id: id.to_string(),
        name: name.to_string(),
        description: None,
        created_at: Timestamp { secs: 1_700_000_000, nanos: 0 },
    }
}

fn note(id: &str, context_id: &str, title: &str, content: &str, tags: &[&str]) -> Note {
    Note {
        id: id.to_string(),
        context_id: context_id.to_string(),
        title: title.to_string(),
        content: content.to_string(),
        tags: tags.iter().map(|t| Tag { name: t.to_string() }).collect(),
        created_at: Timestamp { secs: 1_700_000_000, nanos: 5 },
        updated_at: Timestamp { secs: 1_700_000_100, nanos: 7 },
    }
}

fn ids(notes: &[Note]) -> Vec<&str> {
    notes.iter().map(|n| n.id.as_str()).collect()
}

#[test]
fn context_repository_path_is_contexts_json() {
    let repo = FileContextRepository::new(&PathBuf::from("/tmp/base"));
    assert_eq!(repo.storage_path(), PathBuf::from("/tmp/base/contexts.json"));
}

#[test]
fn note_repository_paths() {
    let repo = FileNoteRepository::new(&PathBuf::from("/tmp/base"));
    assert_eq!(repo.storage_path(), PathBuf::from("/tmp/base/notes"));
    assert_eq!(repo.get_file_path("abc"), PathBuf::from("/tmp/base/notes/abc.md"));
}

#[test]
fn save_adds_new_and_replaces_existing() {
    let mut cs = vec![ctx("1", "Work"), ctx("2", "Home")];
    save_context(&mut cs, &ctx("3", "Rust"));
    assert_eq!(cs.len(), 3);
    assert_eq!(cs[2].name, "Rust");
    save_context(&mut cs, &ctx("1", "Job"));
    assert_eq!(cs.len(), 3);
    assert_eq!(cs[0].name, "Job");
    assert_eq!(cs[1].name, "Home");
}

#[test]
fn find_after_save_gives_back_the_context() {
    let mut cs = vec![ctx("1", "Work"), ctx("2", "Home")];
    let c = ctx("2", "House");
    save_context(&mut cs, &c);
    assert_eq!(find_context_by_id(cs.clone(), "2"), Some(c));
    assert_eq!(find_context_by_id(cs, "1").map(|c| c.name), Some("Work".to_string()));
}

#[test]
fn find_by_id_missing_is_none() {
    assert_eq!(find_context_by_id(vec![ctx("1", "Work")], "9"), None);
    assert_eq!(find_context_by_id(vec![], "1"), None);
}

#[test]
fn find_by_name_ignores_case_and_takes_first() {
    let cs = vec![ctx("1", "Work"), ctx("2", "WORK"), ctx("3", "Home")];
    assert_eq!(find_context_by_name(cs.clone(), "work").map(|c| c.id), Some("1".to_string()));
    assert_eq!(find_context_by_name(cs.clone(), "HOME").map(|c| c.id), Some("3".to_string()));
    assert_eq!(find_context_by_name(cs, "Wor"), None);
}

#[test]
fn search_contexts_by_name_filters_in_order() {
    let cs = vec![ctx("1", "Rust Work"), ctx("2", "Home"), ctx("3", "rusty")];
    let found: Vec<String> = search_contexts_by_name(cs, "RUST").into_iter().map(|c| c.id).collect();
    assert_eq!(found, vec!["1", "3"]);
}

#[test]
fn note_file_round_trip() {
    let yaml = "id: abc\ntitle: T\n";
    let content = "line one\n---\nline two";
    let file = render_note_file(yaml, content);
    assert_eq!(file, "---\nid: abc\ntitle: T\n---\nline one\n---\nline two");
    let (front, body) = split_note_file(&file).unwrap();
    assert_eq!(front, "\nid: abc\ntitle: T\n");
    assert_eq!(body, content);
}

#[test]
fn split_needs_two_markers() {
    assert_eq!(split_note_file("no markers here"), None);
    assert_eq!(split_note_file("--- only one"), None);
    assert_eq!(
        split_note_file("a---b---\n\n  c---d"),
        Some(("b".to_string(), "c---d".to_string()))
    );
    assert_eq!(split_note_file("------"), Some(("".to_string(), "".to_string())));
}

#[test]
fn split_agrees_with_splitn() {
    for s in ["x---y---z", "----a---", "---\n---\n", "a--b---c---  d", "-----x---"] {
        let parts: Vec<&str> = s.splitn(3, "---").collect();
        let expected = if parts.len() < 3 {
            None
        } else {
            Some((parts[1].to_string(), parts[2].trim_start().to_string()))
        };
        assert_eq!(split_note_file(s), expected, "input {:?}", s);
    }
}

#[test]
fn note_file_names() {
    assert_eq!(note_file_name("abc"), "abc.md");
    assert!(is_note_file_name("abc.md"));
    assert!(is_note_file_name("..md"));
    assert!(!is_note_file_name(".md"));
    assert!(!is_note_file_name("abc.txt"));
    assert!(!is_note_file_name("md"));
    assert!(is_note_file_name(&note_file_name("x")));
}

#[test]
fn notes_in_context_keeps_matching_notes() {
    let ns = vec![note("a", "c1", "", "", &[]), note("b", "c2", "", "", &[]), note("c", "c1", "", "", &[])];
    assert_eq!(ids(&notes_in_context(ns, "c1")), vec!["a", "c"]);
}

#[test]
fn notes_with_any_tag_matches_by_name() {
    let ns = vec![
        note("a", "c", "", "", &["rust", "cli"]),
        note("b", "c", "", "", &["home"]),
        note("c", "c", "", "", &[]),
    ];
    let q = vec![Tag::new("CLI"), Tag::new("garden")];
    assert_eq!(ids(&notes_with_any_tag(ns, &q)), vec!["a"]);
}

#[test]
fn notes_with_content_ignores_case() {
    let ns = vec![note("a", "c", "Borrow", "The Borrow Checker", &[]), note("b", "c", "x", "lifetimes", &[])];
    assert_eq!(ids(&notes_with_content(ns, "borrow checker")), vec!["a"]);
}

#[test]
fn search_checks_title_content_and_tags() {
    let ns = vec![
        note("a", "c", "Git Tips", "", &[]),
        note("b", "c", "", "use git rebase", &[]),
        note("c", "c", "", "", &["git-hooks"]),
        note("d", "c", "Cooking", "pasta", &["food"]),
    ];
    assert_eq!(ids(&search_notes(ns, "GIT")), vec!["a", "b", "c"]);
}

#[test]
fn empty_search_returns_every_note() {
    let ns = vec![note("a", "c", "", "", &[]), note("b", "d", "T", "x", &["t"])];
    assert_eq!(search_notes(ns.clone(), ""), ns);
}

#[test]
fn display_helpers() {
    let n = note("id1", "c", "Title", "first line\nsecond line", &["rust", "cli"]);
    assert_eq!(tags_display(&n.tags), "#rust, #cli");
    assert_eq!(tags_display(&vec![]), "");
    assert_eq!(note_preview(&n.content), "first line second line");
    let long: String = "ab\n".repeat(30);
    assert_eq!(note_preview(&long).chars().count(), 60);
    assert_eq!(note_preview(&long), "ab ".repeat(20));
    assert_eq!(export_header(), "# MyKnowledge Master Backup\n\n");
    assert_eq!(
        export_entry(&n, "Work"),
        "## Title\n**Context:** Work | **Tags:** #rust, #cli\n**ID:** `id1`\n---\n\nfirst line\nsecond line\n\n<br>\n\n"
    );
}

#[test]
fn saved_note_content_reads_back_exactly() {
    let n = Note::new("c".to_string(), "T".to_string(), "\n\t  body\nmore  \n".to_string(), vec![]);
    let file = render_note_file("id: x\n", &n.content);
    let (front, body) = split_note_file(&file).unwrap();
    assert_eq!(front, "\nid: x\n");
    assert_eq!(body, n.content);
}

#[test]
fn save_leaves_other_lookups_alone() {
    let mut cs = vec![ctx("1", "Work"), ctx("2", "Home")];
    let before = find_context_by_id(cs.clone(), "1");
    save_context(&mut cs, &ctx("2", "Garden"));
    save_context(&mut cs, &ctx("3", "Books"));
    assert_eq!(find_context_by_id(cs.clone(), "1"), before);
    let mut seen: Vec<String> = cs.iter().map(|c| c.id.clone()).collect();
    seen.sort();
    seen.dedup();
    assert_eq!(seen.len(), cs.len());
    assert_eq!(cs.len(), 3);
}

fn component_texts(p: &std::path::Path) -> Vec<String> {
    p.components().map(|c| c.as_os_str().to_string_lossy().into_owned()).collect()
}

#[test]
fn storage_paths_add_one_component_each() {
    for base in ["/tmp/base", "rel/dir/", "", "./x/.."] {
        let base = PathBuf::from(base);
        let mut expected = component_texts(&base);
        let contexts = FileContextRepository::new(&base).storage_path();
        expected.push("contexts.json".to_string());
        assert_eq!(component_texts(&contexts), expected);
        expected.pop();
        let notes = FileNoteRepository::new(&base);
        expected.push("notes".to_string());
        assert_eq!(component_texts(&notes.storage_path()), expected);
        expected.push("id-1.md".to_string());
        assert_eq!(component_texts(&notes.get_file_path("id-1")), expected);
    }
}

#[test]
fn note_file_path_joins_any_identifier() {
    let repo = FileNoteRepository::new(&PathBuf::from("/b"));
    for id in ["n1", "sub/n2", "a:b", "/abs"] {
        assert_eq!(repo.get_file_path(id), repo.storage_path().join(format!("{}.md", id)));
    }
}

#[test]
fn find_by_name_matches_any_ascii_case() {
    let cs = vec![ctx("1", "Coding"), ctx("2", "Home")];
    assert_eq!(find_context_by_name(cs.clone(), "CODING").map(|c| c.id), Some("1".to_string()));
    assert_eq!(find_context_by_name(cs, "coding").map(|c| c.id), Some("1".to_string()));
}

#[test]
fn listing_and_read_views() {
    let n = note("id1", "c", "Title", "first line\nsecond line", &["rust", "cli"]);
    assert_eq!(
        listing_entry(&n, "Work"),
        "📄 Title  [ID: id1]\n   Context: Work | Tags: #rust, #cli\n   Preview: first line second line...\n\n"
    );
    assert_eq!(
        read_view(&n, "Work", "2024-01-02 03:04"),
        "\n==================================================\n📄 Title\n   Context: Work | Tags: #rust, #cli\n   Updated: 2024-01-02 03:04\n==================================================\n\nfirst line\nsecond line\n\n"
    );
}
