//! The note repository: where note files are kept, how they are named, and
//! the queries answered over the stored notes.
use vstd::prelude::*;

use crate::note::Note;
use crate::system::{clone_path, is_plain_file_name, join_path, joined_components, path_components};
use crate::tag::Tag;
use crate::text::{chars_of, contains, contains_spec, lowercase, occurs_at, same_text, to_lowercase};
use std::path::PathBuf;

verus! {

/// Each note is kept in a file of its own in the directory `notes` under a
/// base directory.
pub struct FileNoteRepository {
    base_path: PathBuf,
}

/// The name of the file that holds the note with identifier `id`.
pub open spec fn note_file_name_spec(id: Seq<char>) -> Seq<char> {
    id + seq!['.', 'm', 'd']
}

/// A file name whose extension, as `Path::extension` reads it, is `md`: it
/// ends in `.md` and something comes before that dot.
pub open spec fn is_note_file_name_spec(name: Seq<char>) -> bool {
    let n = name.len() as int;
    n > 3 && name[n - 3] == '.' && name[n - 2] == 'm' && name[n - 1] == 'd'
}

impl FileNoteRepository {
    /// The base directory under which the notes directory lies.
    pub closed spec fn base_path(&self) -> PathBuf {
        self.base_path
    }

    /// A repository whose notes live in the directory `notes` under
    /// `base_path`. Creating that directory is left to the caller.
    pub fn new(base_path: &PathBuf) -> (r: Self)
        ensures
            r.base_path() == *base_path,
    {
        FileNoteRepository { base_path: clone_path(base_path) }
    }

    /// The directory that holds the note files: `notes` joined to the base directory.
    pub fn storage_path(&self) -> (r: PathBuf)
        ensures
            path_components(r) == path_components(self.base_path()).push("notes"@),
    {
        proof {
            reveal_strlit("notes");
            let name = "notes"@;
            assert(name.len() == 5);
            assert(forall|i: int| 0 <= i < name.len() ==> #[trigger] name[i] != '/' && name[i] != '\\' && name[i] != ':');
            assert(name != seq!['.']);
            assert(name != seq!['.', '.']);
            assert(is_plain_file_name(name));
        }
        join_path(&self.base_path, "notes")
    }

    /// The path of the file that holds the note with identifier `id`: the
    /// file named by `note_file_name` joined to the notes directory. When that
    /// file name is one ordinary component (an identifier without separators,
    /// as generated ones are), the path lists the components of the base
    /// directory, then `notes`, then the file name.
    pub fn get_file_path(&self, id: &str) -> (r: PathBuf)
        ensures
            path_components(r) == joined_components(
                path_components(self.base_path()).push("notes"@),
                note_file_name_spec(id@),
            ),
            is_plain_file_name(note_file_name_spec(id@)) ==> path_components(r) == path_components(
                self.base_path(),
            ).push("notes"@).push(note_file_name_spec(id@)),
    {
        let dir = self.storage_path();
        let name = note_file_name(id);
        join_path(&dir, name.as_str())
    }
}

/// The name of the file that holds the note with identifier `id`: the
/// identifier followed by `.md`.
pub fn note_file_name(id: &str) -> (r: String)
    ensures
        r@ == note_file_name_spec(id@),
{
    let mut r = String::from_str(id);
    r.append(".md");
    proof {
        reveal_strlit(".md");
        assert(r@ =~= note_file_name_spec(id@));
    }
    r
}

/// Whether a file in the notes directory holds a note: its extension is `md`.
pub fn is_note_file_name(name: &str) -> (b: bool)
    ensures
        b == is_note_file_name_spec(name@),
{
    let cs = chars_of(name);
    let n = cs.len();
    n > 3 && cs[n - 3] == '.' && cs[n - 2] == 'm' && cs[n - 1] == 'd'
}

/// A saved note is found again: the file a note with a non-empty identifier
/// is written to is one that the directory scan reads as a note.
pub proof fn lemma_note_file_is_listed(id: Seq<char>)
    requires
        id.len() > 0,
    ensures
        is_note_file_name_spec(note_file_name_spec(id)),
{
}

/// The note belongs to the context with identifier `context_id`.
pub open spec fn in_context(context_id: Seq<char>) -> spec_fn(Note) -> bool {
    |n: Note| n.context_id@ == context_id
}

/// Some tag of the note has the name of some tag in `query`.
pub open spec fn has_any_tag(query: Seq<Tag>) -> spec_fn(Note) -> bool {
    |n: Note|
        exists|i: int, j: int|
            0 <= i < n.tags@.len() && 0 <= j < query.len() && #[trigger] n.tags@[i].name@
                == #[trigger] query[j].name@
}

/// The note's content contains `query`, ignoring case.
pub open spec fn content_contains(query: Seq<char>) -> spec_fn(Note) -> bool {
    |n: Note| contains_spec(lowercase(n.content@), lowercase(query))
}

/// Some tag name of the note contains `lowered`, once lower-cased.
pub open spec fn some_tag_contains(tags: Seq<Tag>, lowered: Seq<char>) -> bool {
    exists|i: int| 0 <= i < tags.len() && contains_spec(lowercase(#[trigger] tags[i].name@), lowered)
}

/// The note's title, content or one of its tag names contains `query`, ignoring case.
pub open spec fn matches_search(query: Seq<char>) -> spec_fn(Note) -> bool {
    |n: Note|
        {
            ||| contains_spec(lowercase(n.title@), lowercase(query))
            ||| contains_spec(lowercase(n.content@), lowercase(query))
            ||| some_tag_contains(n.tags@, lowercase(query))
        }
}

/// Whether some tag in `tags` has the name of some tag in `query`.
fn shares_a_tag(tags: &Vec<Tag>, query: &[Tag]) -> (b: bool)
    ensures
        b == exists|i: int, j: int|
            0 <= i < tags@.len() && 0 <= j < query@.len() && #[trigger] tags@[i].name@
                == #[trigger] query@[j].name@,
{
    let mut i: usize = 0;
    while i < tags.len()
        invariant
            i <= tags@.len(),
            forall|a: int, b: int|
                0 <= a < i && 0 <= b < query@.len() ==> #[trigger] tags@[a].name@
                    != #[trigger] query@[b].name@,
        decreases tags@.len() - i,
    {
        let mut j: usize = 0;
        while j < query.len()
            invariant
                i < tags@.len(),
                j <= query@.len(),
                forall|a: int, b: int|
                    0 <= a < i && 0 <= b < query@.len() ==> #[trigger] tags@[a].name@
                        != #[trigger] query@[b].name@,
                forall|b: int| 0 <= b < j ==> tags@[i as int].name@ != #[trigger] query@[b].name@,
            decreases query@.len() - j,
        {
            if same_text(tags[i].name.as_str(), query[j].name.as_str()) {
                return true;
            }
            j = j + 1;
        }
        i = i + 1;
    }
    false
}

/// Whether some tag name in `tags`, lower-cased, contains `lowered`.
fn some_tag_contains_exec(tags: &Vec<Tag>, lowered: &str) -> (b: bool)
    ensures
        b == some_tag_contains(tags@, lowered@),
{
    let mut i: usize = 0;
    while i < tags.len()
        invariant
            i <= tags@.len(),
            forall|a: int| 0 <= a < i ==> !contains_spec(lowercase(#[trigger] tags@[a].name@), lowered@),
        decreases tags@.len() - i,
    {
        let name = to_lowercase(tags[i].name.as_str());
        if contains(name.as_str(), lowered) {
            return true;
        }
        i = i + 1;
    }
    false
}

/// The notes that belong to the context with identifier `context_id`, in their order.
pub fn notes_in_context(notes: Vec<Note>, context_id: &str) -> (r: Vec<Note>)
    ensures
        r@ == notes@.filter(in_context(context_id@)),
{
    let ghost all = notes@;
    let ghost p = in_context(context_id@);
    let mut kept: Vec<Note> = Vec::new();
    for n in it: notes.into_iter()
        invariant
            it.seq() == all,
            p == in_context(context_id@),
            kept@ == all.take(it.index()).filter(p),
    {
        let ghost k = it.index();
        if same_text(n.context_id.as_str(), context_id) {
            kept.push(n);
        }
        assert(kept@ == all.take(k + 1).filter(p)) by {
            assert(all.take(k + 1).drop_last() =~= all.take(k));
            assert(all.take(k + 1).last() == all[k]);
            reveal_with_fuel(Seq::<_>::filter, 1);
        }
    }
    proof {
        assert(all.take(all.len() as int) =~= all);
    }
    kept
}

/// The notes that carry at least one of the query tags (compared by name), in their order.
pub fn notes_with_any_tag(notes: Vec<Note>, query_tags: &[Tag]) -> (r: Vec<Note>)
    ensures
        r@ == notes@.filter(has_any_tag(query_tags@)),
{
    let ghost all = notes@;
    let ghost p = has_any_tag(query_tags@);
    let mut kept: Vec<Note> = Vec::new();
    for n in it: notes.into_iter()
        invariant
            it.seq() == all,
            p == has_any_tag(query_tags@),
            kept@ == all.take(it.index()).filter(p),
    {
        let ghost k = it.index();
        if shares_a_tag(&n.tags, query_tags) {
            kept.push(n);
        }
        assert(kept@ == all.take(k + 1).filter(p)) by {
            assert(all.take(k + 1).drop_last() =~= all.take(k));
            assert(all.take(k + 1).last() == all[k]);
            reveal_with_fuel(Seq::<_>::filter, 1);
        }
    }
    proof {
        assert(all.take(all.len() as int) =~= all);
    }
    kept
}

/// The notes whose content contains `query`, ignoring case, in their order.
pub fn notes_with_content(notes: Vec<Note>, query: &str) -> (r: Vec<Note>)
    ensures
        r@ == notes@.filter(content_contains(query@)),
{
    let q = to_lowercase(query);
    let ghost all = notes@;
    let ghost p = content_contains(query@);
    let mut kept: Vec<Note> = Vec::new();
    for n in it: notes.into_iter()
        invariant
            it.seq() == all,
            q@ == lowercase(query@),
            p == content_contains(query@),
            kept@ == all.take(it.index()).filter(p),
    {
        let ghost k = it.index();
        let content = to_lowercase(n.content.as_str());
        if contains(content.as_str(), q.as_str()) {
            kept.push(n);
        }
        assert(kept@ == all.take(k + 1).filter(p)) by {
            assert(all.take(k + 1).drop_last() =~= all.take(k));
            assert(all.take(k + 1).last() == all[k]);
            reveal_with_fuel(Seq::<_>::filter, 1);
        }
    }
    proof {
        assert(all.take(all.len() as int) =~= all);
    }
    kept
}

/// The notes whose title, content or one of whose tag names contains
/// `query`, ignoring case, in their order. The empty query keeps every note.
pub fn search_notes(notes: Vec<Note>, query: &str) -> (r: Vec<Note>)
    ensures
        r@ == notes@.filter(matches_search(query@)),
        query@.len() == 0 ==> r@ == notes@,
{
    let q = to_lowercase(query);
    let ghost all = notes@;
    let ghost p = matches_search(query@);
    let mut kept: Vec<Note> = Vec::new();
    for n in it: notes.into_iter()
        invariant
            it.seq() == all,
            q@ == lowercase(query@),
            query@.len() == 0 ==> q@.len() == 0,
            p == matches_search(query@),
            kept@ == all.take(it.index()).filter(p),
            query@.len() == 0 ==> kept@ == all.take(it.index()),
    {
        let ghost k = it.index();
        let title = to_lowercase(n.title.as_str());
        let content = to_lowercase(n.content.as_str());
        let keep = contains(title.as_str(), q.as_str()) || contains(content.as_str(), q.as_str())
            || some_tag_contains_exec(&n.tags, q.as_str());
        proof {
            if q@.len() == 0 {
                assert(occurs_at(title@, q@, 0)) by {
                    assert(title@.subrange(0, 0) =~= q@);
                }
            }
        }
        if keep {
            kept.push(n);
        }
        assert(kept@ == all.take(k + 1).filter(p)) by {
            assert(all.take(k + 1).drop_last() =~= all.take(k));
            assert(all.take(k + 1).last() == all[k]);
            reveal_with_fuel(Seq::<_>::filter, 1);
        }
        assert(query@.len() == 0 ==> kept@ =~= all.take(k + 1));
    }
    proof {
        assert(all.take(all.len() as int) =~= all);
    }
    kept
}

} // verus!
