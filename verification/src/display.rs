//! How notes are shown: the tag list, the one-line preview, and the entry a
//! note gets in a backup file.
use vstd::prelude::*;

use crate::note::Note;
use crate::tag::Tag;
use crate::text::{chars_of, contains_spec, occurs_at};
use crate::text::push_char;

verus! {

/// How many characters of the content a preview shows.
pub const PREVIEW_LEN: usize = 60;

/// The tags as `#name` items separated by `, `.
pub open spec fn tags_display_spec(tags: Seq<Tag>) -> Seq<char>
    decreases tags.len(),
{
    if tags.len() == 0 {
        Seq::empty()
    } else if tags.len() == 1 {
        seq!['#'] + tags[0].name@
    } else {
        tags_display_spec(tags.drop_last()) + seq![',', ' ', '#'] + tags.last().name@
    }
}

/// The first characters of the content, up to `PREVIEW_LEN`, with each line
/// break shown as a space.
pub open spec fn preview_spec(content: Seq<char>) -> Seq<char> {
    let shown = if content.len() <= PREVIEW_LEN { content } else { content.take(PREVIEW_LEN as int) };
    shown.map_values(|c: char| if c == '\n' { ' ' } else { c })
}

/// Shows the tags as `#name` items separated by `, `.
pub fn tags_display(tags: &Vec<Tag>) -> (r: String)
    ensures
        r@ == tags_display_spec(tags@),
{
    let mut r = String::new();
    let mut i: usize = 0;
    while i < tags.len()
        invariant
            i <= tags@.len(),
            r@ == tags_display_spec(tags@.take(i as int)),
        decreases tags@.len() - i,
    {
        proof {
            assert(tags@.take(i + 1).drop_last() =~= tags@.take(i as int));
            assert(tags@.take(i + 1).last() == tags@[i as int]);
        }
        if i > 0 {
            r.append(", ");
        }
        r.append("#");
        r.append(tags[i].name.as_str());
        proof {
            reveal_strlit(", ");
            reveal_strlit("#");
            if i == 0 {
                assert(tags@.take(1)[0] == tags@[0]);
                assert(r@ =~= tags_display_spec(tags@.take(1)));
            } else {
                assert(r@ =~= tags_display_spec(tags@.take(i + 1)));
            }
        }
        i = i + 1;
    }
    assert(tags@.take(tags@.len() as int) =~= tags@);
    r
}

/// The one-line preview of a note's content: its first `PREVIEW_LEN`
/// characters with line breaks shown as spaces.
pub fn note_preview(content: &str) -> (r: String)
    ensures
        r@ == preview_spec(content@),
{
    let cs = chars_of(content);
    let end = if cs.len() <= PREVIEW_LEN { cs.len() } else { PREVIEW_LEN };
    let ghost shown = if cs@.len() <= PREVIEW_LEN { cs@ } else { cs@.take(PREVIEW_LEN as int) };
    assert(shown =~= cs@.take(end as int));
    let mut r = String::new();
    let mut i: usize = 0;
    while i < end
        invariant
            end <= cs@.len(),
            shown == cs@.take(end as int),
            i <= end,
            r@ == shown.take(i as int).map_values(|c: char| if c == '\n' { ' ' } else { c }),
        decreases end - i,
    {
        let c = cs[i];
        if c == '\n' {
            push_char(&mut r, ' ');
        } else {
            push_char(&mut r, c);
        }
        assert(shown.take(i + 1).map_values(|c: char| if c == '\n' { ' ' } else { c }) =~= shown.take(
            i as int,
        ).map_values(|c: char| if c == '\n' { ' ' } else { c }).push(
            if c == '\n' { ' ' } else { c },
        ));
        i = i + 1;
    }
    assert(shown.take(end as int) =~= shown);
    r
}

/// The entry of a note in a listing: its title and identifier, its context
/// and tags, and its preview.
pub open spec fn listing_entry_spec(note: Note, context_name: Seq<char>) -> Seq<char> {
    "📄 "@ + note.title@ + "  [ID: "@ + note.id@ + "]\n   Context: "@ + context_name
        + " | Tags: "@ + tags_display_spec(note.tags@) + "\n   Preview: "@ + preview_spec(
        note.content@,
    ) + "...\n\n"@
}

/// The entry of a note in a listing.
pub fn listing_entry(note: &Note, context_name: &str) -> (r: String)
    ensures
        r@ == listing_entry_spec(*note, context_name@),
{
    let tags = tags_display(&note.tags);
    let preview = note_preview(note.content.as_str());
    let mut r = String::from_str("📄 ");
    r.append(note.title.as_str());
    r.append("  [ID: ");
    r.append(note.id.as_str());
    r.append("]\n   Context: ");
    r.append(context_name);
    r.append(" | Tags: ");
    r.append(tags.as_str());
    r.append("\n   Preview: ");
    r.append(preview.as_str());
    r.append("...\n\n");
    r
}

/// A note shown in full: a banner with its title, context, tags and the
/// given update time, then its content.
pub open spec fn read_view_spec(note: Note, context_name: Seq<char>, updated: Seq<char>) -> Seq<char> {
    "\n==================================================\n📄 "@ + note.title@ + "\n   Context: "@
        + context_name + " | Tags: "@ + tags_display_spec(note.tags@) + "\n   Updated: "@ + updated
        + "\n==================================================\n\n"@ + note.content@ + "\n\n"@
}

/// A note shown in full, with its update time already written as text.
pub fn read_view(note: &Note, context_name: &str, updated: &str) -> (r: String)
    ensures
        r@ == read_view_spec(*note, context_name@, updated@),
{
    let tags = tags_display(&note.tags);
    let mut r = String::from_str("\n==================================================\n📄 ");
    r.append(note.title.as_str());
    r.append("\n   Context: ");
    r.append(context_name);
    r.append(" | Tags: ");
    r.append(tags.as_str());
    r.append("\n   Updated: ");
    r.append(updated);
    r.append("\n==================================================\n\n");
    r.append(note.content.as_str());
    r.append("\n\n");
    r
}

/// The heading that opens a backup file.
pub open spec fn export_header_spec() -> Seq<char> {
    "# MyKnowledge Master Backup\n\n"@
}

/// The heading that opens a backup file.
pub fn export_header() -> (r: String)
    ensures
        r@ == export_header_spec(),
{
    String::from_str("# MyKnowledge Master Backup\n\n")
}

/// The entry of a note in a backup file: its title as a heading, its context
/// and tags, its identifier, a rule, its content and a spacer.
pub open spec fn export_entry_spec(note: Note, context_name: Seq<char>) -> Seq<char> {
    "## "@ + note.title@ + "\n**Context:** "@ + context_name + " | **Tags:** "@ + tags_display_spec(
        note.tags@,
    ) + "\n**ID:** `"@ + note.id@ + "`\n---\n\n"@ + note.content@ + "\n\n<br>\n\n"@
}

/// The entry of a note in a backup file.
pub fn export_entry(note: &Note, context_name: &str) -> (r: String)
    ensures
        r@ == export_entry_spec(*note, context_name@),
{
    let tags = tags_display(&note.tags);
    let mut r = String::from_str("## ");
    r.append(note.title.as_str());
    r.append("\n**Context:** ");
    r.append(context_name);
    r.append(" | **Tags:** ");
    r.append(tags.as_str());
    r.append("\n**ID:** `");
    r.append(note.id.as_str());
    r.append("`\n---\n\n");
    r.append(note.content.as_str());
    r.append("\n\n<br>\n\n");
    r
}

/// `s` begins with `t`.
pub open spec fn starts_with(s: Seq<char>, t: Seq<char>) -> bool {
    t.len() <= s.len() && s.take(t.len() as int) == t
}

/// `s` ends with `t`.
pub open spec fn ends_with(s: Seq<char>, t: Seq<char>) -> bool {
    t.len() <= s.len() && s.skip(s.len() - t.len()) == t
}

/// A listing shows a note's whole identifier: its entry opens with the
/// note's title and then the full identifier between `[ID: ` and `]`, so the
/// identifier can be copied from the listing to read, edit or delete the note.
pub proof fn lemma_listing_shows_full_id(note: Note, context_name: Seq<char>)
    ensures
        starts_with(
            listing_entry_spec(note, context_name),
            "📄 "@ + note.title@ + "  [ID: "@ + note.id@ + "]"@,
        ),
        contains_spec(listing_entry_spec(note, context_name), "[ID: "@ + note.id@ + "]"@),
{
    reveal_strlit("📄 ");
    reveal_strlit("  [ID: ");
    reveal_strlit("[ID: ");
    reveal_strlit("]");
    reveal_strlit("]\n   Context: ");
    let e = listing_entry_spec(note, context_name);
    let head = "📄 "@ + note.title@ + "  [ID: "@ + note.id@;
    let p = head + "]"@;
    assert(e.take(p.len() as int) =~= p) by {
        assert forall|i: int| 0 <= i < p.len() implies #[trigger] e[i] == p[i] by {
            if i < head.len() {
                assert(e[i] == head[i]);
            } else {
                assert(e[i] == "]\n   Context: "@[0]);
            }
        }
    }
    let k: int = 4 + note.title@.len() as int;
    let q = "[ID: "@ + note.id@ + "]"@;
    assert(e.subrange(k, k + q.len()) =~= q) by {
        assert forall|i: int| 0 <= i < q.len() implies #[trigger] e.subrange(k, k + q.len())[i]
            == q[i] by {
            assert(e[k + i] == p[k + i]);
        }
    }
    assert(occurs_at(e, q, k));
}

/// A backup keeps each note's whole content: the entry ends with the rule
/// that opens the content, the content exactly as stored, and the spacer;
/// and it shows the note's full identifier.
pub proof fn lemma_backup_keeps_whole_content(note: Note, context_name: Seq<char>)
    ensures
        ends_with(
            export_entry_spec(note, context_name),
            "`\n---\n\n"@ + note.content@ + "\n\n<br>\n\n"@,
        ),
        contains_spec(export_entry_spec(note, context_name), "**ID:** `"@ + note.id@ + "`"@),
{
    reveal_strlit("\n**ID:** `");
    reveal_strlit("**ID:** `");
    reveal_strlit("`\n---\n\n");
    reveal_strlit("`");
    let e = export_entry_spec(note, context_name);
    let front = "## "@ + note.title@ + "\n**Context:** "@ + context_name + " | **Tags:** "@
        + tags_display_spec(note.tags@);
    let t = "`\n---\n\n"@ + note.content@ + "\n\n<br>\n\n"@;
    let mid = "\n**ID:** `"@ + note.id@;
    assert(e =~= front + mid + t);
    assert(e.skip(e.len() - t.len()) =~= t);
    let q = "**ID:** `"@ + note.id@ + "`"@;
    let k: int = front.len() as int + 1;
    assert(e.subrange(k, k + q.len()) =~= q) by {
        assert forall|i: int| 0 <= i < q.len() implies #[trigger] e.subrange(k, k + q.len())[i]
            == q[i] by {
            if i < q.len() - 1 {
                assert(e[k + i] == mid[i + 1]);
            } else {
                assert(e[k + i] == t[0]);
            }
        }
    }
    assert(occurs_at(e, q, k));
}

/// Reading a note shows its whole content: the view ends with the closing
/// banner, the content exactly as stored, and a blank line; and it opens
/// with the banner and the note's title.
pub proof fn lemma_read_view_shows_whole_content(note: Note, context_name: Seq<char>, updated: Seq<char>)
    ensures
        ends_with(
            read_view_spec(note, context_name, updated),
            "\n==================================================\n\n"@ + note.content@ + "\n\n"@,
        ),
        starts_with(
            read_view_spec(note, context_name, updated),
            "\n==================================================\n📄 "@ + note.title@,
        ),
{
    let e = read_view_spec(note, context_name, updated);
    let p = "\n==================================================\n📄 "@ + note.title@;
    let t = "\n==================================================\n\n"@ + note.content@ + "\n\n"@;
    let mid = "\n   Context: "@ + context_name + " | Tags: "@ + tags_display_spec(note.tags@)
        + "\n   Updated: "@ + updated;
    assert(e =~= p + mid + t);
    assert(e.skip(e.len() - t.len()) =~= t);
    assert(e.take(p.len() as int) =~= p);
}

} // verus!
