//! The note file format: a YAML front matter between two `---` markers,
//! followed by the Markdown content.
use vstd::prelude::*;

use crate::text::{
    chars_of, lemma_trimmed_has_no_leading_whitespace, string_from_range, trim_spec, trim_start,
    trim_start_spec,
};

verus! {

/// The marker `---` starts at position `k` of `s`.
pub open spec fn marker_at(s: Seq<char>, k: int) -> bool {
    0 <= k && k + 3 <= s.len() && s[k] == '-' && s[k + 1] == '-' && s[k + 2] == '-'
}

/// The first position at or after `from` where the marker `---` starts.
pub open spec fn next_marker(s: Seq<char>, from: int) -> Option<int>
    decreases s.len() - from,
{
    if from < 0 || from + 3 > s.len() {
        None
    } else if marker_at(s, from) {
        Some(from)
    } else {
        next_marker(s, from + 1)
    }
}

/// The two parts of a note file, as `splitn(3, "---")` cuts it: the text
/// between the first marker and the next one (the front matter), and what
/// follows that second marker with its leading whitespace removed (the
/// content). `None` when the file holds fewer than two markers.
pub open spec fn split_note_spec(s: Seq<char>) -> Option<(Seq<char>, Seq<char>)> {
    match next_marker(s, 0) {
        None => None,
        Some(i) => match next_marker(s, i + 3) {
            None => None,
            Some(j) => Some((s.subrange(i + 3, j), trim_start_spec(s.skip(j + 3)))),
        },
    }
}

/// The marker line that opens and closes the front matter.
pub open spec fn marker_line() -> Seq<char> {
    seq!['-', '-', '-', '\n']
}

/// The text of a note file: a marker line, the front matter, a marker line,
/// the content.
pub open spec fn render_note_spec(front_matter: Seq<char>, content: Seq<char>) -> Seq<char> {
    marker_line() + front_matter + marker_line() + content
}

/// No `---` starts inside the front matter, not even one that runs on into
/// the closing marker that follows it.
pub open spec fn front_matter_fits(front_matter: Seq<char>) -> bool {
    forall|k: int| 0 <= k < front_matter.len() ==> !marker_at(front_matter + seq!['-', '-', '-'], k)
}

proof fn lemma_next_marker_is(s: Seq<char>, from: int, j: int)
    requires
        0 <= from <= j,
        marker_at(s, j),
        forall|k: int| from <= k < j ==> !marker_at(s, k),
    ensures
        next_marker(s, from) == Some(j),
    decreases j - from,
{
    if from < j {
        lemma_next_marker_is(s, from + 1, j);
    }
}

proof fn lemma_next_marker_none(s: Seq<char>, from: int)
    requires
        0 <= from,
        forall|k: int| from <= k < s.len() ==> !marker_at(s, k),
    ensures
        next_marker(s, from) is None,
    decreases s.len() - from,
{
    if from + 3 <= s.len() {
        lemma_next_marker_none(s, from + 1);
    }
}

/// Whether the marker `---` starts at position `k`.
fn marker_at_exec(cs: &Vec<char>, k: usize) -> (b: bool)
    ensures
        b == marker_at(cs@, k as int),
{
    let n = cs.len();
    if k >= n || n - k < 3 {
        return false;
    }
    cs[k] == '-' && cs[k + 1] == '-' && cs[k + 2] == '-'
}

/// The first position at or after `from` where the marker starts.
fn find_marker(cs: &Vec<char>, from: usize) -> (r: Option<usize>)
    ensures
        match r {
            Some(j) => next_marker(cs@, from as int) == Some(j as int) && from <= j && j + 3 <= cs@.len(),
            None => next_marker(cs@, from as int) is None,
        },
{
    let n = cs.len();
    let mut k = from;
    while k < n
        invariant
            n == cs@.len(),
            from <= k,
            forall|m: int| from <= m < k ==> !marker_at(cs@, m),
        decreases n - k,
    {
        if marker_at_exec(cs, k) {
            proof {
                lemma_next_marker_is(cs@, from as int, k as int);
            }
            return Some(k);
        }
        k = k + 1;
    }
    proof {
        lemma_next_marker_none(cs@, from as int);
    }
    None
}

/// Cuts a note file into its front matter and its content. `None` when the
/// file holds fewer than two `---` markers.
pub fn split_note_file(file_content: &str) -> (r: Option<(String, String)>)
    ensures
        match r {
            Some((front_matter, content)) => split_note_spec(file_content@) == Some(
                (front_matter@, content@),
            ),
            None => split_note_spec(file_content@) is None,
        },
{
    let cs = chars_of(file_content);
    let first = match find_marker(&cs, 0) {
        Some(i) => i,
        None => return None,
    };
    let second = match find_marker(&cs, first + 3) {
        Some(j) => j,
        None => return None,
    };
    let front_matter = string_from_range(&cs, first + 3, second);
    let rest = string_from_range(&cs, second + 3, cs.len());
    let content = trim_start(rest.as_str());
    proof {
        assert(cs@.subrange(second + 3, cs@.len() as int) =~= cs@.skip(second + 3));
    }
    Some((front_matter, content))
}

/// Writes a note file: a marker line, the front matter, a marker line, the content.
pub fn render_note_file(front_matter: &str, content: &str) -> (r: String)
    ensures
        r@ == render_note_spec(front_matter@, content@),
{
    let mut r = String::from_str("---\n");
    r.append(front_matter);
    r.append("---\n");
    r.append(content);
    proof {
        reveal_strlit("---\n");
        assert(r@ =~= render_note_spec(front_matter@, content@));
    }
    r
}

/// Reading back what was written: cutting a rendered note file gives back
/// the front matter (after the line break that ends the opening marker line)
/// and the content without its leading whitespace, provided that no `---`
/// starts inside the front matter.
pub proof fn lemma_split_after_render(front_matter: Seq<char>, content: Seq<char>)
    requires
        front_matter_fits(front_matter),
    ensures
        split_note_spec(render_note_spec(front_matter, content)) == Some(
            (seq!['\n'] + front_matter, trim_start_spec(content)),
        ),
{
    let s = render_note_spec(front_matter, content);
    let n = front_matter.len() as int;
    let t = front_matter + seq!['-', '-', '-'];
    assert(marker_at(s, 0));
    lemma_next_marker_is(s, 0, 0);
    assert forall|k: int| 3 <= k < 4 + n implies !marker_at(s, k) by {
        if k == 3 {
            assert(s[3] == '\n');
        } else {
            assert(!marker_at(t, k - 4));
            assert(s[k] == t[k - 4]);
            assert(s[k + 1] == t[k - 3]);
            assert(s[k + 2] == t[k - 2]);
        }
    }
    assert(marker_at(s, 4 + n));
    lemma_next_marker_is(s, 3, 4 + n);
    assert(s.subrange(3, 4 + n) =~= seq!['\n'] + front_matter);
    assert(s.skip(4 + n + 3) =~= seq!['\n'] + content);
    assert(trim_start_spec(seq!['\n'] + content) == trim_start_spec((seq!['\n'] + content).drop_first()));
    assert((seq!['\n'] + content).drop_first() =~= content);
}

/// A note's content is stored trimmed, and a trimmed content is read back
/// from its file exactly as it was written.
pub proof fn lemma_trimmed_content_reads_back(front_matter: Seq<char>, raw_content: Seq<char>)
    requires
        front_matter_fits(front_matter),
    ensures
        split_note_spec(render_note_spec(front_matter, trim_spec(raw_content))) == Some(
            (seq!['\n'] + front_matter, trim_spec(raw_content)),
        ),
{
    lemma_split_after_render(front_matter, trim_spec(raw_content));
    lemma_trimmed_has_no_leading_whitespace(raw_content);
}

} // verus!
