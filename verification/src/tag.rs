//! Tags: short labels attached to notes, kept in a normal form.
use vstd::prelude::*;

use crate::text::{
    all_white_space, ascii_lower, ascii_lower_text, ascii_upper, ascii_upper_text, chars_of,
    hyphenate, hyphenate_spec, is_ascii_text, is_ascii_upper, is_white_space, lemma_trim_ignores_surrounding_whitespace,
    lemma_trim_keeps_ascii, lemma_trim_keeps_trimmed, lemma_trim_map, lemma_trimmed_ends, lowercase,
    string_from_range, to_lowercase, trim, trim_spec,
};

verus! {

/// A label on a note. Its name is in normal form: trimmed, lower-cased, with
/// spaces turned into hyphens.
#[derive(Debug, PartialEq, Eq)]
pub struct Tag {
    pub name: String,
}

impl Tag {
    /// The normal form of a raw tag name: trimmed, then lower-cased, then with
    /// every space replaced by a hyphen.
    pub open spec fn normal_name(raw: Seq<char>) -> Seq<char> {
        hyphenate_spec(lowercase(trim_spec(raw)))
    }

    /// The normal form of an all-ASCII raw tag name: trimmed, then with ASCII
    /// capital letters made small, then with spaces replaced by hyphens.
    pub open spec fn ascii_normal_name(raw: Seq<char>) -> Seq<char> {
        hyphenate_spec(ascii_lower_text(trim_spec(raw)))
    }

    /// Builds a tag from a raw name, putting the name in normal form.
    pub fn new(raw_name: &str) -> (t: Tag)
        ensures
            t.name@ == Tag::normal_name(raw_name@),
            !t.name@.contains(' '),
            is_ascii_text(raw_name@) ==> t.name@ == Tag::ascii_normal_name(raw_name@),
    {
        let trimmed = trim(raw_name);
        proof {
            if is_ascii_text(raw_name@) {
                lemma_trim_keeps_ascii(raw_name@);
            }
        }
        let lower = to_lowercase(trimmed.as_str());
        let name = hyphenate(lower.as_str());
        proof {
            assert forall|i: int| 0 <= i < name@.len() implies name@[i] != ' ' by {}
        }
        Tag { name }
    }
}

/// Whitespace around a raw tag name never changes the tag.
pub proof fn lemma_tag_ignores_surrounding_whitespace(pre: Seq<char>, raw: Seq<char>, post: Seq<char>)
    requires
        all_white_space(pre),
        all_white_space(post),
    ensures
        Tag::normal_name(pre + raw + post) == Tag::normal_name(raw),
{
    lemma_trim_ignores_surrounding_whitespace(pre, raw, post);
}

proof fn lemma_ascii_lower_char(c: char)
    requires
        (c as u32) < 128,
    ensures
        (ascii_lower(c) as u32) < 128,
        !is_ascii_upper(ascii_lower(c)),
        is_white_space(ascii_lower(c)) == is_white_space(c),
        ascii_lower(c) != ' ' ==> c != ' ',
        ascii_lower(ascii_lower(c)) == ascii_lower(c),
{
}

proof fn lemma_ascii_upper_char(c: char)
    requires
        (c as u32) < 128,
    ensures
        (ascii_upper(c) as u32) < 128,
        is_white_space(ascii_upper(c)) == is_white_space(c),
        ascii_lower(ascii_upper(c)) == ascii_lower(c),
{
}

/// An all-ASCII tag name in normal form is ASCII again, and is its own
/// normal form: building a tag from the name of a tag gives the same tag.
pub proof fn lemma_tag_normal_form_is_fixed(raw: Seq<char>)
    requires
        is_ascii_text(raw),
    ensures
        is_ascii_text(Tag::ascii_normal_name(raw)),
        Tag::ascii_normal_name(Tag::ascii_normal_name(raw)) == Tag::ascii_normal_name(raw),
{
    let t = trim_spec(raw);
    lemma_trim_keeps_ascii(raw);
    lemma_trimmed_ends(raw);
    let l = ascii_lower_text(t);
    let n = hyphenate_spec(l);
    assert forall|i: int| 0 <= i < t.len() implies {
        &&& (#[trigger] l[i] as u32) < 128
        &&& !is_ascii_upper(l[i])
        &&& is_white_space(l[i]) == is_white_space(t[i])
        &&& ascii_lower(l[i]) == l[i]
    } by {
        assert((t[i] as u32) < 128);
        lemma_ascii_lower_char(t[i]);
    }
    assert(is_ascii_text(n)) by {
        assert forall|i: int| 0 <= i < n.len() implies (#[trigger] n[i] as u32) < 128 by {
            assert((l[i] as u32) < 128);
        }
    }
    if n.len() > 0 {
        assert(!is_white_space(n[0])) by {
            assert(!is_white_space(l[0]));
        }
        assert(!is_white_space(n.last())) by {
            assert(n.last() == n[n.len() - 1]);
            assert(!is_white_space(l[l.len() - 1]));
        }
    }
    lemma_trim_keeps_trimmed(n);
    assert(ascii_lower_text(n) =~= n) by {
        assert forall|i: int| 0 <= i < n.len() implies #[trigger] ascii_lower_text(n)[i] == n[i] by {
            assert(!is_ascii_upper(l[i]));
        }
    }
    assert(hyphenate_spec(n) =~= n);
}

/// ASCII letter case never changes an all-ASCII tag: the name in capitals
/// gives the same tag.
pub proof fn lemma_tag_ignores_ascii_case(raw: Seq<char>)
    requires
        is_ascii_text(raw),
    ensures
        is_ascii_text(ascii_upper_text(raw)),
        Tag::ascii_normal_name(ascii_upper_text(raw)) == Tag::ascii_normal_name(raw),
{
    let u = ascii_upper_text(raw);
    let f = |c: char| ascii_upper(c);
    assert forall|i: int| 0 <= i < raw.len() implies {
        &&& is_white_space(f(#[trigger] raw[i])) == is_white_space(raw[i])
        &&& (u[i] as u32) < 128
    } by {
        assert((raw[i] as u32) < 128);
        lemma_ascii_upper_char(raw[i]);
    }
    lemma_trim_map(raw, f);
    assert(u =~= raw.map_values(f));
    let t = trim_spec(raw);
    lemma_trim_keeps_ascii(raw);
    assert(ascii_lower_text(trim_spec(u)) =~= ascii_lower_text(t)) by {
        assert(trim_spec(u) == t.map_values(f));
        assert forall|i: int| 0 <= i < t.len() implies #[trigger] ascii_lower_text(trim_spec(u))[i]
            == ascii_lower_text(t)[i] by {
            assert((t[i] as u32) < 128);
            lemma_ascii_upper_char(t[i]);
        }
    }
}

impl Clone for Tag {
    fn clone(&self) -> (r: Self)
        ensures
            r == *self,
    {
        Tag { name: self.name.clone() }
    }
}

/// The pieces of `s` between commas, in order: one more piece than there are
/// commas, as `str::split(',')` cuts it.
pub open spec fn comma_pieces(s: Seq<char>) -> Seq<Seq<char>>
    decreases s.len(),
{
    if s.len() == 0 {
        seq![Seq::<char>::empty()]
    } else {
        let prev = comma_pieces(s.drop_last());
        if s.last() == ',' {
            prev.push(Seq::<char>::empty())
        } else {
            prev.update(prev.len() - 1, prev.last().push(s.last()))
        }
    }
}

/// The tag names typed as one comma-separated line: each piece trimmed, and
/// the pieces that are empty once trimmed left out.
pub open spec fn tag_input_spec(s: Seq<char>) -> Seq<Seq<char>> {
    comma_pieces(s).map_values(|p: Seq<char>| trim_spec(p)).filter(|t: Seq<char>| t.len() > 0)
}

proof fn lemma_comma_pieces_len(s: Seq<char>)
    ensures
        comma_pieces(s).len() >= 1,
    decreases s.len(),
{
    if s.len() > 0 {
        lemma_comma_pieces_len(s.drop_last());
    }
}

proof fn lemma_kept_pieces_push(ps: Seq<Seq<char>>, p: Seq<char>)
    ensures
        ps.push(p).map_values(|q: Seq<char>| trim_spec(q)).filter(|t: Seq<char>| t.len() > 0) == if trim_spec(
            p,
        ).len() > 0 {
            ps.map_values(|q: Seq<char>| trim_spec(q)).filter(|t: Seq<char>| t.len() > 0).push(
                trim_spec(p),
            )
        } else {
            ps.map_values(|q: Seq<char>| trim_spec(q)).filter(|t: Seq<char>| t.len() > 0)
        },
{
    let m = ps.push(p).map_values(|q: Seq<char>| trim_spec(q));
    assert(m.drop_last() =~= ps.map_values(|q: Seq<char>| trim_spec(q)));
    assert(m.last() == trim_spec(p));
    reveal_with_fuel(Seq::<_>::filter, 1);
}

proof fn lemma_comma_pieces_no_comma(s: Seq<char>)
    requires
        forall|i: int| 0 <= i < s.len() ==> s[i] != ',',
    ensures
        comma_pieces(s) == seq![s],
    decreases s.len(),
{
    if s.len() > 0 {
        lemma_comma_pieces_no_comma(s.drop_last());
        assert(s.drop_last().push(s.last()) =~= s);
        assert(seq![s.drop_last()].update(0, s.drop_last().push(s.last())) =~= seq![s]);
    } else {
        assert(s =~= Seq::<char>::empty());
    }
}

proof fn lemma_comma_pieces_join(a: Seq<char>, b: Seq<char>)
    ensures
        comma_pieces(a + seq![','] + b) == comma_pieces(a) + comma_pieces(b),
    decreases b.len(),
{
    let s = a + seq![','] + b;
    if b.len() == 0 {
        assert(s.drop_last() =~= a);
        assert(comma_pieces(b) =~= seq![Seq::<char>::empty()]);
        assert(comma_pieces(a).push(Seq::<char>::empty()) =~= comma_pieces(a) + comma_pieces(b));
    } else {
        lemma_comma_pieces_join(a, b.drop_last());
        lemma_comma_pieces_len(a);
        lemma_comma_pieces_len(b.drop_last());
        assert(s.drop_last() =~= a + seq![','] + b.drop_last());
        assert(s.last() == b.last());
        let pa = comma_pieces(a);
        let pb = comma_pieces(b.drop_last());
        if b.last() == ',' {
            assert((pa + pb).push(Seq::<char>::empty()) =~= pa + pb.push(Seq::<char>::empty()));
        } else {
            assert((pa + pb).update((pa + pb).len() - 1, (pa + pb).last().push(b.last())) =~= pa
                + pb.update(pb.len() - 1, pb.last().push(b.last())));
        }
    }
}

/// A tag line without commas gives at most one tag name: the whole line,
/// trimmed, unless nothing is left once it is trimmed. Spaces and other
/// characters inside the line never cut it.
pub proof fn lemma_tag_line_without_comma(s: Seq<char>)
    requires
        forall|i: int| 0 <= i < s.len() ==> s[i] != ',',
    ensures
        tag_input_spec(s) == if trim_spec(s).len() > 0 {
            seq![trim_spec(s)]
        } else {
            Seq::<Seq<char>>::empty()
        },
{
    lemma_comma_pieces_no_comma(s);
    let m = seq![s].map_values(|p: Seq<char>| trim_spec(p));
    assert(m =~= seq![trim_spec(s)]);
    assert(m.drop_last() =~= Seq::<Seq<char>>::empty());
    reveal_with_fuel(Seq::<_>::filter, 2);
    if trim_spec(s).len() > 0 {
        assert(m.filter(|t: Seq<char>| t.len() > 0) =~= seq![trim_spec(s)]);
    } else {
        assert(m.filter(|t: Seq<char>| t.len() > 0) =~= Seq::<Seq<char>>::empty());
    }
}

/// Two tag lines joined by a comma give the names of the first line followed
/// by the names of the second: a line is cut at its commas and nowhere else.
pub proof fn lemma_tag_line_join(a: Seq<char>, b: Seq<char>)
    ensures
        tag_input_spec(a + seq![','] + b) == tag_input_spec(a) + tag_input_spec(b),
{
    lemma_comma_pieces_join(a, b);
    let pa = comma_pieces(a);
    let pb = comma_pieces(b);
    let f = |p: Seq<char>| trim_spec(p);
    assert((pa + pb).map_values(f) =~= pa.map_values(f) + pb.map_values(f));
    Seq::filter_distributes_over_add(
        pa.map_values(f),
        pb.map_values(f),
        |t: Seq<char>| t.len() > 0,
    );
}

/// Splits a line of comma-separated tag names: each piece trimmed, the empty
/// ones left out, the rest in order.
pub fn split_tag_input(input: &str) -> (r: Vec<String>)
    ensures
        r@.map_values(|t: String| t@) == tag_input_spec(input@),
{
    let cs = chars_of(input);
    let n = cs.len();
    let mut r: Vec<String> = Vec::new();
    let mut start: usize = 0;
    let mut i: usize = 0;
    proof {
        assert(cs@.take(0) =~= Seq::<char>::empty());
        assert(comma_pieces(cs@.take(0)).drop_last() =~= Seq::<Seq<char>>::empty());
        reveal_with_fuel(Seq::<_>::filter, 1);
    }
    while i < n
        invariant
            n == cs@.len(),
            cs@ == input@,
            start <= i <= n,
            comma_pieces(cs@.take(i as int)).len() >= 1,
            comma_pieces(cs@.take(i as int)).last() == cs@.subrange(start as int, i as int),
            r@.map_values(|t: String| t@) == comma_pieces(cs@.take(i as int)).drop_last().map_values(
                |q: Seq<char>| trim_spec(q),
            ).filter(|t: Seq<char>| t.len() > 0),
        decreases n - i,
    {
        let ghost prev = comma_pieces(cs@.take(i as int));
        proof {
            assert(cs@.take(i + 1).drop_last() =~= cs@.take(i as int));
            assert(cs@.take(i + 1).last() == cs@[i as int]);
        }
        if cs[i] == ',' {
            let piece = string_from_range(&cs, start, i);
            let trimmed = trim(piece.as_str());
            let ghost before = r@;
            if !trimmed.as_str().is_empty() {
                r.push(trimmed);
                assert(r@.map_values(|t: String| t@) =~= before.map_values(|t: String| t@).push(
                    trimmed@,
                ));
            }
            proof {
                lemma_kept_pieces_push(prev.drop_last(), prev.last());
                assert(prev.drop_last().push(prev.last()) =~= prev);
                assert(comma_pieces(cs@.take(i + 1)).drop_last() =~= prev);
                assert(cs@.subrange(i + 1, i + 1) =~= Seq::<char>::empty());
            }
            start = i + 1;
        } else {
            proof {
                assert(comma_pieces(cs@.take(i + 1)).drop_last() =~= prev.drop_last());
                assert(cs@.subrange(start as int, i + 1) =~= cs@.subrange(start as int, i as int).push(
                    cs@[i as int],
                ));
            }
        }
        i = i + 1;
    }
    let piece = string_from_range(&cs, start, n);
    let trimmed = trim(piece.as_str());
    let ghost before = r@;
    let ghost all = comma_pieces(cs@.take(n as int));
    if !trimmed.as_str().is_empty() {
        r.push(trimmed);
        assert(r@.map_values(|t: String| t@) =~= before.map_values(|t: String| t@).push(trimmed@));
    }
    proof {
        assert(cs@.take(n as int) =~= cs@);
        lemma_kept_pieces_push(all.drop_last(), all.last());
        assert(all.drop_last().push(all.last()) =~= all);
    }
    r
}

} // verus!
