//! Text rules shared by the domain: whitespace trimming, lower-casing,
//! substring search and the space-to-hyphen rewrite used for tags.
use vstd::prelude::*;

verus! {

/// The Unicode `White_Space` property, which `char::is_whitespace`, `str::trim`
/// and `str::trim_start` go by: tab, line feed, vertical tab, form feed,
/// carriage return, space, next line, no-break space, Ogham space mark, the
/// spaces from en quad to hair space, line and paragraph separators, narrow
/// no-break space, medium mathematical space and ideographic space.
pub open spec fn is_white_space(c: char) -> bool {
    let v = c as u32;
    ||| 0x09 <= v <= 0x0D
    ||| v == 0x20
    ||| v == 0x85
    ||| v == 0xA0
    ||| v == 0x1680
    ||| 0x2000 <= v <= 0x200A
    ||| v == 0x2028
    ||| v == 0x2029
    ||| v == 0x202F
    ||| v == 0x205F
    ||| v == 0x3000
}

/// What `str::to_lowercase` returns for a string.
pub uninterp spec fn lowercase(s: Seq<char>) -> Seq<char>;

/// Whether a character has the Unicode `White_Space` property.
pub fn char_is_whitespace(c: char) -> (r: bool)
    ensures
        r == is_white_space(c),
{
    let v = c as u32;
    (0x09 <= v && v <= 0x0D) || v == 0x20 || v == 0x85 || v == 0xA0 || v == 0x1680 || (0x2000
        <= v && v <= 0x200A) || v == 0x2028 || v == 0x2029 || v == 0x202F || v == 0x205F || v
        == 0x3000
}

/// Every character of `s` is ASCII.
pub open spec fn is_ascii_text(s: Seq<char>) -> bool {
    forall|i: int| 0 <= i < s.len() ==> (#[trigger] s[i] as u32) < 128
}

/// An ASCII capital letter.
pub open spec fn is_ascii_upper(c: char) -> bool {
    65 <= (c as u32) <= 90
}

/// An ASCII small letter.
pub open spec fn is_ascii_lower(c: char) -> bool {
    97 <= (c as u32) <= 122
}

/// The character with an ASCII capital letter turned into its small letter;
/// any other character unchanged.
pub open spec fn ascii_lower(c: char) -> char {
    if is_ascii_upper(c) {
        ((c as u32) + 32) as char
    } else {
        c
    }
}

/// The character with an ASCII small letter turned into its capital letter;
/// any other character unchanged.
pub open spec fn ascii_upper(c: char) -> char {
    if is_ascii_lower(c) {
        ((c as u32) - 32) as char
    } else {
        c
    }
}

/// `s` with every ASCII capital letter turned into its small letter.
pub open spec fn ascii_lower_text(s: Seq<char>) -> Seq<char> {
    s.map_values(|c: char| ascii_lower(c))
}

/// `s` with every ASCII small letter turned into its capital letter, as
/// `str::to_ascii_uppercase` gives it.
pub open spec fn ascii_upper_text(s: Seq<char>) -> Seq<char> {
    s.map_values(|c: char| ascii_upper(c))
}

/// Calls `str::to_lowercase`. The contract claims that the result is the named
/// lower-case form of `s`, which depends on `s` alone (the documentation says it
/// follows the Unicode tables, with no locale); that the empty string stays
/// empty; and that an all-ASCII string is lowered character by character, its
/// capital letters `A` to `Z` becoming `a` to `z` and every other ASCII
/// character staying as it is, which is what the Unicode lower-case mapping
/// gives for ASCII.
#[verifier::external_body]
pub(crate) fn to_lowercase(s: &str) -> (r: String)
    ensures
        r@ == lowercase(s@),
        s@.len() == 0 ==> r@.len() == 0,
        is_ascii_text(s@) ==> r@ == ascii_lower_text(s@),
{
    s.to_lowercase()
}

/// Calls `String::push`, which appends one character to the string.
#[verifier::external_body]
pub(crate) fn push_char(s: &mut String, c: char)
    ensures
        final(s)@ == old(s)@.push(c),
{
    s.push(c)
}

/// `s` without its leading whitespace.
pub open spec fn trim_start_spec(s: Seq<char>) -> Seq<char>
    decreases s.len(),
{
    if s.len() > 0 && is_white_space(s[0]) {
        trim_start_spec(s.drop_first())
    } else {
        s
    }
}

/// `s` without its trailing whitespace.
pub open spec fn trim_end_spec(s: Seq<char>) -> Seq<char>
    decreases s.len(),
{
    if s.len() > 0 && is_white_space(s.last()) {
        trim_end_spec(s.drop_last())
    } else {
        s
    }
}

/// `s` without its leading and trailing whitespace, as `str::trim` gives it.
pub open spec fn trim_spec(s: Seq<char>) -> Seq<char> {
    trim_end_spec(trim_start_spec(s))
}

/// `s` with every space replaced by a hyphen.
pub open spec fn hyphenate_spec(s: Seq<char>) -> Seq<char> {
    s.map_values(|c: char| if c == ' ' { '-' } else { c })
}

/// `needle` occurs in `hay` starting at position `k`.
pub open spec fn occurs_at(hay: Seq<char>, needle: Seq<char>, k: int) -> bool {
    0 <= k && k + needle.len() <= hay.len() && hay.subrange(k, k + needle.len()) == needle
}

/// `needle` occurs somewhere in `hay`, as `str::contains` reports it.
pub open spec fn contains_spec(hay: Seq<char>, needle: Seq<char>) -> bool {
    exists|k: int| occurs_at(hay, needle, k)
}

/// `needle` occurs in `hay` once both are lower-cased: the case-insensitive
/// match that the searches use.
pub open spec fn contains_ignoring_case(hay: Seq<char>, needle: Seq<char>) -> bool {
    contains_spec(lowercase(hay), lowercase(needle))
}

proof fn lemma_trim_start_at(s: Seq<char>, i: int)
    requires
        0 <= i <= s.len(),
        forall|k: int| 0 <= k < i ==> is_white_space(#[trigger] s[k]),
        i == s.len() || !is_white_space(s[i]),
    ensures
        trim_start_spec(s) == s.skip(i),
    decreases i,
{
    if i == 0 {
        assert(s.skip(0) =~= s);
    } else {
        let t = s.drop_first();
        assert forall|k: int| 0 <= k < i - 1 implies is_white_space(#[trigger] t[k]) by {
            assert(t[k] == s[k + 1]);
        }
        lemma_trim_start_at(t, i - 1);
        assert(t.skip(i - 1) =~= s.skip(i));
    }
}

proof fn lemma_trim_end_at(s: Seq<char>, j: int)
    requires
        0 <= j <= s.len(),
        forall|k: int| j <= k < s.len() ==> is_white_space(#[trigger] s[k]),
        j == 0 || !is_white_space(s[j - 1]),
    ensures
        trim_end_spec(s) == s.take(j),
    decreases s.len() - j,
{
    if j == s.len() {
        assert(s.take(j) =~= s);
    } else {
        let t = s.drop_last();
        assert forall|k: int| j <= k < t.len() implies is_white_space(#[trigger] t[k]) by {
            assert(t[k] == s[k]);
        }
        lemma_trim_end_at(t, j);
        assert(t.take(j) =~= s.take(j));
    }
}

proof fn lemma_trim_start_no_leading_ws(s: Seq<char>)
    ensures
        trim_start_spec(s).len() == 0 || !is_white_space(trim_start_spec(s)[0]),
    decreases s.len(),
{
    if s.len() > 0 && is_white_space(s[0]) {
        lemma_trim_start_no_leading_ws(s.drop_first());
    }
}

proof fn lemma_trim_end_is_prefix(s: Seq<char>)
    ensures
        trim_end_spec(s).len() <= s.len(),
        trim_end_spec(s) == s.take(trim_end_spec(s).len() as int),
    decreases s.len(),
{
    if s.len() > 0 && is_white_space(s.last()) {
        lemma_trim_end_is_prefix(s.drop_last());
        let r = trim_end_spec(s.drop_last());
        assert(s.drop_last().take(r.len() as int) =~= s.take(r.len() as int));
    } else {
        assert(s.take(s.len() as int) =~= s);
    }
}

/// Trimmed text has no leading whitespace left: trimming its start changes nothing.
pub proof fn lemma_trimmed_has_no_leading_whitespace(s: Seq<char>)
    ensures
        trim_start_spec(trim_spec(s)) == trim_spec(s),
{
    let r = trim_start_spec(s);
    let t = trim_spec(s);
    lemma_trim_start_no_leading_ws(s);
    lemma_trim_end_is_prefix(r);
    if t.len() > 0 {
        assert(t[0] == r[0]);
    }
}

/// All characters of `s` are whitespace.
pub open spec fn all_white_space(s: Seq<char>) -> bool {
    forall|i: int| 0 <= i < s.len() ==> is_white_space(#[trigger] s[i])
}

proof fn lemma_trim_start_skips_whitespace_prefix(pre: Seq<char>, x: Seq<char>)
    requires
        all_white_space(pre),
    ensures
        trim_start_spec(pre + x) == trim_start_spec(x),
    decreases pre.len(),
{
    if pre.len() > 0 {
        assert((pre + x)[0] == pre[0]);
        assert((pre + x).drop_first() =~= pre.drop_first() + x);
        assert(all_white_space(pre.drop_first())) by {
            assert forall|i: int| 0 <= i < pre.drop_first().len() implies is_white_space(
                #[trigger] pre.drop_first()[i],
            ) by {
                assert(pre.drop_first()[i] == pre[i + 1]);
            }
        }
        lemma_trim_start_skips_whitespace_prefix(pre.drop_first(), x);
    } else {
        assert(pre + x =~= x);
    }
}

proof fn lemma_trim_end_skips_whitespace_suffix(y: Seq<char>, post: Seq<char>)
    requires
        all_white_space(post),
    ensures
        trim_end_spec(y + post) == trim_end_spec(y),
    decreases post.len(),
{
    if post.len() > 0 {
        assert((y + post).last() == post.last());
        assert((y + post).drop_last() =~= y + post.drop_last());
        assert(all_white_space(post.drop_last())) by {
            assert forall|i: int| 0 <= i < post.drop_last().len() implies is_white_space(
                #[trigger] post.drop_last()[i],
            ) by {
                assert(post.drop_last()[i] == post[i]);
            }
        }
        lemma_trim_end_skips_whitespace_suffix(y, post.drop_last());
    } else {
        assert(y + post =~= y);
    }
}

proof fn lemma_trim_start_empty_all_whitespace(s: Seq<char>)
    requires
        trim_start_spec(s).len() == 0,
    ensures
        all_white_space(s),
    decreases s.len(),
{
    if s.len() > 0 {
        lemma_trim_start_empty_all_whitespace(s.drop_first());
        assert forall|i: int| 0 <= i < s.len() implies is_white_space(#[trigger] s[i]) by {
            if i > 0 {
                assert(s[i] == s.drop_first()[i - 1]);
            }
        }
    }
}

proof fn lemma_trim_start_append(s: Seq<char>, post: Seq<char>)
    requires
        trim_start_spec(s).len() > 0,
    ensures
        trim_start_spec(s + post) == trim_start_spec(s) + post,
    decreases s.len(),
{
    assert((s + post)[0] == s[0]);
    if is_white_space(s[0]) {
        assert((s + post).drop_first() =~= s.drop_first() + post);
        lemma_trim_start_append(s.drop_first(), post);
    }
}

/// Whitespace around a text does not change what trimming leaves.
pub proof fn lemma_trim_ignores_surrounding_whitespace(pre: Seq<char>, s: Seq<char>, post: Seq<char>)
    requires
        all_white_space(pre),
        all_white_space(post),
    ensures
        trim_spec(pre + s + post) == trim_spec(s),
{
    assert(pre + s + post =~= pre + (s + post));
    lemma_trim_start_skips_whitespace_prefix(pre, s + post);
    if trim_start_spec(s).len() > 0 {
        lemma_trim_start_append(s, post);
        lemma_trim_end_skips_whitespace_suffix(trim_start_spec(s), post);
    } else {
        lemma_trim_start_empty_all_whitespace(s);
        lemma_trim_start_skips_whitespace_prefix(s, post);
        lemma_trim_start_skips_whitespace_prefix(post, Seq::<char>::empty());
        assert(post + Seq::<char>::empty() =~= post);
        assert(trim_start_spec(Seq::<char>::empty()) =~= Seq::<char>::empty());
    }
}

/// Trimming the start commutes with a character map that keeps whitespace
/// whitespace and everything else not.
proof fn lemma_trim_start_map(s: Seq<char>, f: spec_fn(char) -> char)
    requires
        forall|i: int| 0 <= i < s.len() ==> is_white_space(f(#[trigger] s[i])) == is_white_space(s[i]),
    ensures
        trim_start_spec(s.map_values(f)) == trim_start_spec(s).map_values(f),
    decreases s.len(),
{
    let m = s.map_values(f);
    if s.len() > 0 {
        assert(m[0] == f(s[0]));
        if is_white_space(s[0]) {
            assert(m.drop_first() =~= s.drop_first().map_values(f));
            assert forall|i: int| 0 <= i < s.drop_first().len() implies is_white_space(
                f(#[trigger] s.drop_first()[i]),
            ) == is_white_space(s.drop_first()[i]) by {
                assert(s.drop_first()[i] == s[i + 1]);
            }
            lemma_trim_start_map(s.drop_first(), f);
        }
    } else {
        assert(m =~= s.map_values(f));
    }
}

proof fn lemma_trim_end_map(s: Seq<char>, f: spec_fn(char) -> char)
    requires
        forall|i: int| 0 <= i < s.len() ==> is_white_space(f(#[trigger] s[i])) == is_white_space(s[i]),
    ensures
        trim_end_spec(s.map_values(f)) == trim_end_spec(s).map_values(f),
    decreases s.len(),
{
    let m = s.map_values(f);
    if s.len() > 0 {
        assert(m.last() == f(s.last()));
        if is_white_space(s.last()) {
            assert(m.drop_last() =~= s.drop_last().map_values(f));
            assert forall|i: int| 0 <= i < s.drop_last().len() implies is_white_space(
                f(#[trigger] s.drop_last()[i]),
            ) == is_white_space(s.drop_last()[i]) by {
                assert(s.drop_last()[i] == s[i]);
            }
            lemma_trim_end_map(s.drop_last(), f);
        }
    }
}

/// Trimming commutes with a character map that keeps whitespace whitespace
/// and everything else not.
pub proof fn lemma_trim_map(s: Seq<char>, f: spec_fn(char) -> char)
    requires
        forall|i: int| 0 <= i < s.len() ==> is_white_space(f(#[trigger] s[i])) == is_white_space(s[i]),
    ensures
        trim_spec(s.map_values(f)) == trim_spec(s).map_values(f),
{
    lemma_trim_start_map(s, f);
    let t = trim_start_spec(s);
    lemma_trim_start_is_suffix(s);
    assert forall|i: int| 0 <= i < t.len() implies is_white_space(f(#[trigger] t[i])) == is_white_space(
        t[i],
    ) by {
        assert(t[i] == s[i + (s.len() - t.len())]);
    }
    lemma_trim_end_map(t, f);
}

proof fn lemma_trim_start_is_suffix(s: Seq<char>)
    ensures
        trim_start_spec(s).len() <= s.len(),
        trim_start_spec(s) == s.skip(s.len() - trim_start_spec(s).len()),
    decreases s.len(),
{
    if s.len() > 0 && is_white_space(s[0]) {
        lemma_trim_start_is_suffix(s.drop_first());
        let r = trim_start_spec(s.drop_first());
        assert(s.drop_first().skip(s.drop_first().len() - r.len()) =~= s.skip(s.len() - r.len()));
    } else {
        assert(s.skip(0) =~= s);
    }
}

/// Making the capital letters small gives the same text whether or not the
/// small letters were first made capital.
pub proof fn lemma_ascii_lower_ignores_case(s: Seq<char>)
    requires
        is_ascii_text(s),
    ensures
        is_ascii_text(ascii_upper_text(s)),
        ascii_lower_text(ascii_upper_text(s)) == ascii_lower_text(s),
{
    let u = ascii_upper_text(s);
    assert forall|i: int| 0 <= i < s.len() implies (#[trigger] u[i] as u32) < 128
        && ascii_lower_text(u)[i] == ascii_lower_text(s)[i] by {
        assert((s[i] as u32) < 128);
    }
    assert(ascii_lower_text(u) =~= ascii_lower_text(s));
}

/// Trimming ASCII text leaves ASCII text.
pub proof fn lemma_trim_keeps_ascii(s: Seq<char>)
    requires
        is_ascii_text(s),
    ensures
        is_ascii_text(trim_spec(s)),
{
    let r = trim_start_spec(s);
    lemma_trim_start_is_suffix(s);
    lemma_trim_end_is_prefix(r);
    let t = trim_spec(s);
    assert forall|i: int| 0 <= i < t.len() implies (#[trigger] t[i] as u32) < 128 by {
        assert(t[i] == r[i]);
        assert(r[i] == s[i + (s.len() - r.len())]);
    }
}

/// Text whose first and last characters are not whitespace is left as it is
/// by trimming.
pub proof fn lemma_trim_keeps_trimmed(s: Seq<char>)
    requires
        s.len() > 0 ==> !is_white_space(s[0]) && !is_white_space(s.last()),
    ensures
        trim_spec(s) == s,
{
}

/// Trimmed text starts and ends with a character that is not whitespace.
pub proof fn lemma_trimmed_ends(s: Seq<char>)
    ensures
        trim_spec(s).len() > 0 ==> !is_white_space(trim_spec(s)[0]) && !is_white_space(
            trim_spec(s).last(),
        ),
{
    let r = trim_start_spec(s);
    lemma_trim_start_no_leading_ws(s);
    lemma_trim_end_is_prefix(r);
    lemma_trim_end_no_trailing_ws(r);
    let t = trim_spec(s);
    if t.len() > 0 {
        assert(t[0] == r[0]);
    }
}

proof fn lemma_trim_end_no_trailing_ws(s: Seq<char>)
    ensures
        trim_end_spec(s).len() == 0 || !is_white_space(trim_end_spec(s).last()),
    decreases s.len(),
{
    if s.len() > 0 && is_white_space(s.last()) {
        lemma_trim_end_no_trailing_ws(s.drop_last());
    }
}

/// The characters of `s`, one by one.
pub fn chars_of(s: &str) -> (v: Vec<char>)
    ensures
        v@ == s@,
{
    let mut v: Vec<char> = Vec::new();
    for c in it: s.chars()
        invariant
            v@ == it.seq().take(it.index()),
    {
        v.push(c);
    }
    v
}

/// The string made of the characters `cs[from..to]`.
pub(crate) fn string_from_range(cs: &Vec<char>, from: usize, to: usize) -> (r: String)
    requires
        from <= to <= cs@.len(),
    ensures
        r@ == cs@.subrange(from as int, to as int),
{
    let mut r = String::new();
    let mut i = from;
    while i < to
        invariant
            from <= i <= to <= cs@.len(),
            r@ == cs@.subrange(from as int, i as int),
        decreases to - i,
    {
        push_char(&mut r, cs[i]);
        assert(cs@.subrange(from as int, i + 1) =~= cs@.subrange(from as int, i as int).push(
            cs@[i as int],
        ));
        i = i + 1;
    }
    r
}

/// Removes leading and trailing whitespace, as `str::trim` does.
pub fn trim(s: &str) -> (r: String)
    ensures
        r@ == trim_spec(s@),
{
    let cs = chars_of(s);
    let n = cs.len();
    let mut i: usize = 0;
    while i < n && char_is_whitespace(cs[i])
        invariant
            n == cs@.len(),
            i <= n,
            forall|k: int| 0 <= k < i ==> is_white_space(#[trigger] cs@[k]),
        decreases n - i,
    {
        i = i + 1;
    }
    proof {
        lemma_trim_start_at(cs@, i as int);
    }
    let ghost t = cs@.skip(i as int);
    let mut j: usize = n;
    while j > i && char_is_whitespace(cs[j - 1])
        invariant
            n == cs@.len(),
            i <= j <= n,
            forall|k: int| j <= k < n ==> is_white_space(#[trigger] cs@[k]),
        decreases j,
    {
        j = j - 1;
    }
    proof {
        assert forall|k: int| j - i <= k < t.len() implies is_white_space(#[trigger] t[k]) by {
            assert(t[k] == cs@[k + i]);
        }
        if j > i {
            assert(t[j - i - 1] == cs@[j - 1]);
        }
        lemma_trim_end_at(t, j - i);
        assert(t.take(j - i) =~= cs@.subrange(i as int, j as int));
    }
    string_from_range(&cs, i, j)
}

/// Removes leading whitespace, as `str::trim_start` does.
pub fn trim_start(s: &str) -> (r: String)
    ensures
        r@ == trim_start_spec(s@),
{
    let cs = chars_of(s);
    let n = cs.len();
    let mut i: usize = 0;
    while i < n && char_is_whitespace(cs[i])
        invariant
            n == cs@.len(),
            i <= n,
            forall|k: int| 0 <= k < i ==> is_white_space(#[trigger] cs@[k]),
        decreases n - i,
    {
        i = i + 1;
    }
    proof {
        lemma_trim_start_at(cs@, i as int);
        assert(cs@.skip(i as int) =~= cs@.subrange(i as int, n as int));
    }
    string_from_range(&cs, i, n)
}

/// Replaces every space with a hyphen, as `str::replace(" ", "-")` does.
pub fn hyphenate(s: &str) -> (r: String)
    ensures
        r@ == hyphenate_spec(s@),
{
    let cs = chars_of(s);
    let mut r = String::new();
    let mut i: usize = 0;
    while i < cs.len()
        invariant
            i <= cs@.len(),
            r@ == hyphenate_spec(cs@.take(i as int)),
        decreases cs@.len() - i,
    {
        let c = cs[i];
        if c == ' ' {
            push_char(&mut r, '-');
        } else {
            push_char(&mut r, c);
        }
        assert(hyphenate_spec(cs@.take(i + 1)) =~= hyphenate_spec(cs@.take(i as int)).push(
            if c == ' ' { '-' } else { c },
        ));
        i = i + 1;
    }
    assert(cs@.take(cs@.len() as int) =~= cs@);
    r
}

/// Whether `needle` occurs in `hay` at position `k`, character by character.
fn matches_at(hay: &Vec<char>, needle: &Vec<char>, k: usize) -> (b: bool)
    requires
        k + needle@.len() <= hay@.len(),
    ensures
        b == occurs_at(hay@, needle@, k as int),
{
    let hay_len = hay.len();
    let mut i: usize = 0;
    while i < needle.len()
        invariant
            k + needle@.len() <= hay@.len(),
            hay_len == hay@.len(),
            i <= needle@.len(),
            forall|m: int| 0 <= m < i ==> hay@[k + m] == needle@[m],
        decreases needle@.len() - i,
    {
        if hay[k + i] != needle[i] {
            assert(hay@.subrange(k as int, k + needle@.len())[i as int] != needle@[i as int]);
            return false;
        }
        i = i + 1;
    }
    assert(hay@.subrange(k as int, k + needle@.len()) =~= needle@);
    true
}

/// Whether `needle` occurs in `hay`, as `str::contains` reports it.
pub fn contains(hay: &str, needle: &str) -> (b: bool)
    ensures
        b == contains_spec(hay@, needle@),
{
    let h = chars_of(hay);
    let n = chars_of(needle);
    if n.len() > h.len() {
        return false;
    }
    let last = h.len() - n.len();
    let mut k: usize = 0;
    while k < last
        invariant
            k <= last,
            last + n@.len() == h@.len(),
            h@ == hay@,
            n@ == needle@,
            forall|m: int| 0 <= m < k ==> !occurs_at(h@, n@, m),
        decreases last - k,
    {
        if matches_at(&h, &n, k) {
            return true;
        }
        k = k + 1;
    }
    matches_at(&h, &n, last)
}

/// Whether `needle` occurs in `hay` once both are lower-cased.
pub fn contains_case_insensitive(hay: &str, needle: &str) -> (b: bool)
    ensures
        b == contains_ignoring_case(hay@, needle@),
{
    let h = to_lowercase(hay);
    let n = to_lowercase(needle);
    contains(h.as_str(), n.as_str())
}

/// Whether two strings hold the same characters.
pub fn same_text(a: &str, b: &str) -> (r: bool)
    ensures
        r == (a@ == b@),
{
    let x = String::from_str(a);
    let y = String::from_str(b);
    x == y
}

} // verus!
