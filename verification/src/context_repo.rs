//! The context repository: where contexts are kept, and the rules by which a
//! stored list of contexts is updated and queried.
use vstd::prelude::*;

use crate::context::Context;
use crate::search::{first_match, lemma_first_match, lemma_first_match_is, lemma_first_match_none};
use crate::system::{clone_path, is_plain_file_name, join_path, path_components};
use crate::text::{
    ascii_lower_text, ascii_upper_text, contains_case_insensitive, contains_ignoring_case, is_ascii_text, lemma_ascii_lower_ignores_case, lowercase,
    same_text, to_lowercase,
};
use std::path::PathBuf;

verus! {

/// The contexts are kept, as one list, in the file `contexts.json` under a
/// base directory.
pub struct FileContextRepository {
    base_path: PathBuf,
}

impl FileContextRepository {
    /// The base directory under which the contexts file lies.
    pub closed spec fn base_path(&self) -> PathBuf {
        self.base_path
    }

    /// A repository whose list of contexts is the file `contexts.json` under `base_path`.
    pub fn new(base_path: &PathBuf) -> (r: Self)
        ensures
            r.base_path() == *base_path,
    {
        FileContextRepository { base_path: clone_path(base_path) }
    }

    /// The file that holds the list of contexts: `contexts.json` joined to the base directory.
    pub fn storage_path(&self) -> (r: PathBuf)
        ensures
            path_components(r) == path_components(self.base_path()).push("contexts.json"@),
    {
        proof {
            reveal_strlit("contexts.json");
            let name = "contexts.json"@;
            assert(name.len() == 13);
            assert(forall|i: int| 0 <= i < name.len() ==> #[trigger] name[i] != '/' && name[i] != '\\' && name[i] != ':');
            assert(name != seq!['.']);
            assert(name != seq!['.', '.']);
            assert(is_plain_file_name(name));
        }
        join_path(&self.base_path, "contexts.json")
    }
}

/// The context has identifier `id`.
pub open spec fn has_id(id: Seq<char>) -> spec_fn(Context) -> bool {
    |c: Context| c.id@ == id
}

/// The context's name equals `name` once both are lower-cased.
pub open spec fn has_name_ignoring_case(name: Seq<char>) -> spec_fn(Context) -> bool {
    |c: Context| lowercase(c.name@) == lowercase(name)
}

/// The context's name equals `name` once ASCII capital letters are made small.
pub open spec fn has_ascii_name_ignoring_case(name: Seq<char>) -> spec_fn(Context) -> bool {
    |c: Context| ascii_lower_text(c.name@) == ascii_lower_text(name)
}

/// The name and every context name are all-ASCII.
pub open spec fn all_names_ascii(cs: Seq<Context>, name: Seq<char>) -> bool {
    is_ascii_text(name) && forall|i: int| 0 <= i < cs.len() ==> is_ascii_text(#[trigger] cs[i].name@)
}

/// The context's name contains `query` once both are lower-cased.
pub open spec fn name_contains_ignoring_case(query: Seq<char>) -> spec_fn(Context) -> bool {
    |c: Context| contains_ignoring_case(c.name@, query)
}

/// The first context that satisfies `p`, if any.
pub open spec fn first_context(cs: Seq<Context>, p: spec_fn(Context) -> bool) -> Option<Context> {
    match first_match(cs, p) {
        Some(i) => Some(cs[i]),
        None => None,
    }
}

/// The list after saving `c`: the first context with the same identifier is
/// replaced by `c`; if there is none, `c` is added at the end.
pub open spec fn saved_contexts(cs: Seq<Context>, c: Context) -> Seq<Context> {
    match first_match(cs, has_id(c.id@)) {
        Some(i) => cs.update(i, c),
        None => cs.push(c),
    }
}

/// No two contexts in the list share an identifier.
pub open spec fn ids_unique(cs: Seq<Context>) -> bool {
    forall|i: int, j: int| 0 <= i < j < cs.len() ==> #[trigger] cs[i].id@ != #[trigger] cs[j].id@
}

/// The index of the first context with identifier `id`, if any.
fn position_of_id(contexts: &Vec<Context>, id: &str) -> (r: Option<usize>)
    ensures
        match r {
            Some(i) => i < contexts@.len() && first_match(contexts@, has_id(id@)) == Some(i as int),
            None => first_match(contexts@, has_id(id@)) is None,
        },
{
    let mut i: usize = 0;
    while i < contexts.len()
        invariant
            i <= contexts@.len(),
            forall|j: int| 0 <= j < i ==> !has_id(id@)(#[trigger] contexts@[j]),
        decreases contexts@.len() - i,
    {
        if same_text(contexts[i].id.as_str(), id) {
            proof {
                lemma_first_match_is(contexts@, has_id(id@), i as int);
            }
            return Some(i);
        }
        i = i + 1;
    }
    proof {
        lemma_first_match_none(contexts@, has_id(id@));
    }
    None
}

/// Saves a context into the list: replaces the first context with the same
/// identifier, or adds it at the end when there is none.
pub fn save_context(contexts: &mut Vec<Context>, context: &Context)
    ensures
        final(contexts)@ == saved_contexts(old(contexts)@, *context),
{
    match position_of_id(contexts, context.id.as_str()) {
        Some(i) => {
            contexts.set(i, context.clone());
        },
        None => {
            contexts.push(context.clone());
        },
    }
}

/// The first context with identifier `id`, taken out of the list.
pub fn find_context_by_id(contexts: Vec<Context>, id: &str) -> (r: Option<Context>)
    ensures
        r == first_context(contexts@, has_id(id@)),
{
    let mut contexts = contexts;
    match position_of_id(&contexts, id) {
        Some(i) => Some(contexts.remove(i)),
        None => None,
    }
}

/// The first context whose name equals `name`, ignoring case, taken out of the list.
pub fn find_context_by_name(contexts: Vec<Context>, name: &str) -> (r: Option<Context>)
    ensures
        r == first_context(contexts@, has_name_ignoring_case(name@)),
        all_names_ascii(contexts@, name@) ==> r == first_context(
            contexts@,
            has_ascii_name_ignoring_case(name@),
        ),
{
    let target = to_lowercase(name);
    let ghost all = contexts@;
    let mut list = contexts;
    let mut i: usize = 0;
    while i < list.len()
        invariant
            all == contexts@,
            list@ == all,
            i <= list@.len(),
            target@ == lowercase(name@),
            forall|j: int| 0 <= j < i ==> !has_name_ignoring_case(name@)(#[trigger] list@[j]),
            all_names_ascii(all, name@) ==> target@ == ascii_lower_text(name@),
            all_names_ascii(all, name@) ==> forall|j: int|
                0 <= j < i ==> !has_ascii_name_ignoring_case(name@)(#[trigger] list@[j]),
        decreases list@.len() - i,
    {
        let lowered = to_lowercase(list[i].name.as_str());
        proof {
            if all_names_ascii(all, name@) {
                assert(is_ascii_text(list@[i as int].name@));
            }
        }
        if lowered == target {
            proof {
                lemma_first_match_is(list@, has_name_ignoring_case(name@), i as int);
                if all_names_ascii(all, name@) {
                    lemma_first_match_is(list@, has_ascii_name_ignoring_case(name@), i as int);
                }
            }
            let found = list.remove(i);
            return Some(found);
        }
        i = i + 1;
    }
    proof {
        lemma_first_match_none(list@, has_name_ignoring_case(name@));
        if all_names_ascii(all, name@) {
            lemma_first_match_none(list@, has_ascii_name_ignoring_case(name@));
        }
    }
    None
}

/// The contexts whose name contains `query`, ignoring case, in their order.
pub fn search_contexts_by_name(contexts: Vec<Context>, query: &str) -> (r: Vec<Context>)
    ensures
        r@ == contexts@.filter(name_contains_ignoring_case(query@)),
{
    let ghost all = contexts@;
    let ghost p = name_contains_ignoring_case(query@);
    let mut matches: Vec<Context> = Vec::new();
    for c in it: contexts.into_iter()
        invariant
            it.seq() == all,
            p == name_contains_ignoring_case(query@),
            matches@ == all.take(it.index()).filter(p),
    {
        let ghost k = it.index();
        let ghost before = matches@;
        let keep = contains_case_insensitive(c.name.as_str(), query);
        if keep {
            matches.push(c);
        }
        assert(matches@ == all.take(k + 1).filter(p)) by {
            assert(all.take(k + 1).drop_last() =~= all.take(k));
            assert(all.take(k + 1).last() == all[k]);
            reveal_with_fuel(Seq::<_>::filter, 1);
        }
    }
    proof {
        assert(all.take(all.len() as int) =~= all);
    }
    matches
}

/// Reading back what was saved: after saving a context, looking up its
/// identifier gives that context.
pub proof fn lemma_find_after_save(cs: Seq<Context>, c: Context)
    ensures
        first_context(saved_contexts(cs, c), has_id(c.id@)) == Some(c),
{
    let s = saved_contexts(cs, c);
    lemma_first_match(cs, has_id(c.id@));
    match first_match(cs, has_id(c.id@)) {
        Some(i) => {
            assert forall|j: int| 0 <= j < i implies !has_id(c.id@)(#[trigger] s[j]) by {
                assert(s[j] == cs[j]);
            }
            lemma_first_match_is(s, has_id(c.id@), i);
        },
        None => {
            assert forall|j: int| 0 <= j < cs.len() implies !has_id(c.id@)(#[trigger] s[j]) by {
                assert(s[j] == cs[j]);
            }
            lemma_first_match_is(s, has_id(c.id@), cs.len() as int);
        },
    }
}

/// Saving a context leaves the lookup of every other identifier as it was.
pub proof fn lemma_save_keeps_other_ids(cs: Seq<Context>, c: Context, id: Seq<char>)
    requires
        id != c.id@,
    ensures
        first_context(saved_contexts(cs, c), has_id(id)) == first_context(cs, has_id(id)),
{
    let s = saved_contexts(cs, c);
    lemma_first_match(cs, has_id(c.id@));
    lemma_first_match(cs, has_id(id));
    assert forall|j: int| 0 <= j < cs.len() implies has_id(id)(#[trigger] s[j]) == has_id(id)(
        cs[j],
    ) by {
        if first_match(cs, has_id(c.id@)) == Some(j) {
            assert(s[j] == c);
        } else {
            assert(s[j] == cs[j]);
        }
    }
    match first_match(cs, has_id(id)) {
        Some(i) => {
            assert(has_id(id)(s[i]));
            lemma_first_match_is(s, has_id(id), i);
        },
        None => {
            if first_match(cs, has_id(c.id@)) is None {
                assert(s[cs.len() as int] == c);
            }
            assert forall|j: int| 0 <= j < s.len() implies !has_id(id)(#[trigger] s[j]) by {
                if j < cs.len() {
                    assert(!has_id(id)(cs[j]));
                }
            }
            lemma_first_match_none(s, has_id(id));
        },
    }
}

/// Saving keeps identifiers unique, and saving a context whose identifier is
/// already present replaces it in place: the list keeps its length.
pub proof fn lemma_save_keeps_ids_unique(cs: Seq<Context>, c: Context)
    requires
        ids_unique(cs),
    ensures
        ids_unique(saved_contexts(cs, c)),
        (exists|i: int| 0 <= i < cs.len() && cs[i].id@ == c.id@) ==> saved_contexts(cs, c).len()
            == cs.len(),
        !(exists|i: int| 0 <= i < cs.len() && cs[i].id@ == c.id@) ==> saved_contexts(cs, c).len()
            == cs.len() + 1,
{
    let s = saved_contexts(cs, c);
    lemma_first_match(cs, has_id(c.id@));
    match first_match(cs, has_id(c.id@)) {
        Some(k) => {
            assert forall|i: int, j: int| 0 <= i < j < s.len() implies #[trigger] s[i].id@
                != #[trigger] s[j].id@ by {
                if i == k {
                    assert(cs[j].id@ != cs[k].id@);
                } else if j == k {
                    assert(cs[i].id@ != cs[k].id@);
                }
            }
        },
        None => {
            assert forall|i: int, j: int| 0 <= i < j < s.len() implies #[trigger] s[i].id@
                != #[trigger] s[j].id@ by {
                if j == cs.len() {
                    assert(!has_id(c.id@)(cs[i]));
                }
            }
            if exists|i: int| 0 <= i < cs.len() && cs[i].id@ == c.id@ {
                let i = choose|i: int| 0 <= i < cs.len() && cs[i].id@ == c.id@;
                assert(!has_id(c.id@)(cs[i]));
            }
        },
    }
}

/// Looking a context up by an all-ASCII name does not depend on the name's
/// letter case: the name in capitals finds the same context.
pub proof fn lemma_find_by_name_ignores_ascii_case(cs: Seq<Context>, name: Seq<char>)
    requires
        is_ascii_text(name),
    ensures
        is_ascii_text(ascii_upper_text(name)),
        first_context(cs, has_ascii_name_ignoring_case(ascii_upper_text(name))) == first_context(
            cs,
            has_ascii_name_ignoring_case(name),
        ),
{
    lemma_ascii_lower_ignores_case(name);
    assert(has_ascii_name_ignoring_case(ascii_upper_text(name)) =~= has_ascii_name_ignoring_case(
        name,
    ));
}

} // verus!
