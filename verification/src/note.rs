//! Notes: titled Markdown content in a context, with tags.
use vstd::prelude::*;

use crate::system::{is_clock_reading, is_uuid_v4_text, new_uuid_v4_text, utc_now, Timestamp};
use crate::tag::Tag;
use crate::text::{trim, trim_spec};

verus! {

/// A note: title and Markdown content, the context it belongs to, its tags,
/// and when it was created and last changed.
#[derive(Debug, PartialEq, Eq)]
pub struct Note {
    pub id: String,
    pub context_id: String,
    pub title: String,
    pub content: String,
    pub tags: Vec<Tag>,
    pub created_at: Timestamp,
    pub updated_at: Timestamp,
}

/// `tags` are the tags built from `raw`, one for one and in order.
pub open spec fn tags_built_from(tags: Seq<Tag>, raw: Seq<String>) -> bool {
    &&& tags.len() == raw.len()
    &&& forall|i: int| 0 <= i < raw.len() ==> #[trigger] tags[i].name@ == Tag::normal_name(raw[i]@)
}

/// Builds a tag from each raw name, in order.
pub fn tags_from_names(raw_tags: &Vec<String>) -> (tags: Vec<Tag>)
    ensures
        tags_built_from(tags@, raw_tags@),
{
    let mut tags: Vec<Tag> = Vec::new();
    let mut i: usize = 0;
    while i < raw_tags.len()
        invariant
            i <= raw_tags@.len(),
            tags@.len() == i,
            forall|k: int| 0 <= k < i ==> #[trigger] tags@[k].name@ == Tag::normal_name(raw_tags@[k]@),
        decreases raw_tags@.len() - i,
    {
        let tag = Tag::new(raw_tags[i].as_str());
        tags.push(tag);
        i = i + 1;
    }
    tags
}

/// A copy of a list of tags, tag by tag.
fn clone_tags(tags: &Vec<Tag>) -> (r: Vec<Tag>)
    ensures
        r@ == tags@,
{
    let mut r: Vec<Tag> = Vec::new();
    let mut i: usize = 0;
    while i < tags.len()
        invariant
            i <= tags@.len(),
            r@ == tags@.take(i as int),
        decreases tags@.len() - i,
    {
        r.push(tags[i].clone());
        assert(tags@.take(i + 1) =~= tags@.take(i as int).push(tags@[i as int]));
        i = i + 1;
    }
    assert(tags@.take(tags@.len() as int) =~= tags@);
    r
}

impl Note {
    /// `self` and `other` hold the same note: equal fields, and the same tags in order.
    pub open spec fn same_as(self, other: Note) -> bool {
        &&& self.id == other.id
        &&& self.context_id == other.context_id
        &&& self.title == other.title
        &&& self.content == other.content
        &&& self.tags@ == other.tags@
        &&& self.created_at == other.created_at
        &&& self.updated_at == other.updated_at
    }

    /// Creates a note in a context with a fresh identifier, the trimmed title
    /// and content, a tag for each raw tag name, and the current time as both
    /// its creation and its update time (read from the clock one after the other).
    pub fn new(context_id: String, title: String, content: String, raw_tags: Vec<String>) -> (n: Note)
        ensures
            is_uuid_v4_text(n.id@),
            n.context_id == context_id,
            n.title@ == trim_spec(title@),
            n.content@ == trim_spec(content@),
            tags_built_from(n.tags@, raw_tags@),
            is_clock_reading(n.created_at),
            is_clock_reading(n.updated_at),
    {
        let tags = tags_from_names(&raw_tags);
        let id = new_uuid_v4_text();
        let title = trim(title.as_str());
        let content = trim(content.as_str());
        let created_at = utc_now();
        let updated_at = utc_now();
        Note { id, context_id, title, content, tags, created_at, updated_at }
    }

    /// Replaces the content with the trimmed new content and stamps the update time.
    pub fn update_content(&mut self, new_content: &str)
        ensures
            final(self).content@ == trim_spec(new_content@),
            is_clock_reading(final(self).updated_at),
            *final(self) == (Note {
                content: final(self).content,
                updated_at: final(self).updated_at,
                ..*old(self)
            }),
    {
        self.content = trim(new_content);
        self.updated_at = utc_now();
    }

    /// Replaces the title with the trimmed new title and stamps the update time.
    pub fn update_title(&mut self, new_title: &str)
        ensures
            final(self).title@ == trim_spec(new_title@),
            is_clock_reading(final(self).updated_at),
            *final(self) == (Note {
                title: final(self).title,
                updated_at: final(self).updated_at,
                ..*old(self)
            }),
    {
        self.title = trim(new_title);
        self.updated_at = utc_now();
    }

    /// Replaces the tags and stamps the update time.
    pub fn update_tags(&mut self, tags: Vec<Tag>)
        ensures
            final(self).tags == tags,
            is_clock_reading(final(self).updated_at),
            *final(self) == (Note {
                tags: final(self).tags,
                updated_at: final(self).updated_at,
                ..*old(self)
            }),
    {
        self.tags = tags;
        self.updated_at = utc_now();
    }
}

impl Clone for Note {
    /// A copy of the note. Verus sees a `Vec` only through its view, so the
    /// copy is stated field by field, the tags as the same sequence.
    fn clone(&self) -> (r: Self)
        ensures
            r.same_as(*self),
    {
        Note {
            id: self.id.clone(),
            context_id: self.context_id.clone(),
            title: self.title.clone(),
            content: self.content.clone(),
            tags: clone_tags(&self.tags),
            created_at: self.created_at,
            updated_at: self.updated_at,
        }
    }
}

} // verus!
