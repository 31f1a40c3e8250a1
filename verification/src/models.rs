//! What the service hands out to its callers.

use crate::database::{tag_views, DbAudio, DbTag, TagView};
use vstd::prelude::*;
use vstd::std_specs::convert::FromSpecImpl;
use vstd::string::*;

verus! {

/// A user as the service shows it.
#[derive(Debug)]
pub struct User {
    pub email: String,
    pub language: String,
}

/// An audio as the service shows it: its id, its text once it has one, when it was
/// created (seconds since the epoch), and its tags.
#[derive(Debug)]
pub struct Audio {
    pub id: i32,
    pub transcription: Option<String>,
    pub created_at: i64,
    pub tags: Vec<Tag>,
}

/// A tag as the service shows it.
#[derive(Debug)]
pub struct Tag {
    pub name: String,
    pub color: Option<String>,
}

/// A shown tag as plain values.
pub struct ShownTag {
    pub name: Seq<char>,
    pub color: Option<Seq<char>>,
}

impl View for Tag {
    type V = ShownTag;

    open spec fn view(&self) -> ShownTag {
        ShownTag {
            name: self.name@,
            color: match self.color {
                Some(color) => Some(color@),
                None => None,
            },
        }
    }
}

/// What is shown of a stored tag: its name and its color.
pub open spec fn shown(tag: TagView) -> ShownTag {
    ShownTag { name: tag.name, color: tag.color }
}

impl From<DbTag> for Tag {
    fn from(db_tag: DbTag) -> (tag: Tag) {
        Tag { name: db_tag.name, color: db_tag.color }
    }
}

impl FromSpecImpl<DbTag> for Tag {
    open spec fn obeys_from_spec() -> bool {
        true
    }

    open spec fn from_spec(db_tag: DbTag) -> Tag {
        Tag { name: db_tag.name, color: db_tag.color }
    }
}

/// The views of shown tags, in order.
pub open spec fn shown_views(tags: Seq<Tag>) -> Seq<ShownTag> {
    tags.map_values(|tag: Tag| tag@)
}

/// Shows stored tags: each by its name and color, in the same order.
pub fn show_tags(tags: Vec<DbTag>) -> (shown_tags: Vec<Tag>)
    ensures
        shown_views(shown_tags@) == tag_views(tags@).map_values(|tag: TagView| shown(tag)),
{
    let mut shown_tags: Vec<Tag> = Vec::new();
    let mut i: usize = 0;
    while i < tags.len()
        invariant
            i <= tags.len(),
            shown_tags@.len() == i,
            forall|k: int| 0 <= k < i ==> (#[trigger] shown_tags@[k])@ == shown(tags@[k]@),
        decreases tags.len() - i,
    {
        let copy = tags[i].duplicate();
        shown_tags.push(Tag::from(copy));
        i = i + 1;
    }
    proof {
        assert(shown_views(shown_tags@) =~= tag_views(tags@).map_values(
            |tag: TagView| shown(tag),
        ));
    }
    shown_tags
}

/// Shows a stored audio with `tags` as its tags.
pub fn show_audio(audio: DbAudio, tags: Vec<DbTag>) -> (shown_audio: Audio)
    ensures
        shown_audio.id == audio.id,
        shown_audio.transcription == audio.transcription,
        shown_audio.created_at == audio.created_at,
        shown_views(shown_audio.tags@) == tag_views(tags@).map_values(|tag: TagView| shown(tag)),
{
    Audio {
        id: audio.id,
        transcription: audio.transcription,
        created_at: audio.created_at,
        tags: show_tags(tags),
    }
}

} // verus!
