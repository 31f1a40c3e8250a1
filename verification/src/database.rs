//! The rows of the database as the pipeline reads them, and what is computed from rows
//! alone. Times are seconds since the epoch.

use std::collections::HashMap;
use vstd::prelude::*;
use vstd::std_specs::hash::*;
use vstd::string::*;

verus! {

/// A stored audio: the blob's id, its text once it has one, and its owner.
#[derive(Debug)]
pub struct DbAudio {
    pub id: i32,
    pub transcription: Option<String>,
    pub created_at: i64,
    pub user_id: i32,
}

/// A tag of a user.
#[derive(Debug)]
pub struct DbTag {
    pub id: i32,
    pub user_id: i32,
    pub name: String,
    pub color: Option<String>,
}

/// A token for resetting a password, as stored: hashed, with the time it expires.
#[derive(Debug)]
pub struct DbToken {
    pub user_id: i32,
    pub token: String,
    pub expires_at: i64,
}

/// A user.
#[derive(Debug)]
pub struct DbUser {
    pub id: i32,
    pub email: String,
    pub language: String,
    pub password: Option<String>,
}

/// A tag as plain values.
pub struct TagView {
    pub id: int,
    pub user_id: int,
    pub name: Seq<char>,
    pub color: Option<Seq<char>>,
}

impl View for DbTag {
    type V = TagView;

    open spec fn view(&self) -> TagView {
        TagView {
            id: self.id as int,
            user_id: self.user_id as int,
            name: self.name@,
            color: match self.color {
                Some(color) => Some(color@),
                None => None,
            },
        }
    }
}

impl DbTag {
    /// A copy of the tag.
    pub fn duplicate(&self) -> (copy: DbTag)
        ensures
            copy@ == self@,
    {
        DbTag {
            id: self.id,
            user_id: self.user_id,
            name: self.name.clone(),
            color: match &self.color {
                Some(color) => Some(color.clone()),
                None => None,
            },
        }
    }
}

/// The views of tags, in order.
pub open spec fn tag_views(tags: Seq<DbTag>) -> Seq<TagView> {
    tags.map_values(|tag: DbTag| tag@)
}

/// The tags that `rows` give to the audio `audio_id`, in the order of the rows. A row
/// is a tag with the audio that carries it.
pub open spec fn tags_of_audio(rows: Seq<(DbTag, i32)>, audio_id: i32) -> Seq<TagView>
    decreases rows.len(),
{
    if rows.len() == 0 {
        Seq::empty()
    } else {
        let before = tags_of_audio(rows.drop_last(), audio_id);
        if rows.last().1 == audio_id {
            before.push(rows.last().0@)
        } else {
            before
        }
    }
}

/// Groups the rows by audio: each audio that a row names gets its tags, in the order of
/// the rows; an audio that no row names gets no entry.
pub fn get_audios_tags(rows: &Vec<(DbTag, i32)>) -> (tags: HashMap<i32, Vec<DbTag>>)
    ensures
        forall|audio_id: i32|
            tags@.contains_key(audio_id) <==> #[trigger] tags_of_audio(rows@, audio_id).len() > 0,
        forall|audio_id: i32|
            tags@.contains_key(audio_id) ==> tag_views(tags@[audio_id]@) == #[trigger] tags_of_audio(
                rows@,
                audio_id,
            ),
{
    broadcast use group_hash_axioms;

    let mut tags: HashMap<i32, Vec<DbTag>> = HashMap::new();
    let mut i: usize = 0;
    while i < rows.len()
        invariant
            i <= rows.len(),
            forall|audio_id: i32|
                tags@.contains_key(audio_id) <==> #[trigger] tags_of_audio(
                    rows@.take(i as int),
                    audio_id,
                ).len() > 0,
            forall|audio_id: i32|
                tags@.contains_key(audio_id) ==> tag_views(tags@[audio_id]@)
                    == #[trigger] tags_of_audio(rows@.take(i as int), audio_id),
        decreases rows.len() - i,
    {
        let audio_id = rows[i].1;
        let tag = rows[i].0.duplicate();
        let ghost before = tags@;
        let mut list = match tags.remove(&audio_id) {
            Some(list) => list,
            None => Vec::new(),
        };
        let ghost old_list = list@;
        list.push(tag);
        proof {
            assert(tag_views(list@) =~= tag_views(old_list).push(tag@));
        }
        tags.insert(audio_id, list);
        proof {
            let prefix = rows@.take(i as int);
            let next = rows@.take(i as int + 1);
            assert(next.drop_last() =~= prefix);
            assert(next.last() == rows@[i as int]);
            assert forall|other: i32|
                tags@.contains_key(other) <==> #[trigger] tags_of_audio(next, other).len() > 0 by {
                assert(before.contains_key(other) <==> tags_of_audio(prefix, other).len() > 0);
            }
            assert forall|other: i32| tags@.contains_key(other) implies tag_views(tags@[other]@)
                == #[trigger] tags_of_audio(next, other) by {
                if other == audio_id {
                    if before.contains_key(audio_id) {
                        assert(tag_views(old_list) == tags_of_audio(prefix, audio_id));
                    } else {
                        assert(tags_of_audio(prefix, audio_id).len() == 0);
                        assert(tag_views(old_list) =~= tags_of_audio(prefix, audio_id));
                    }
                } else {
                    assert(before.contains_key(other));
                    assert(tag_views(before[other]@) == tags_of_audio(prefix, other));
                }
            }
        }
        i = i + 1;
    }
    proof {
        assert(rows@.take(i as int) =~= rows@);
    }
    tags
}

/// The statement that stores a tag or, where the user has a tag of that name, updates
/// it, and returns the tag. The color is written only when `with_color` holds.
pub open spec fn tag_upsert_statement(with_color: bool) -> Seq<char> {
    if with_color {
        "insert into tags (user_id, name, color) values ($1, $2, $3) on conflict (user_id, name) do update set name = EXCLUDED.name, color = EXCLUDED.color returning id, user_id, name, color"@
    } else {
        "insert into tags (user_id, name) values ($1, $2) on conflict (user_id, name) do update set name = EXCLUDED.name returning id, user_id, name, color"@
    }
}

/// The statement with which `get_or_create_tag` stores a tag.
pub fn get_or_create_tag(tag_color: &Option<String>) -> (statement: String)
    ensures
        statement@ == tag_upsert_statement(tag_color is Some),
{
    let color_is_some = tag_color.is_some();
    let mut statement = String::from_str("insert into tags (user_id, name");
    statement.append(if color_is_some { ", color" } else { "" });
    statement.append(") values ($1, $2");
    statement.append(if color_is_some { ", $3" } else { "" });
    statement.append(") on conflict (user_id, name) do update set name = EXCLUDED.name");
    statement.append(if color_is_some { ", color = EXCLUDED.color" } else { "" });
    statement.append(" returning id, user_id, name, color");
    proof {
        reveal_strlit("insert into tags (user_id, name");
        reveal_strlit(", color");
        reveal_strlit("");
        reveal_strlit(") values ($1, $2");
        reveal_strlit(", $3");
        reveal_strlit(") on conflict (user_id, name) do update set name = EXCLUDED.name");
        reveal_strlit(", color = EXCLUDED.color");
        reveal_strlit(" returning id, user_id, name, color");
        reveal_strlit(
            "insert into tags (user_id, name, color) values ($1, $2, $3) on conflict (user_id, name) do update set name = EXCLUDED.name, color = EXCLUDED.color returning id, user_id, name, color",
        );
        reveal_strlit(
            "insert into tags (user_id, name) values ($1, $2) on conflict (user_id, name) do update set name = EXCLUDED.name returning id, user_id, name, color",
        );
        assert(statement@ =~= tag_upsert_statement(tag_color is Some));
    }
    statement
}

} // verus!
