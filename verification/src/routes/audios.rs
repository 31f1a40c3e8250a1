//! The requests about audios: which are refused, and what the others answer.

use crate::api_error::ApiError;
use crate::audio_storage::{AudioStorage, StorageError, StorageRequest, AUDIO_FILE_MIMETYPE};
use crate::claims::Claims;
use crate::database::{tag_views, DbAudio, DbTag, TagView};
use crate::driver::{Job, JobView, Phase};
use crate::models::{show_audio, show_tags, shown, shown_views, Audio, ShownTag, Tag};
use crate::text::same_text;
use std::collections::HashMap;
use vstd::prelude::*;
use vstd::std_specs::hash::*;
use vstd::string::*;

verus! {

/// What a request to tag an audio carries.
#[derive(Debug)]
pub struct TagAudioPayload {
    pub name: String,
    pub color: Option<String>,
}

/// What answers an upload: the id of the new audio.
#[derive(Debug)]
pub struct NewAudioBody {
    pub id: i32,
}

/// The audio, if it is there and belongs to the user; to everyone else it is not there.
pub fn owned_audio(audio: Option<DbAudio>, user_id: i32) -> (result: Result<DbAudio, ApiError>)
    ensures
        result == match audio {
            Some(found) => if found.user_id == user_id {
                Ok::<DbAudio, ApiError>(found)
            } else {
                Err::<DbAudio, ApiError>(ApiError::NotFound)
            },
            None => Err::<DbAudio, ApiError>(ApiError::NotFound),
        },
{
    match audio {
        Some(found) => if found.user_id == user_id {
            Ok(found)
        } else {
            Err(ApiError::NotFound)
        },
        None => Err(ApiError::NotFound),
    }
}

/// Answers a request for one audio: the audio with its tags, if it belongs to the
/// user of the claims; else it is not found.
pub fn get_audio(audio: Option<DbAudio>, audio_tags: Vec<DbTag>, claims: &Claims) -> (result: Result<
    Audio,
    ApiError,
>)
    ensures
        match audio {
            Some(found) => if found.user_id == claims.user_id {
                &&& result is Ok
                &&& result->Ok_0.id == found.id
                &&& result->Ok_0.transcription == found.transcription
                &&& result->Ok_0.created_at == found.created_at
                &&& shown_views(result->Ok_0.tags@) == tag_views(audio_tags@).map_values(
                    |tag: TagView| shown(tag),
                )
            } else {
                result == Err::<Audio, ApiError>(ApiError::NotFound)
            },
            None => result == Err::<Audio, ApiError>(ApiError::NotFound),
        },
{
    match owned_audio(audio, claims.user_id) {
        Ok(found) => Ok(show_audio(found, audio_tags)),
        Err(error) => Err(error),
    }
}

/// What a failed storage operation means to the caller: a blob that is missing is not
/// found; any other failure is the server's.
pub fn storage_failed(error: StorageError) -> (result: ApiError)
    ensures
        result == if error is NotFound {
            ApiError::NotFound
        } else {
            ApiError::InternalServerError
        },
{
    match error {
        StorageError::NotFound => ApiError::NotFound,
        _ => ApiError::InternalServerError,
    }
}

/// Answers a request for the file of an audio: what reading the blob takes, if the
/// audio belongs to the user of the claims; else it is not found.
pub fn get_audio_file(storage: &AudioStorage, audio: Option<DbAudio>, claims: &Claims) -> (result:
    Result<StorageRequest, ApiError>)
    ensures
        match audio {
            Some(found) => if found.user_id == claims.user_id {
                result is Ok && result->Ok_0@ == storage.get_request(found.id as int)
            } else {
                result == Err::<StorageRequest, ApiError>(ApiError::NotFound)
            },
            None => result == Err::<StorageRequest, ApiError>(ApiError::NotFound),
        },
{
    match owned_audio(audio, claims.user_id) {
        Ok(found) => Ok(storage.get(found.id)),
        Err(error) => Err(error),
    }
}

/// Answers a request to tag an audio, as far as the audio decides it: the audio must
/// belong to the user of the claims; else it is not found.
pub fn tag_audio(audio: Option<DbAudio>, claims: &Claims) -> (result: Result<(), ApiError>)
    ensures
        result == if audio is Some && audio->0.user_id == claims.user_id {
            Ok::<(), ApiError>(())
        } else {
            Err::<(), ApiError>(ApiError::NotFound)
        },
{
    match owned_audio(audio, claims.user_id) {
        Ok(_) => Ok(()),
        Err(error) => Err(error),
    }
}

/// Whether one of the first `count` audios has the id `id`.
pub open spec fn id_among(audios: Seq<DbAudio>, count: int, id: i32) -> bool
    decreases count,
{
    if count <= 0 {
        false
    } else {
        audios[count - 1].id == id || id_among(audios, count - 1, id)
    }
}

/// The tags shown with the audio at `index`: those that `audios_tags` holds for its
/// id, each by its name and color; none where it holds none for the id, or where an
/// audio of the same id stands before.
pub open spec fn tags_shown_with(
    audios: Seq<DbAudio>,
    audios_tags: Map<i32, Vec<DbTag>>,
    index: int,
) -> Seq<ShownTag> {
    if audios_tags.contains_key(audios[index].id) && !id_among(audios, index, audios[index].id) {
        tag_views(audios_tags[audios[index].id]@).map_values(|tag: TagView| shown(tag))
    } else {
        Seq::empty()
    }
}

/// Answers a request for all audios of a user: the audios in their order, each with
/// the tags that `audios_tags` holds for it.
pub fn all_audios(audios: &Vec<DbAudio>, audios_tags: HashMap<i32, Vec<DbTag>>) -> (shown_audios:
    Vec<Audio>)
    ensures
        shown_audios@.len() == audios@.len(),
        forall|i: int|
            #![trigger shown_audios@[i]]
            0 <= i < audios@.len() ==> {
                &&& shown_audios@[i].id == audios@[i].id
                &&& shown_audios@[i].transcription == audios@[i].transcription
                &&& shown_audios@[i].created_at == audios@[i].created_at
                &&& shown_views(shown_audios@[i].tags@) == tags_shown_with(audios@, audios_tags@, i)
            },
{
    broadcast use group_hash_axioms;

    let ghost all_tags = audios_tags@;
    let mut remaining = audios_tags;
    let mut shown_audios: Vec<Audio> = Vec::new();
    let mut i: usize = 0;
    while i < audios.len()
        invariant
            i <= audios.len(),
            shown_audios@.len() == i,
            forall|key: i32|
                #![trigger remaining@.contains_key(key)]
                remaining@.contains_key(key) == (all_tags.contains_key(key) && !id_among(
                    audios@,
                    i as int,
                    key,
                )),
            forall|key: i32|
                #![trigger remaining@[key]]
                remaining@.contains_key(key) ==> remaining@[key] == all_tags[key],
            forall|k: int|
                #![trigger shown_audios@[k]]
                0 <= k < i ==> {
                    &&& shown_audios@[k].id == audios@[k].id
                    &&& shown_audios@[k].transcription == audios@[k].transcription
                    &&& shown_audios@[k].created_at == audios@[k].created_at
                    &&& shown_views(shown_audios@[k].tags@) == tags_shown_with(
                        audios@,
                        all_tags,
                        k,
                    )
                },
        decreases audios.len() - i,
    {
        let audio = &audios[i];
        let ghost before = remaining@;
        let tags = match remaining.remove(&audio.id) {
            Some(tags) => tags,
            None => Vec::new(),
        };
        proof {
            assert(before.contains_key(audio.id) == (all_tags.contains_key(audio.id) && !id_among(
                audios@,
                i as int,
                audio.id,
            )));
            if before.contains_key(audio.id) {
                assert(before[audio.id] == all_tags[audio.id]);
            }
            assert(tag_views(tags@).map_values(|tag: TagView| shown(tag)) =~= tags_shown_with(
                audios@,
                all_tags,
                i as int,
            ));
            assert forall|key: i32|
                #![trigger remaining@.contains_key(key)]
                remaining@.contains_key(key) == (all_tags.contains_key(key) && !id_among(
                    audios@,
                    i as int + 1,
                    key,
                )) by {
                assert(before.contains_key(key) == (all_tags.contains_key(key) && !id_among(
                    audios@,
                    i as int,
                    key,
                )));
            }
            assert forall|key: i32| #![trigger remaining@[key]] remaining@.contains_key(key) implies remaining@[key] == all_tags[key] by {
                assert(before.contains_key(key));
                assert(before[key] == all_tags[key]);
            }
        }
        let copy = DbAudio {
            id: audio.id,
            transcription: match &audio.transcription {
                Some(text) => Some(text.clone()),
                None => None,
            },
            created_at: audio.created_at,
            user_id: audio.user_id,
        };
        shown_audios.push(show_audio(copy, tags));
        i = i + 1;
    }
    shown_audios
}

/// Answers a request for all tags of a user.
pub fn all_tags(tags: Vec<DbTag>) -> (shown_tags: Vec<Tag>)
    ensures
        shown_views(shown_tags@) == tag_views(tags@).map_values(|tag: TagView| shown(tag)),
{
    show_tags(tags)
}

/// Whether an upload is taken: its declared content type must be that of the stored
/// audio files. An upload without a content type, or with another, is a bad request
/// and nothing is stored.
pub fn check_content_type(content_type: Option<&str>) -> (result: Result<(), ApiError>)
    ensures
        result == if content_type is Some && content_type->0@ == AUDIO_FILE_MIMETYPE@ {
            Ok::<(), ApiError>(())
        } else {
            Err::<(), ApiError>(ApiError::BadRequest)
        },
{
    match content_type {
        Some(declared) => if same_text(declared, AUDIO_FILE_MIMETYPE) {
            Ok(())
        } else {
            Err(ApiError::BadRequest)
        },
        None => Err(ApiError::BadRequest),
    }
}

/// Answers an upload once the blob is stored or has failed to be: a stored blob is
/// answered with its id and gets a job that transcribes it in the language of the
/// claims; a failed store is answered as a failure of the server, and no job is made.
pub fn new_audio(id: i32, claims: &Claims, stored: Result<(), StorageError>) -> (result: Result<
    (NewAudioBody, Job),
    ApiError,
>)
    ensures
        match stored {
            Ok(_) => result is Ok && result->Ok_0.0.id == id && result->Ok_0.1@ == (JobView {
                audio_id: id,
                language: claims.language@,
                entry_id: None,
                phase: Phase::Pending,
            }),
            Err(_) => result == Err::<(NewAudioBody, Job), ApiError>(ApiError::InternalServerError),
        },
{
    match stored {
        Ok(_) => Ok((NewAudioBody { id }, Job::new(id, claims.language.as_str()))),
        Err(_) => Err(ApiError::InternalServerError),
    }
}

/// Begins the deletion of an audio, once the database has said whether it deleted the
/// user's row: without a deleted row the audio is not found and the storage is not
/// touched; with one, the blob is to be deleted as the request returned says.
pub fn delete_audio(storage: &AudioStorage, audio_id: i32, row_deleted: bool) -> (result: Result<
    StorageRequest,
    ApiError,
>)
    ensures
        if row_deleted {
            result is Ok && result->Ok_0@ == storage.delete_request(audio_id as int)
        } else {
            result == Err::<StorageRequest, ApiError>(ApiError::NotFound)
        },
{
    if !row_deleted {
        return Err(ApiError::NotFound);
    }
    Ok(storage.delete(audio_id))
}

/// Ends the deletion of an audio, once the storage has answered: a blob that was
/// missing is not found; any other failure is the server's.
pub fn blob_deleted(outcome: Result<(), StorageError>) -> (result: Result<(), ApiError>)
    ensures
        result == match outcome {
            Ok(_) => Ok::<(), ApiError>(()),
            Err(StorageError::NotFound) => Err::<(), ApiError>(ApiError::NotFound),
            Err(_) => Err::<(), ApiError>(ApiError::InternalServerError),
        },
{
    match outcome {
        Ok(_) => Ok(()),
        Err(error) => Err(storage_failed(error)),
    }
}

} // verus!
