use argon2::password_hash::{PasswordHasher, SaltString};
use argon2::Argon2;
use std::collections::HashMap;
use voice_memos::api_error::{ApiError, PasswordFeedback};
use voice_memos::audio_storage::{
    AudioStorage, AzureAudioStorage, LocalAudioStorage, MockAudioStorage, StorageError,
    StorageRequest,
};
use voice_memos::claims::Claims;
use voice_memos::database::{get_audios_tags, get_or_create_tag, DbAudio, DbTag, DbToken, DbUser};
use voice_memos::driver::Phase;
use voice_memos::models::{show_audio, show_tags, Tag};
use voice_memos::routes::audios::{
    all_audios, all_tags, blob_deleted, check_content_type, delete_audio, get_audio,
    get_audio_file, new_audio, owned_audio, storage_failed, tag_audio,
};
use voice_memos::routes::users::{
    auth_body, authorize, check_credentials, check_new_password, check_password, check_strength,
    generate_token,
    get_user, password_reset, request_password_reset, scan_tokens, AuthPayload,
    PasswordResetPayload, ScanOutcome, PASSWORD_UPDATED_BODY, PASSWORD_UPDATED_SUBJECT,
    RESET_LINK_SUBJECT, RESET_REQUESTED_MESSAGE, SESSION_SECS, TOKEN_BYTES,
};

fn claims(user_id: i32) -> Claims {
    Claims { user_id, email: "a@example.org".to_string(), language: "es".to_string(), exp: 0 }
}

fn audio(id: i32, user_id: i32) -> DbAudio {
    DbAudio { id, transcription: Some(format!("text {}", id)), created_at: 99, user_id }
}

fn tag(id: i32, name: &str, color: Option<&str>) -> DbTag {
    DbTag { id, user_id: 1, name: name.to_string(), color: color.map(|c| c.to_string()) }
}

fn shown(tags: &[Tag]) -> Vec<(String, Option<String>)> {
    tags.iter().map(|t| (t.name.clone(), t.color.clone())).collect()
}

fn hash_of(secret: &str) -> String {
    let salt = SaltString::encode_b64(b"a fixed salt for tests").unwrap();
    Argon2::default().hash_password(secret.as_bytes(), &salt).unwrap().to_string()
}

fn status(result: Result<(), ApiError>) -> u16 {
    match result {
        Ok(()) => 200,
        Err(error) => error.status_code(),
    }
}

#[test]
fn error_statuses_and_messages() {
    let feedback = PasswordFeedback { suggestions: vec!["Add a word".to_string()], warning: None };
    let table = [
        (ApiError::InternalServerError, 500, "Internal server error"),
        (ApiError::NotFound, 404, "Not found"),
        (ApiError::Unauthorized, 401, "Unauthorized"),
        (ApiError::BadRequest, 400, "Bad request"),
        (ApiError::WeakPassword(feedback), 400, "Weak password"),
        (ApiError::ExceededFileSizeLimit, 400, "Exceeded file size limit"),
    ];
    for (error, status, message) in table {
        assert_eq!(error.status_code(), status);
        assert_eq!(error.message(), message);
        assert_eq!(error.is_internal(), status == 500);
    }
}

#[test]
fn upload_needs_the_audio_content_type() {
    assert_eq!(status(check_content_type(Some("audio/webm"))), 200);
    assert_eq!(status(check_content_type(Some("audio/ogg"))), 400);
    assert_eq!(status(check_content_type(Some("audio/webm; codecs=opus"))), 400);
    assert_eq!(status(check_content_type(Some(""))), 400);
    assert_eq!(status(check_content_type(None)), 400);
}

#[test]
fn stored_upload_is_answered_with_its_id_and_gets_a_job() {
    let (body, job) = new_audio(7, &claims(1), Ok(())).ok().unwrap();
    assert_eq!(body.id, 7);
    assert_eq!((job.audio_id(), job.language(), job.entry_id()), (7, "es", None));
    assert_eq!(job.phase(), Phase::Pending);
}

#[test]
fn failed_store_is_a_server_failure() {
    let error = new_audio(7, &claims(1), Err(StorageError::StorageFailure)).err().unwrap();
    assert_eq!(error.status_code(), 500);
}

#[test]
fn audio_of_another_user_is_not_found() {
    assert_eq!(owned_audio(Some(audio(7, 1)), 1).ok().unwrap().id, 7);
    assert_eq!(owned_audio(Some(audio(7, 2)), 1).err().unwrap().status_code(), 404);
    assert_eq!(owned_audio(None, 1).err().unwrap().status_code(), 404);
    assert_eq!(status(tag_audio(Some(audio(7, 1)), &claims(1))), 200);
    assert_eq!(status(tag_audio(Some(audio(7, 2)), &claims(1))), 404);
    assert_eq!(status(tag_audio(None, &claims(1))), 404);
}

#[test]
fn one_audio_is_shown_with_its_tags() {
    let tags = vec![tag(1, "work", Some("red")), tag(2, "idea", None)];
    let found = get_audio(Some(audio(7, 1)), tags, &claims(1)).ok().unwrap();
    assert_eq!(found.id, 7);
    assert_eq!(found.transcription, Some("text 7".to_string()));
    assert_eq!(found.created_at, 99);
    assert_eq!(
        shown(&found.tags),
        vec![("work".to_string(), Some("red".to_string())), ("idea".to_string(), None)]
    );
    assert_eq!(get_audio(Some(audio(7, 2)), vec![], &claims(1)).err().unwrap().status_code(), 404);
    assert_eq!(get_audio(None, vec![], &claims(1)).err().unwrap().status_code(), 404);
}

#[test]
fn file_of_an_audio_is_read_from_the_storage() {
    let storage = AudioStorage::Local(LocalAudioStorage);
    let request = get_audio_file(&storage, Some(audio(7, 1)), &claims(1)).ok().unwrap();
    assert!(matches!(request, StorageRequest::ReadFile { path } if path == "uploads/7.webm"));
    let refused = get_audio_file(&storage, Some(audio(7, 2)), &claims(1));
    assert_eq!(refused.err().unwrap().status_code(), 404);
    assert_eq!(get_audio_file(&storage, None, &claims(1)).err().unwrap().status_code(), 404);
}

#[test]
fn delete_of_a_missing_audio_is_not_found_and_touches_no_storage() {
    for storage in [
        AudioStorage::Local(LocalAudioStorage),
        AudioStorage::Azure(AzureAudioStorage::new("a", "k", "c")),
        AudioStorage::Mock(MockAudioStorage),
    ] {
        let result = delete_audio(&storage, 404, false);
        assert!(matches!(result, Err(ApiError::NotFound)));
    }
}

#[test]
fn delete_of_an_audio_deletes_its_blob() {
    let storage = AudioStorage::Local(LocalAudioStorage);
    let request = delete_audio(&storage, 7, true).ok().unwrap();
    assert!(matches!(request, StorageRequest::RemoveFile { path } if path == "uploads/7.webm"));
    assert_eq!(status(blob_deleted(Ok(()))), 200);
    assert_eq!(status(blob_deleted(Err(StorageError::NotFound))), 404);
    assert_eq!(status(blob_deleted(Err(StorageError::StorageFailure))), 500);
    assert_eq!(status(blob_deleted(Err(StorageError::TooManyBlocks))), 500);
    assert_eq!(storage_failed(StorageError::NotFound).status_code(), 404);
    assert_eq!(storage_failed(StorageError::StorageFailure).status_code(), 500);
}

#[test]
fn tags_are_grouped_by_audio_in_the_order_of_the_rows() {
    let rows = vec![
        (tag(1, "a", None), 10),
        (tag(2, "b", Some("blue")), 20),
        (tag(3, "c", None), 10),
        (tag(1, "a", None), 20),
    ];
    let grouped = get_audios_tags(&rows);
    assert_eq!(grouped.len(), 2);
    let ids = |audio_id: i32| -> Vec<i32> { grouped[&audio_id].iter().map(|t| t.id).collect() };
    assert_eq!(ids(10), vec![1, 3]);
    assert_eq!(ids(20), vec![2, 1]);
    assert_eq!(grouped[&20][0].color, Some("blue".to_string()));
    assert!(!grouped.contains_key(&30));
    assert!(get_audios_tags(&vec![]).is_empty());
}

#[test]
fn all_audios_come_with_their_tags() {
    let mut tags = HashMap::new();
    tags.insert(7, vec![tag(1, "work", None)]);
    tags.insert(9, vec![tag(2, "idea", Some("red")), tag(3, "todo", None)]);
    tags.insert(11, vec![tag(4, "unused", None)]);
    let audios = vec![audio(9, 1), audio(8, 1), audio(7, 1), audio(9, 1)];
    let shown_audios = all_audios(&audios, tags);
    let summary: Vec<(i32, Vec<String>)> = shown_audios
        .iter()
        .map(|a| (a.id, a.tags.iter().map(|t| t.name.clone()).collect()))
        .collect();
    assert_eq!(
        summary,
        vec![
            (9, vec!["idea".to_string(), "todo".to_string()]),
            (8, vec![]),
            (7, vec!["work".to_string()]),
            (9, vec![]),
        ]
    );
    assert_eq!(shown_audios[0].transcription, Some("text 9".to_string()));
    assert_eq!(shown_audios[0].created_at, 99);
}

#[test]
fn tags_are_shown_by_name_and_color() {
    let tags = vec![tag(1, "work", Some("red")), tag(2, "idea", None)];
    assert_eq!(
        shown(&all_tags(tags)),
        vec![("work".to_string(), Some("red".to_string())), ("idea".to_string(), None)]
    );
    assert!(show_tags(vec![]).is_empty());
    let from: Tag = Tag::from(tag(5, "x", Some("y")));
    assert_eq!((from.name.as_str(), from.color.as_deref()), ("x", Some("y")));
    let shown_audio = show_audio(audio(3, 1), vec![tag(1, "t", None)]);
    assert_eq!((shown_audio.id, shown_audio.tags.len()), (3, 1));
    assert_eq!(tag(1, "a", Some("b")).duplicate().color, Some("b".to_string()));
}

#[test]
fn tag_statement_writes_the_color_only_when_there_is_one() {
    assert_eq!(
        get_or_create_tag(&Some("red".to_string())),
        "insert into tags (user_id, name, color) values ($1, $2, $3) on conflict (user_id, name) do update set name = EXCLUDED.name, color = EXCLUDED.color returning id, user_id, name, color"
    );
    assert_eq!(
        get_or_create_tag(&None),
        "insert into tags (user_id, name) values ($1, $2) on conflict (user_id, name) do update set name = EXCLUDED.name returning id, user_id, name, color"
    );
}

#[test]
fn claims_need_a_token_that_decodes() {
    assert_eq!(Claims::from_request_parts(true, true, Some(claims(4))).ok().unwrap().user_id, 4);
    let refused = |bearer, state, decoded: Option<Claims>| {
        Claims::from_request_parts(bearer, state, decoded).err().unwrap().status_code()
    };
    assert_eq!(refused(false, true, Some(claims(4))), 401);
    assert_eq!(refused(false, false, None), 401);
    assert_eq!(refused(true, false, Some(claims(4))), 500);
    assert_eq!(refused(true, true, None), 401);
}

fn payload(email: &str, password: &str) -> AuthPayload {
    AuthPayload { email: email.to_string(), password: password.to_string() }
}

fn user(password: Option<String>) -> DbUser {
    DbUser { id: 5, email: "a@example.org".to_string(), language: "es".to_string(), password }
}

#[test]
fn sign_in_needs_address_and_password() {
    assert_eq!(status(check_credentials(&payload("a@example.org", "secret"))), 200);
    assert_eq!(status(check_credentials(&payload("", "secret"))), 400);
    assert_eq!(status(check_credentials(&payload("a@example.org", ""))), 400);
    assert_eq!(status(check_credentials(&payload("", ""))), 400);
}

#[test]
fn sign_in_with_the_right_password_gives_claims_for_180_days() {
    let stored = user(Some(hash_of("correct horse")));
    let claims = authorize(&payload("a@example.org", "correct horse"), Some(stored), 1_000)
        .ok()
        .unwrap();
    assert_eq!(claims.user_id, 5);
    assert_eq!(claims.email, "a@example.org");
    assert_eq!(claims.language, "es");
    assert_eq!(claims.exp, 1_000 + 15_552_000);
    assert_eq!(SESSION_SECS, 15_552_000);
}

#[test]
fn sign_in_is_refused_without_a_matching_hash() {
    let refused = |user: Option<DbUser>, password: &str| {
        authorize(&payload("a@example.org", password), user, 0).err().unwrap().status_code()
    };
    assert_eq!(refused(Some(user(Some(hash_of("correct horse")))), "wrong horse"), 401);
    assert_eq!(refused(Some(user(None)), "correct horse"), 401);
    assert_eq!(refused(None, "correct horse"), 401);
    assert_eq!(refused(Some(user(Some("not a hash".to_string()))), "correct horse"), 500);
    assert_eq!(refused(Some(user(Some("correct horse".to_string()))), "correct horse"), 500);
}

#[test]
fn sign_in_is_answered_with_a_bearer_token() {
    let body = auth_body(Some("abc.def.ghi".to_string())).ok().unwrap();
    assert_eq!(body.access_token, "abc.def.ghi");
    assert_eq!(body.token_type, "Bearer");
    assert_eq!(auth_body(None).err().unwrap().status_code(), 500);
}

#[test]
fn user_of_the_claims() {
    let user = get_user(claims(1));
    assert_eq!((user.email.as_str(), user.language.as_str()), ("a@example.org", "es"));
}

fn reset(new_password: &str) -> PasswordResetPayload {
    PasswordResetPayload { user_id: 5, token: "t".to_string(), new_password: new_password.to_string() }
}

#[test]
fn new_password_must_not_be_empty_nor_weak() {
    assert_eq!(status(check_new_password(&reset("x"))), 200);
    assert_eq!(status(check_new_password(&reset(""))), 400);
    let feedback = |warning: &str| {
        Some(PasswordFeedback { suggestions: vec![], warning: Some(warning.to_string()) })
    };
    for score in 0..=2u8 {
        match check_strength(score, feedback("too common")) {
            Err(ApiError::WeakPassword(given)) => {
                assert_eq!(given.warning, Some("too common".to_string()))
            }
            other => panic!("unexpected {:?}", other),
        }
    }
    assert_eq!(status(check_strength(3, None)), 200);
    assert_eq!(status(check_strength(4, feedback("ignored"))), 200);
}

#[test]
fn new_password_is_judged_before_it_is_taken() {
    assert_eq!(status(check_password(&reset(""))), 400);
    match check_password(&reset("password")) {
        Err(ApiError::WeakPassword(feedback)) => assert!(!feedback.suggestions.is_empty()),
        other => panic!("unexpected {:?}", other),
    }
    assert_eq!(status(check_password(&reset("tiger-Lamp-42-quartz-Meadow-river"))), 200);
}

fn stored(token: &str, expires_at: i64) -> DbToken {
    DbToken { user_id: 5, token: token.to_string(), expires_at }
}

#[test]
fn token_scan_finds_the_token_and_reports_the_expired() {
    let right = hash_of("the token");
    let other = hash_of("another token");
    let tokens = vec![
        stored(&other, 50),
        stored(&other, 200),
        stored(&right, 100),
        stored(&right, 200),
        stored("not a hash", 200),
    ];
    let scan = scan_tokens(&tokens, "the token", 100);
    assert_eq!(scan.outcome, ScanOutcome::Matched(3));
    assert_eq!(scan.expired, vec![0, 2]);
}

#[test]
fn token_scan_without_a_match() {
    let other = hash_of("another token");
    let tokens = vec![stored(&other, 200), stored(&other, 10), stored(&other, 300)];
    let scan = scan_tokens(&tokens, "the token", 100);
    assert_eq!(scan.outcome, ScanOutcome::NoMatch);
    assert_eq!(scan.expired, vec![1]);
    let scan = scan_tokens(&vec![], "the token", 100);
    assert_eq!(scan.outcome, ScanOutcome::NoMatch);
    assert!(scan.expired.is_empty());
}

#[test]
fn token_scan_stops_at_a_stored_text_that_is_no_hash() {
    let right = hash_of("the token");
    let tokens = vec![stored("junk", 10), stored("junk", 200), stored(&right, 200)];
    let scan = scan_tokens(&tokens, "the token", 100);
    assert_eq!(scan.outcome, ScanOutcome::Malformed(1));
    assert_eq!(scan.expired, vec![0]);
}

#[test]
fn password_is_reset_only_for_a_known_user_with_the_token() {
    assert_eq!(password_reset(ScanOutcome::Matched(0), Some(user(None))).ok().unwrap().id, 5);
    let refused = |outcome, user: Option<DbUser>| {
        password_reset(outcome, user).err().unwrap().status_code()
    };
    assert_eq!(refused(ScanOutcome::Matched(0), None), 404);
    assert_eq!(refused(ScanOutcome::NoMatch, Some(user(None))), 404);
    assert_eq!(refused(ScanOutcome::NoMatch, None), 404);
    assert_eq!(refused(ScanOutcome::Malformed(2), Some(user(None))), 500);
    assert_eq!(refused(ScanOutcome::Malformed(2), None), 500);
}

#[test]
fn reset_token_is_the_base_64_of_its_bytes() {
    assert_eq!(TOKEN_BYTES, 48);
    assert_eq!(generate_token(&[0u8; 48]), "A".repeat(64));
    assert_eq!(generate_token(&[0xFFu8; 48]), "_".repeat(64));
    let mut bytes = [0u8; 48];
    bytes[0] = 0xFB;
    bytes[1] = 0xEF;
    bytes[2] = 0xBE;
    let token = generate_token(&bytes);
    assert_eq!(token.len(), 64);
    assert!(token.starts_with("----AAAA"));
}

#[test]
fn reset_mail_carries_the_link_with_token_and_user() {
    let body = request_password_reset("https://memo.example/reset", "TOKEN", &Some(user(None)));
    assert_eq!(
        body,
        Some(
            "\nFollow this link for resetting your password: https://memo.example/reset?token=TOKEN&user_id=5\n\nIf you didn't initialize any password reset, you can safely ignore this message."
                .to_string()
        )
    );
    assert_eq!(request_password_reset("https://memo.example/reset", "TOKEN", &None), None);
    assert_eq!(RESET_LINK_SUBJECT, "Password reset link");
    assert_eq!(PASSWORD_UPDATED_SUBJECT, "Password updated");
    assert_eq!(PASSWORD_UPDATED_BODY, "Your password has been updated successfully.");
    assert_eq!(
        RESET_REQUESTED_MESSAGE,
        "If that email address is in our database, we will send you an email to reset your password."
    );
}
