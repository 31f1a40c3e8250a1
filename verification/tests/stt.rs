use voice_memos::stt::{
    raw_audio_name, repackage_command, repackaged_audio_name, LocalAction, LocalEvent,
    LocalPhase, LocalTranscription, PicovoiceLeopard, SetupStep, SpeechToText, SpeechToTextMock,
    TranscribeError, TranscribeErrorKind, WhisperApi, WhisperApiResponse, LIBRARY_FILE_NAME,
    LIBRARY_URL,
    MODELS_FOLDER, MODEL_BASE_URL, REPACKAGE_PROGRAM, WHISPER_API_URL, WHISPER_MODEL,
};
use voice_memos::text::{join_path, join_texts, same_text};
use voice_memos::whisper::WhisperMock;

fn response(status: u16, text: Option<&str>, error: Option<&str>) -> WhisperApiResponse {
    WhisperApiResponse {
        status,
        text: text.map(|t| t.to_string()),
        error: error.map(|e| e.to_string()),
    }
}

#[test]
fn whisper_request_carries_file_model_and_language() {
    let api = WhisperApi::new("sk-test".to_string());
    let request = api.request("es", 1234);
    assert_eq!(request.url, "https://api.openai.com/v1/audio/transcriptions");
    assert_eq!(request.url, WHISPER_API_URL);
    assert_eq!(request.bearer_token, "sk-test");
    assert_eq!(request.file_name, "audio.webm");
    assert_eq!(request.file_length, 1234);
    assert_eq!(request.model, "whisper-1");
    assert_eq!(request.model, WHISPER_MODEL);
    assert_eq!(request.language, "es");
}

#[test]
fn whisper_text_is_the_transcription() {
    let outcome = WhisperApi::transcribe(response(200, Some("hello world"), None));
    assert_eq!(outcome.unwrap(), "hello world");
    let outcome = WhisperApi::transcribe(response(299, Some(""), Some("ignored")));
    assert_eq!(outcome.unwrap(), "");
}

#[test]
fn whisper_error_field_is_a_service_error() {
    let error = WhisperApi::transcribe(response(200, None, Some("{\"code\":\"bad\"}"))).unwrap_err();
    assert_eq!(error.kind, TranscribeErrorKind::TranscriptionServiceError);
    assert_eq!(error.message, "error returned from whisper api: {\"code\":\"bad\"}");
}

#[test]
fn whisper_answer_without_text_and_error_is_a_service_error() {
    let error = WhisperApi::transcribe(response(200, None, None)).unwrap_err();
    assert_eq!(error.kind, TranscribeErrorKind::TranscriptionServiceError);
    assert_eq!(error.message, "whisper api did not return text nor error");
}

#[test]
fn whisper_status_other_than_success_is_a_service_error() {
    let error = WhisperApi::transcribe(response(500, Some("text"), None)).unwrap_err();
    assert_eq!(error.kind, TranscribeErrorKind::TranscriptionServiceError);
    assert_eq!(error.message, "whisper api answered with status 500");
    let error = WhisperApi::transcribe(response(401, None, Some("no key"))).unwrap_err();
    assert_eq!(error.message, "error returned from whisper api: no key");
    let error = WhisperApi::transcribe(response(199, None, None)).unwrap_err();
    assert_eq!(error.message, "whisper api answered with status 199");
    let error = WhisperApi::transcribe(response(300, Some("text"), Some("moved"))).unwrap_err();
    assert_eq!(error.message, "error returned from whisper api: moved");
}

#[test]
fn every_kind_of_failure_has_its_message() {
    let table = [
        (TranscribeErrorKind::TranscriptionServiceError, "the speech service failed"),
        (TranscribeErrorKind::ModelUnavailable, "the model could not be fetched"),
        (TranscribeErrorKind::RepackageFailed, "the audio could not be repackaged"),
        (TranscribeErrorKind::EngineError, "the engine failed"),
    ];
    for (kind, message) in table {
        let error = TranscribeError::of_kind(kind);
        assert_eq!(error.kind, kind);
        assert_eq!(error.message, message);
    }
}

#[test]
fn mocks_hear_hello() {
    assert_eq!(SpeechToTextMock.transcribe("es").unwrap(), "hello");
    assert_eq!(WhisperMock.transcribe("a.webm", 10, "en").unwrap(), "hello");
}

#[test]
fn only_the_local_engine_blocks() {
    let (leopard, _) =
        PicovoiceLeopard::new_with_languages(&vec![], "key".to_string(), "/srv", true, &vec![], true);
    assert!(SpeechToText::Leopard(leopard).runs_blocking());
    assert!(!SpeechToText::Whisper(WhisperApi::new("k".to_string())).runs_blocking());
    assert!(!SpeechToText::Mock(SpeechToTextMock).runs_blocking());
}

#[test]
fn text_helpers() {
    assert_eq!(join_texts("ab", "cd"), "abcd");
    assert_eq!(join_texts("", ""), "");
    assert!(same_text("en", "en"));
    assert!(!same_text("en", "es"));
    assert!(!same_text("en", "en "));
    assert_eq!(join_path("a", "b"), "a/b");
    assert_eq!(raw_audio_name(), "audio.webm");
    assert_eq!(repackaged_audio_name(), "new_audio.webm");
}

#[test]
fn model_address_depends_on_the_language() {
    let english = PicovoiceLeopard::download_model("en");
    assert_eq!(
        english.url,
        "https://github.com/Picovoice/leopard/raw/master/lib/common/leopard_params.pv"
    );
    assert_eq!(english.path, "picovoice_leopard_models/en");
    let spanish = PicovoiceLeopard::download_model("es");
    assert_eq!(
        spanish.url,
        "https://github.com/Picovoice/leopard/raw/master/lib/common/leopard_params_es.pv"
    );
    assert_eq!(spanish.path, "picovoice_leopard_models/es");
    assert_eq!(spanish.url, format!("{}_es.pv", MODEL_BASE_URL));
}

#[test]
fn library_is_fetched_to_the_path_given() {
    let download = PicovoiceLeopard::download_library("/srv/picovoice_leopard_lib.so");
    assert_eq!(
        download.url,
        "https://github.com/Picovoice/leopard/raw/master/lib/linux/x86_64/libpv_leopard.so"
    );
    assert_eq!(download.url, LIBRARY_URL);
    assert_eq!(download.path, "/srv/picovoice_leopard_lib.so");
}

fn describe(step: &SetupStep) -> String {
    match step {
        SetupStep::CreateFolder { path } => format!("mkdir {}", path),
        SetupStep::Fetch(download) => format!("fetch {} -> {}", download.url, download.path),
    }
}

#[test]
fn setup_fetches_exactly_what_is_missing() {
    let languages = vec!["es".to_string(), "en".to_string(), "fr".to_string()];
    let (leopard, steps) = PicovoiceLeopard::new_with_languages(
        &languages,
        "access".to_string(),
        "/srv/app",
        false,
        &vec![false, true, false],
        false,
    );
    assert_eq!(leopard.access_key(), "access");
    assert_eq!(leopard.library_path(), "/srv/app/picovoice_leopard_lib.so");
    assert_eq!(leopard.get_model_path("es"), "picovoice_leopard_models/es");
    let described: Vec<String> = steps.iter().map(describe).collect();
    assert_eq!(
        described,
        vec![
            "mkdir picovoice_leopard_models".to_string(),
            format!("fetch {}_es.pv -> picovoice_leopard_models/es", MODEL_BASE_URL),
            format!("fetch {}_fr.pv -> picovoice_leopard_models/fr", MODEL_BASE_URL),
            format!("fetch {} -> /srv/app/picovoice_leopard_lib.so", LIBRARY_URL),
        ]
    );
    assert_eq!(MODELS_FOLDER, "picovoice_leopard_models");
    assert_eq!(LIBRARY_FILE_NAME, "picovoice_leopard_lib.so");
}

#[test]
fn setup_leaves_alone_what_is_there() {
    let languages = vec!["es".to_string()];
    let (_, steps) = PicovoiceLeopard::new_with_languages(
        &languages,
        "access".to_string(),
        ".",
        true,
        &vec![true],
        true,
    );
    assert!(steps.is_empty());
}

#[test]
fn repackaging_copies_the_audio_into_a_new_container() {
    assert_eq!(REPACKAGE_PROGRAM, "ffmpeg");
    assert_eq!(
        repackage_command("/tmp/x/audio.webm", "/tmp/x/new_audio.webm"),
        vec!["-i", "/tmp/x/audio.webm", "-acodec", "copy", "/tmp/x/new_audio.webm"]
    );
}

/// Runs a local transcription on the events given and returns the actions handed out.
fn local_actions(events: &[LocalEvent]) -> Vec<LocalAction> {
    let mut transcription = LocalTranscription::new();
    events.iter().map(|event| transcription.step(*event)).collect()
}

#[test]
fn local_transcription_with_the_model_at_hand() {
    let actions = local_actions(&[
        LocalEvent::Begin,
        LocalEvent::ModelChecked { present: true },
        LocalEvent::TempDirMade { ok: true },
        LocalEvent::AudioWritten { ok: true },
        LocalEvent::Repackaged { success: true },
        LocalEvent::Transcribed { ok: true },
        LocalEvent::CleanedUp { ok: true },
    ]);
    assert_eq!(
        actions,
        vec![
            LocalAction::CheckModel,
            LocalAction::MakeTempDir,
            LocalAction::WriteAudio,
            LocalAction::Repackage,
            LocalAction::RunEngine,
            LocalAction::CleanUp,
            LocalAction::Return { failure: None },
        ]
    );
}

#[test]
fn local_transcription_fetches_a_missing_model_first() {
    let actions = local_actions(&[
        LocalEvent::Begin,
        LocalEvent::ModelChecked { present: false },
        LocalEvent::ModelFetched { ok: true },
    ]);
    assert_eq!(
        actions,
        vec![LocalAction::CheckModel, LocalAction::FetchModel, LocalAction::MakeTempDir]
    );
}

#[test]
fn model_that_cannot_be_fetched_is_unavailable() {
    let actions = local_actions(&[
        LocalEvent::Begin,
        LocalEvent::ModelChecked { present: false },
        LocalEvent::ModelFetched { ok: false },
    ]);
    assert_eq!(
        actions.last(),
        Some(&LocalAction::Return { failure: Some(TranscribeErrorKind::ModelUnavailable) })
    );
}

#[test]
fn failed_repackaging_cleans_up_and_fails() {
    let actions = local_actions(&[
        LocalEvent::Begin,
        LocalEvent::ModelChecked { present: true },
        LocalEvent::TempDirMade { ok: true },
        LocalEvent::AudioWritten { ok: true },
        LocalEvent::Repackaged { success: false },
        LocalEvent::CleanedUp { ok: false },
    ]);
    assert_eq!(
        &actions[4..],
        &[
            LocalAction::CleanUp,
            LocalAction::Return { failure: Some(TranscribeErrorKind::RepackageFailed) },
        ]
    );
}

#[test]
fn failed_engine_cleans_up_and_fails() {
    let actions = local_actions(&[
        LocalEvent::Begin,
        LocalEvent::ModelChecked { present: true },
        LocalEvent::TempDirMade { ok: true },
        LocalEvent::AudioWritten { ok: true },
        LocalEvent::Repackaged { success: true },
        LocalEvent::Transcribed { ok: false },
        LocalEvent::CleanedUp { ok: true },
    ]);
    assert_eq!(
        &actions[5..],
        &[
            LocalAction::CleanUp,
            LocalAction::Return { failure: Some(TranscribeErrorKind::EngineError) },
        ]
    );
}

#[test]
fn failures_before_the_engine_are_repackage_failures() {
    let no_folder = local_actions(&[
        LocalEvent::Begin,
        LocalEvent::ModelChecked { present: true },
        LocalEvent::TempDirMade { ok: false },
    ]);
    assert_eq!(
        no_folder.last(),
        Some(&LocalAction::Return { failure: Some(TranscribeErrorKind::RepackageFailed) })
    );
    let no_file = local_actions(&[
        LocalEvent::Begin,
        LocalEvent::ModelChecked { present: true },
        LocalEvent::TempDirMade { ok: true },
        LocalEvent::AudioWritten { ok: false },
        LocalEvent::CleanedUp { ok: true },
    ]);
    assert_eq!(
        &no_file[3..],
        &[
            LocalAction::CleanUp,
            LocalAction::Return { failure: Some(TranscribeErrorKind::RepackageFailed) },
        ]
    );
}

#[test]
fn transcript_is_lost_if_the_folder_cannot_be_deleted() {
    let actions = local_actions(&[
        LocalEvent::Begin,
        LocalEvent::ModelChecked { present: true },
        LocalEvent::TempDirMade { ok: true },
        LocalEvent::AudioWritten { ok: true },
        LocalEvent::Repackaged { success: true },
        LocalEvent::Transcribed { ok: true },
        LocalEvent::CleanedUp { ok: false },
    ]);
    assert_eq!(
        actions.last(),
        Some(&LocalAction::Return { failure: Some(TranscribeErrorKind::EngineError) })
    );
}

#[test]
fn every_return_after_the_folder_is_made_follows_a_clean_up() {
    let outcomes = [true, false];
    for written in outcomes {
        for repackaged in outcomes {
            for transcribed in outcomes {
                for cleaned in outcomes {
                    let mut transcription = LocalTranscription::new();
                    let events = [
                        LocalEvent::Begin,
                        LocalEvent::ModelChecked { present: true },
                        LocalEvent::TempDirMade { ok: true },
                        LocalEvent::AudioWritten { ok: written },
                        LocalEvent::Repackaged { success: repackaged },
                        LocalEvent::Transcribed { ok: transcribed },
                        LocalEvent::CleanedUp { ok: cleaned },
                        LocalEvent::CleanedUp { ok: cleaned },
                    ];
                    let mut cleaned_up = false;
                    let mut returned = 0;
                    for event in events {
                        match transcription.step(event) {
                            LocalAction::CleanUp => cleaned_up = true,
                            LocalAction::Return { .. } => {
                                assert!(cleaned_up);
                                returned += 1;
                            }
                            _ => {}
                        }
                    }
                    assert_eq!(returned, 1);
                    assert_eq!(transcription.phase(), LocalPhase::Done);
                }
            }
        }
    }
}

#[test]
fn events_out_of_turn_are_ignored() {
    let mut transcription = LocalTranscription::new();
    assert_eq!(transcription.step(LocalEvent::CleanedUp { ok: true }), LocalAction::Ignore);
    assert_eq!(transcription.step(LocalEvent::Transcribed { ok: true }), LocalAction::Ignore);
    assert_eq!(transcription.phase(), LocalPhase::Start);
    assert_eq!(transcription.step(LocalEvent::Begin), LocalAction::CheckModel);
    assert_eq!(transcription.step(LocalEvent::Begin), LocalAction::Ignore);
    assert_eq!(transcription.phase(), LocalPhase::CheckingModel);
}
