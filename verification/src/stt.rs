//! Speech to text: what is sent to the remote speech API and how its answer is read,
//! and the steps by which the local engine transcribes a blob.

use crate::audio_storage::AUDIO_FILE_EXTENSION;
use crate::text::{
    decimal, decimal_text, join_path, join_texts, optional_text, path_in, same_text, text_views,
};
use vstd::prelude::*;
use vstd::string::*;

verus! {

/// Address of the remote speech API.
pub const WHISPER_API_URL: &'static str = "https://api.openai.com/v1/audio/transcriptions";

/// Model that the remote speech API is asked to use.
pub const WHISPER_MODEL: &'static str = "whisper-1";

/// Folder in which the local engine keeps one model file for each language.
pub const MODELS_FOLDER: &'static str = "picovoice_leopard_models";

/// Name of the local engine's library file, in the working directory.
pub const LIBRARY_FILE_NAME: &'static str = "picovoice_leopard_lib.so";

/// Where the local engine's library is fetched from.
pub const LIBRARY_URL: &'static str =
    "https://github.com/Picovoice/leopard/raw/master/lib/linux/x86_64/libpv_leopard.so";

/// Start of the address of every model file.
pub const MODEL_BASE_URL: &'static str =
    "https://github.com/Picovoice/leopard/raw/master/lib/common/leopard_params";

/// The kinds of failure of a transcription. None of them is fatal: each is reported
/// upward, where it counts as a failed attempt.
#[derive(Debug, Clone, Copy, PartialEq, Eq, Structural)]
pub enum TranscribeErrorKind {
    /// The remote speech API failed or refused.
    TranscriptionServiceError,
    /// The model of the language is not there and could not be fetched.
    ModelUnavailable,
    /// The audio could not be written out and repackaged for the engine.
    RepackageFailed,
    /// The local engine failed.
    EngineError,
}

/// A failed transcription: its kind and a message for the log.
#[derive(Debug)]
pub struct TranscribeError {
    pub kind: TranscribeErrorKind,
    pub message: String,
}

/// What is logged for a failure of `kind` of which no more is known.
pub open spec fn plain_message(kind: TranscribeErrorKind) -> Seq<char> {
    match kind {
        TranscribeErrorKind::TranscriptionServiceError => "the speech service failed"@,
        TranscribeErrorKind::ModelUnavailable => "the model could not be fetched"@,
        TranscribeErrorKind::RepackageFailed => "the audio could not be repackaged"@,
        TranscribeErrorKind::EngineError => "the engine failed"@,
    }
}

impl TranscribeError {
    /// The failure of `kind` of which no more is known.
    pub fn of_kind(kind: TranscribeErrorKind) -> (error: TranscribeError)
        ensures
            error.kind == kind,
            error.message@ == plain_message(kind),
    {
        let message = match kind {
            TranscribeErrorKind::TranscriptionServiceError => "the speech service failed",
            TranscribeErrorKind::ModelUnavailable => "the model could not be fetched",
            TranscribeErrorKind::RepackageFailed => "the audio could not be repackaged",
            TranscribeErrorKind::EngineError => "the engine failed",
        };
        TranscribeError { kind, message: String::from_str(message) }
    }
}

/// The outcome of a transcription as plain values: the text, or the kind and the
/// message of the failure.
pub open spec fn outcome_view(outcome: Result<String, TranscribeError>) -> Result<
    Seq<char>,
    (TranscribeErrorKind, Seq<char>),
> {
    match outcome {
        Ok(text) => Ok(text@),
        Err(error) => Err((error.kind, error.message@)),
    }
}

/// The name under which the audio travels: `stem` and the audio file extension.
pub open spec fn audio_name(stem: Seq<char>) -> Seq<char> {
    stem + AUDIO_FILE_EXTENSION@
}

/// The remote speech API as a backend.
#[derive(Debug)]
pub struct WhisperApi {
    openai_api_key: String,
}

/// One request to the remote speech API: a form with the parts `file` (the audio, under
/// `file_name`, `file_length` bytes long), `model` and `language`, posted to `url` with
/// `bearer_token` as authorization.
#[derive(Debug)]
pub struct WhisperRequest {
    pub url: String,
    pub bearer_token: String,
    pub file_name: String,
    pub file_length: u64,
    pub model: String,
    pub language: String,
}

/// What the remote speech API sent back: the status of the answer and the fields `text`
/// and `error` of its body, where they are present; `error` as it is written in the body.
#[derive(Debug)]
pub struct WhisperApiResponse {
    pub status: u16,
    pub text: Option<String>,
    pub error: Option<String>,
}

/// Whether a status stands for success: the range from 200 up to 299.
pub open spec fn is_success_status(status: u16) -> bool {
    200 <= status < 300
}

/// What an answer of the remote speech API means: the text, if the status stands for
/// success and the body has a text; else a failure of the service, with the error that
/// the body names if it names one.
pub open spec fn whisper_outcome(
    status: u16,
    text: Option<Seq<char>>,
    error: Option<Seq<char>>,
) -> Result<Seq<char>, (TranscribeErrorKind, Seq<char>)> {
    if is_success_status(status) && text is Some {
        Ok(text->0)
    } else if error is Some {
        Err(
            (
                TranscribeErrorKind::TranscriptionServiceError,
                "error returned from whisper api: "@ + error->0,
            ),
        )
    } else if is_success_status(status) {
        Err(
            (
                TranscribeErrorKind::TranscriptionServiceError,
                "whisper api did not return text nor error"@,
            ),
        )
    } else {
        Err(
            (
                TranscribeErrorKind::TranscriptionServiceError,
                "whisper api answered with status "@ + decimal_text(status as int),
            ),
        )
    }
}

impl WhisperApi {
    /// A backend that authorizes itself with `openai_api_key`.
    pub fn new(openai_api_key: String) -> (api: WhisperApi)
        ensures
            api.key_view() == openai_api_key@,
    {
        WhisperApi { openai_api_key }
    }

    /// The key that the backend authorizes itself with.
    pub closed spec fn key_view(&self) -> Seq<char> {
        self.openai_api_key@
    }

    /// The request that asks for the transcription, in `language`, of an audio of
    /// `audio_length` bytes.
    pub fn request(&self, language: &str, audio_length: usize) -> (request: WhisperRequest)
        ensures
            request.url@ == WHISPER_API_URL@,
            request.bearer_token@ == self.key_view(),
            request.file_name@ == audio_name("audio"@),
            request.file_length == audio_length,
            request.model@ == WHISPER_MODEL@,
            request.language@ == language@,
    {
        WhisperRequest {
            url: String::from_str(WHISPER_API_URL),
            bearer_token: self.openai_api_key.clone(),
            file_name: join_texts("audio", AUDIO_FILE_EXTENSION),
            file_length: audio_length as u64,
            model: String::from_str(WHISPER_MODEL),
            language: String::from_str(language),
        }
    }

    /// Reads the answer of the remote speech API.
    pub fn transcribe(response: WhisperApiResponse) -> (outcome: Result<String, TranscribeError>)
        ensures
            outcome_view(outcome) == whisper_outcome(
                response.status,
                optional_text(response.text),
                optional_text(response.error),
            ),
    {
        let success = 200 <= response.status && response.status < 300;
        let kind = TranscribeErrorKind::TranscriptionServiceError;
        match (response.text, response.error) {
            (Some(text), error) => {
                if success {
                    Ok(text)
                } else {
                    match error {
                        Some(error) => Err(
                            TranscribeError {
                                kind,
                                message: join_texts("error returned from whisper api: ", error.as_str()),
                            },
                        ),
                        None => Err(
                            TranscribeError {
                                kind,
                                message: join_texts(
                                    "whisper api answered with status ",
                                    decimal(response.status as i32).as_str(),
                                ),
                            },
                        ),
                    }
                }
            },
            (None, Some(error)) => Err(
                TranscribeError {
                    kind,
                    message: join_texts("error returned from whisper api: ", error.as_str()),
                },
            ),
            (None, None) => {
                if success {
                    Err(
                        TranscribeError {
                            kind,
                            message: String::from_str("whisper api did not return text nor error"),
                        },
                    )
                } else {
                    Err(
                        TranscribeError {
                            kind,
                            message: join_texts(
                                "whisper api answered with status ",
                                decimal(response.status as i32).as_str(),
                            ),
                        },
                    )
                }
            },
        }
    }
}

/// The backend for tests: it hears "hello" in every audio.
#[derive(Debug, Clone, Copy)]
pub struct SpeechToTextMock;

impl SpeechToTextMock {
    /// The text "hello", whatever the language.
    pub fn transcribe(&self, language: &str) -> (outcome: Result<String, TranscribeError>)
        ensures
            outcome_view(outcome) == Ok::<Seq<char>, (TranscribeErrorKind, Seq<char>)>("hello"@),
    {
        Ok(String::from_str("hello"))
    }
}

/// Where the model of a language is fetched from: the base address with `.pv` for
/// English, and with an underscore, the language and `.pv` for every other language.
pub open spec fn model_url(language: Seq<char>) -> Seq<char> {
    if language == "en"@ {
        MODEL_BASE_URL@ + ".pv"@
    } else {
        MODEL_BASE_URL@ + "_"@ + language + ".pv"@
    }
}

/// A file to fetch: from `url` into `path`.
#[derive(Debug)]
pub struct Download {
    pub url: String,
    pub path: String,
}

/// One thing to do before the local engine can be used.
#[derive(Debug)]
pub enum SetupStep {
    /// Create the folder at `path`.
    CreateFolder { path: String },
    /// Fetch a file.
    Fetch(Download),
}

/// A setup step with its texts as sequences of characters.
pub enum SetupStepView {
    CreateFolder { path: Seq<char> },
    Fetch { url: Seq<char>, path: Seq<char> },
}

impl View for SetupStep {
    type V = SetupStepView;

    open spec fn view(&self) -> SetupStepView {
        match self {
            SetupStep::CreateFolder { path } => SetupStepView::CreateFolder { path: path@ },
            SetupStep::Fetch(download) => SetupStepView::Fetch {
                url: download.url@,
                path: download.path@,
            },
        }
    }
}

/// The views of setup steps, in order.
pub open spec fn step_views(steps: Seq<SetupStep>) -> Seq<SetupStepView> {
    steps.map_values(|step: SetupStep| step@)
}

/// The fetches for the models that are missing among `languages`, in the order of the
/// languages; `present` says of each language whether its model is there.
pub open spec fn model_fetches(languages: Seq<Seq<char>>, present: Seq<bool>) -> Seq<
    SetupStepView,
>
    decreases languages.len(),
{
    if languages.len() == 0 || present.len() != languages.len() {
        Seq::empty()
    } else {
        let before = model_fetches(languages.drop_last(), present.drop_last());
        if present.last() {
            before
        } else {
            before.push(
                SetupStepView::Fetch {
                    url: model_url(languages.last()),
                    path: path_in(MODELS_FOLDER@, languages.last()),
                },
            )
        }
    }
}

/// All that is to be done before the local engine can be used: the models folder is
/// created if it is missing, then each missing model is fetched, then the library if it
/// is missing. What is there is left alone.
pub open spec fn setup_plan(
    languages: Seq<Seq<char>>,
    folder_exists: bool,
    models_present: Seq<bool>,
    library_path: Seq<char>,
    library_present: bool,
) -> Seq<SetupStepView> {
    let folder = if folder_exists {
        Seq::<SetupStepView>::empty()
    } else {
        seq![SetupStepView::CreateFolder { path: MODELS_FOLDER@ }]
    };
    let library = if library_present {
        Seq::<SetupStepView>::empty()
    } else {
        seq![SetupStepView::Fetch { url: LIBRARY_URL@, path: library_path }]
    };
    folder + model_fetches(languages, models_present) + library
}

/// Setting up is safe to do again: where the folder, every model and the library are
/// there, nothing is done.
pub proof fn lemma_setup_leaves_alone(
    languages: Seq<Seq<char>>,
    models_present: Seq<bool>,
    library_path: Seq<char>,
)
    requires
        models_present.len() == languages.len(),
        forall|i: int| 0 <= i < models_present.len() ==> models_present[i],
    ensures
        setup_plan(languages, true, models_present, library_path, true) == Seq::<
            SetupStepView,
        >::empty(),
{
    lemma_no_fetch_of_present_models(languages, models_present);
    assert(setup_plan(languages, true, models_present, library_path, true) =~= Seq::<
        SetupStepView,
    >::empty());
}

/// No model that is there is fetched.
proof fn lemma_no_fetch_of_present_models(languages: Seq<Seq<char>>, models_present: Seq<bool>)
    requires
        models_present.len() == languages.len(),
        forall|i: int| 0 <= i < models_present.len() ==> models_present[i],
    ensures
        model_fetches(languages, models_present) == Seq::<SetupStepView>::empty(),
    decreases languages.len(),
{
    if languages.len() > 0 {
        lemma_no_fetch_of_present_models(languages.drop_last(), models_present.drop_last());
    }
}

/// The local engine as a backend.
#[derive(Debug)]
pub struct PicovoiceLeopard {
    access_key: String,
    models_folder: String,
    library_path: String,
}

impl PicovoiceLeopard {
    /// The key that gives access to the engine.
    pub closed spec fn access_key_view(&self) -> Seq<char> {
        self.access_key@
    }

    /// The folder of the model files.
    pub closed spec fn models_folder_view(&self) -> Seq<char> {
        self.models_folder@
    }

    /// The path of the engine's library.
    pub closed spec fn library_path_view(&self) -> Seq<char> {
        self.library_path@
    }

    /// The backend for `languages`, and what is to be done before it can be used.
    /// `current_dir` is the working directory, in which the library lies;
    /// `folder_exists`, `models_present` (one for each language) and `library_present`
    /// say what is there already.
    pub fn new_with_languages(
        languages: &Vec<String>,
        access_key: String,
        current_dir: &str,
        folder_exists: bool,
        models_present: &Vec<bool>,
        library_present: bool,
    ) -> (result: (PicovoiceLeopard, Vec<SetupStep>))
        requires
            models_present.len() == languages.len(),
        ensures
            result.0.access_key_view() == access_key@,
            result.0.models_folder_view() == MODELS_FOLDER@,
            result.0.library_path_view() == path_in(current_dir@, LIBRARY_FILE_NAME@),
            step_views(result.1@) == setup_plan(
                text_views(languages@),
                folder_exists,
                models_present@,
                path_in(current_dir@, LIBRARY_FILE_NAME@),
                library_present,
            ),
    {
        let library_path = join_path(current_dir, LIBRARY_FILE_NAME);
        let mut steps: Vec<SetupStep> = Vec::new();
        if !folder_exists {
            steps.push(SetupStep::CreateFolder { path: String::from_str(MODELS_FOLDER) });
        }
        let ghost folder = step_views(steps@);
        proof {
            assert(folder =~= if folder_exists {
                Seq::<SetupStepView>::empty()
            } else {
                seq![SetupStepView::CreateFolder { path: MODELS_FOLDER@ }]
            });
            assert(text_views(languages@.take(0)) =~= Seq::<Seq<char>>::empty());
            assert(step_views(steps@) =~= folder + model_fetches(
                text_views(languages@.take(0)),
                models_present@.take(0),
            ));
        }
        let mut i: usize = 0;
        while i < languages.len()
            invariant
                i <= languages.len(),
                models_present.len() == languages.len(),
                step_views(steps@) == folder + model_fetches(
                    text_views(languages@.take(i as int)),
                    models_present@.take(i as int),
                ),
            decreases languages.len() - i,
        {
            let ghost before = steps@;
            if !models_present[i] {
                steps.push(SetupStep::Fetch(Self::download_model(languages[i].as_str())));
            }
            proof {
                let langs = text_views(languages@.take(i as int + 1));
                let present = models_present@.take(i as int + 1);
                assert(langs.drop_last() =~= text_views(languages@.take(i as int)));
                assert(present.drop_last() =~= models_present@.take(i as int));
                assert(langs.last() == languages@[i as int]@);
                assert(present.last() == models_present@[i as int]);
                if !models_present@[i as int] {
                    assert(steps@ =~= before.push(steps@.last()));
                    assert(step_views(steps@) =~= step_views(before).push(steps@.last()@));
                }
                assert(step_views(steps@) =~= folder + model_fetches(langs, present));
            }
            i = i + 1;
        }
        proof {
            assert(languages@.take(i as int) =~= languages@);
            assert(models_present@.take(i as int) =~= models_present@);
        }
        let ghost with_models = step_views(steps@);
        if !library_present {
            steps.push(
                SetupStep::Fetch(
                    Download { url: String::from_str(LIBRARY_URL), path: library_path.clone() },
                ),
            );
        }
        proof {
            if !library_present {
                assert(step_views(steps@) =~= with_models.push(steps@.last()@));
            }
            assert(step_views(steps@) =~= setup_plan(
                text_views(languages@),
                folder_exists,
                models_present@,
                path_in(current_dir@, LIBRARY_FILE_NAME@),
                library_present,
            ));
        }
        (
            PicovoiceLeopard {
                access_key,
                models_folder: String::from_str(MODELS_FOLDER),
                library_path,
            },
            steps,
        )
    }

    /// The fetch that brings the model of `language` into the models folder.
    pub fn download_model(language: &str) -> (download: Download)
        ensures
            download.url@ == model_url(language@),
            download.path@ == path_in(MODELS_FOLDER@, language@),
    {
        let mut url = String::from_str(MODEL_BASE_URL);
        if !same_text(language, "en") {
            url.append("_");
            url.append(language);
        }
        url.append(".pv");
        proof {
            assert(url@ =~= model_url(language@));
        }
        Download { url, path: join_path(MODELS_FOLDER, language) }
    }

    /// The fetch that brings the engine's library to `path`.
    pub fn download_library(path: &str) -> (download: Download)
        ensures
            download.url@ == LIBRARY_URL@,
            download.path@ == path@,
    {
        Download { url: String::from_str(LIBRARY_URL), path: String::from_str(path) }
    }

    /// The path of the model file of `language`.
    pub fn get_model_path(&self, language: &str) -> (path: String)
        ensures
            path@ == path_in(self.models_folder_view(), language@),
    {
        join_path(self.models_folder.as_str(), language)
    }

    /// The key that gives access to the engine.
    pub fn access_key(&self) -> (access_key: &str)
        ensures
            access_key@ == self.access_key_view(),
    {
        self.access_key.as_str()
    }

    /// The path of the engine's library.
    pub fn library_path(&self) -> (path: &str)
        ensures
            path@ == self.library_path_view(),
    {
        self.library_path.as_str()
    }
}

/// The one interface to speech to text, over the backend that was chosen at start.
#[derive(Debug)]
pub enum SpeechToText {
    Whisper(WhisperApi),
    Leopard(PicovoiceLeopard),
    Mock(SpeechToTextMock),
}

impl SpeechToText {
    /// Whether the backend does its work on this machine and blocks while it does, so
    /// that it has to run off the event loop. Only the local engine does.
    pub fn runs_blocking(&self) -> (blocking: bool)
        ensures
            blocking == (*self is Leopard),
    {
        match self {
            SpeechToText::Leopard(_) => true,
            _ => false,
        }
    }
}

/// Program that repackages the audio.
pub const REPACKAGE_PROGRAM: &'static str = "ffmpeg";

/// The arguments with which the repackaging program reads `input` and writes `output`:
/// the container is built anew and the audio is copied as it is, not encoded again.
pub open spec fn repackage_arguments(input: Seq<char>, output: Seq<char>) -> Seq<Seq<char>> {
    seq!["-i"@, input, "-acodec"@, "copy"@, output]
}

/// Computes the arguments for the repackaging program.
pub fn repackage_command(input: &str, output: &str) -> (arguments: Vec<String>)
    ensures
        text_views(arguments@) == repackage_arguments(input@, output@),
{
    let mut arguments: Vec<String> = Vec::new();
    arguments.push(String::from_str("-i"));
    arguments.push(String::from_str(input));
    arguments.push(String::from_str("-acodec"));
    arguments.push(String::from_str("copy"));
    arguments.push(String::from_str(output));
    proof {
        assert(text_views(arguments@) =~= repackage_arguments(input@, output@));
    }
    arguments
}

/// Name of the file, in the temporary folder, into which the audio is written.
pub fn raw_audio_name() -> (name: String)
    ensures
        name@ == audio_name("audio"@),
{
    join_texts("audio", AUDIO_FILE_EXTENSION)
}

/// Name of the file, in the temporary folder, that the repackaging writes and the
/// engine reads.
pub fn repackaged_audio_name() -> (name: String)
    ensures
        name@ == audio_name("new_audio"@),
{
    join_texts("new_audio", AUDIO_FILE_EXTENSION)
}

/// Where a transcription by the local engine stands.
#[derive(Debug, Clone, Copy, PartialEq, Eq, Structural)]
pub enum LocalPhase {
    /// Nothing has been done yet.
    Start,
    /// It is being looked up whether the model of the language is there.
    CheckingModel,
    /// The model is being fetched.
    FetchingModel,
    /// The temporary folder is being made.
    MakingTempDir,
    /// The audio is being written into the temporary folder.
    WritingAudio,
    /// The audio is being repackaged.
    Repackaging,
    /// The engine is running.
    Transcribing,
    /// The temporary folder is being deleted; `failure` is what went wrong before, if
    /// anything did.
    CleaningUp { failure: Option<TranscribeErrorKind> },
    /// The outcome has been handed out.
    Done,
}

/// What happened outside since the last action of a local transcription.
#[derive(Debug, Clone, Copy, PartialEq, Eq, Structural)]
pub enum LocalEvent {
    /// The transcription is to begin.
    Begin,
    /// The model file was looked up.
    ModelChecked { present: bool },
    /// The fetch of the model ended.
    ModelFetched { ok: bool },
    /// The making of the temporary folder ended.
    TempDirMade { ok: bool },
    /// The writing of the audio ended.
    AudioWritten { ok: bool },
    /// The repackaging ended; `success` is whether the program ran and left with success.
    Repackaged { success: bool },
    /// The engine ended; `ok` is whether it produced a transcript.
    Transcribed { ok: bool },
    /// The deleting of the temporary folder ended.
    CleanedUp { ok: bool },
}

/// What is to be done outside next for a local transcription.
#[derive(Debug, Clone, Copy, PartialEq, Eq, Structural)]
pub enum LocalAction {
    /// Look up whether the model file of the language is there.
    CheckModel,
    /// Fetch the model of the language.
    FetchModel,
    /// Make a temporary folder.
    MakeTempDir,
    /// Write the whole audio stream into the temporary folder.
    WriteAudio,
    /// Run the repackaging program on the audio.
    Repackage,
    /// Run the engine on the repackaged audio, off the event loop.
    RunEngine,
    /// Delete the temporary folder with all that is in it.
    CleanUp,
    /// Hand out the outcome: the transcript that the engine produced, or the failure.
    Return { failure: Option<TranscribeErrorKind> },
    /// The event does not belong to what is in progress: do nothing.
    Ignore,
}

/// The phase that follows, and the action to take, when `event` reaches a local
/// transcription in `phase`.
pub open spec fn local_next(phase: LocalPhase, event: LocalEvent) -> (LocalPhase, LocalAction) {
    match (phase, event) {
        (LocalPhase::Start, LocalEvent::Begin) => (
            LocalPhase::CheckingModel,
            LocalAction::CheckModel,
        ),
        (LocalPhase::CheckingModel, LocalEvent::ModelChecked { present }) => if present {
            (LocalPhase::MakingTempDir, LocalAction::MakeTempDir)
        } else {
            (LocalPhase::FetchingModel, LocalAction::FetchModel)
        },
        (LocalPhase::FetchingModel, LocalEvent::ModelFetched { ok }) => if ok {
            (LocalPhase::MakingTempDir, LocalAction::MakeTempDir)
        } else {
            (
                LocalPhase::Done,
                LocalAction::Return { failure: Some(TranscribeErrorKind::ModelUnavailable) },
            )
        },
        (LocalPhase::MakingTempDir, LocalEvent::TempDirMade { ok }) => if ok {
            (LocalPhase::WritingAudio, LocalAction::WriteAudio)
        } else {
            (
                LocalPhase::Done,
                LocalAction::Return { failure: Some(TranscribeErrorKind::RepackageFailed) },
            )
        },
        (LocalPhase::WritingAudio, LocalEvent::AudioWritten { ok }) => if ok {
            (LocalPhase::Repackaging, LocalAction::Repackage)
        } else {
            (
                LocalPhase::CleaningUp { failure: Some(TranscribeErrorKind::RepackageFailed) },
                LocalAction::CleanUp,
            )
        },
        (LocalPhase::Repackaging, LocalEvent::Repackaged { success }) => if success {
            (LocalPhase::Transcribing, LocalAction::RunEngine)
        } else {
            (
                LocalPhase::CleaningUp { failure: Some(TranscribeErrorKind::RepackageFailed) },
                LocalAction::CleanUp,
            )
        },
        (LocalPhase::Transcribing, LocalEvent::Transcribed { ok }) => if ok {
            (LocalPhase::CleaningUp { failure: None }, LocalAction::CleanUp)
        } else {
            (
                LocalPhase::CleaningUp { failure: Some(TranscribeErrorKind::EngineError) },
                LocalAction::CleanUp,
            )
        },
        (LocalPhase::CleaningUp { failure }, LocalEvent::CleanedUp { ok }) => if failure is None
            && !ok {
            (LocalPhase::Done, LocalAction::Return { failure: Some(TranscribeErrorKind::EngineError) })
        } else {
            (LocalPhase::Done, LocalAction::Return { failure })
        },
        _ => (phase, LocalAction::Ignore),
    }
}

/// The phase after a local transcription has taken in `events`, one after the other.
pub open spec fn local_run(phase: LocalPhase, events: Seq<LocalEvent>) -> LocalPhase
    decreases events.len(),
{
    if events.len() == 0 {
        phase
    } else {
        local_run(local_next(phase, events[0]).0, events.drop_first())
    }
}

/// The action handed out for the event at `index`, after the events before it.
pub open spec fn local_action_at(phase: LocalPhase, events: Seq<LocalEvent>, index: int) -> LocalAction {
    local_next(local_run(phase, events.take(index)), events[index]).1
}

/// Whether the temporary folder is there and its deletion has not been asked for.
pub open spec fn holds_temp_dir(phase: LocalPhase) -> bool {
    phase is WritingAudio || phase is Repackaging || phase is Transcribing
}

/// The temporary folder is deleted whatever happens: once it is made, no outcome is
/// handed out, success or failure, before the deletion has been asked for.
pub proof fn lemma_cleanup_before_return(phase: LocalPhase, events: Seq<LocalEvent>, index: int)
    requires
        holds_temp_dir(phase),
        0 <= index < events.len(),
        local_action_at(phase, events, index) is Return,
    ensures
        exists|k: int| 0 <= k < index && #[trigger] local_action_at(phase, events, k) is CleanUp,
    decreases events.len(),
{
    let after = local_next(phase, events[0]).0;
    assert(events.take(0) =~= Seq::<LocalEvent>::empty());
    if index > 0 {
        assert(events.take(index).drop_first() =~= events.drop_first().take(index - 1));
        assert(local_action_at(phase, events, index) == local_action_at(
            after,
            events.drop_first(),
            index - 1,
        ));
        if holds_temp_dir(after) {
            lemma_cleanup_before_return(after, events.drop_first(), index - 1);
            let k = choose|k: int|
                0 <= k < index - 1 && #[trigger] local_action_at(after, events.drop_first(), k)
                    is CleanUp;
            assert(events.take(k + 1).drop_first() =~= events.drop_first().take(k));
            assert(local_action_at(phase, events, k + 1) == local_action_at(
                after,
                events.drop_first(),
                k,
            ));
        } else {
            assert(local_action_at(phase, events, 0) is CleanUp);
        }
    }
}

/// A transcription by the local engine, step by step.
#[derive(Debug)]
pub struct LocalTranscription {
    phase: LocalPhase,
}

impl View for LocalTranscription {
    type V = LocalPhase;

    closed spec fn view(&self) -> LocalPhase {
        self.phase
    }
}

impl LocalTranscription {
    /// A transcription of which nothing has been done yet.
    pub fn new() -> (transcription: LocalTranscription)
        ensures
            transcription@ == LocalPhase::Start,
    {
        LocalTranscription { phase: LocalPhase::Start }
    }

    /// Where the transcription stands.
    pub fn phase(&self) -> (phase: LocalPhase)
        ensures
            phase == self@,
    {
        self.phase
    }

    /// Takes in what happened and says what to do next.
    pub fn step(&mut self, event: LocalEvent) -> (action: LocalAction)
        ensures
            (final(self)@, action) == local_next(old(self)@, event),
    {
        let (phase, action) = match (self.phase, event) {
            (LocalPhase::Start, LocalEvent::Begin) => (
                LocalPhase::CheckingModel,
                LocalAction::CheckModel,
            ),
            (LocalPhase::CheckingModel, LocalEvent::ModelChecked { present: true })
            | (LocalPhase::FetchingModel, LocalEvent::ModelFetched { ok: true }) => (
                LocalPhase::MakingTempDir,
                LocalAction::MakeTempDir,
            ),
            (LocalPhase::CheckingModel, LocalEvent::ModelChecked { present: false }) => (
                LocalPhase::FetchingModel,
                LocalAction::FetchModel,
            ),
            (LocalPhase::FetchingModel, LocalEvent::ModelFetched { ok: false }) => (
                LocalPhase::Done,
                LocalAction::Return { failure: Some(TranscribeErrorKind::ModelUnavailable) },
            ),
            (LocalPhase::MakingTempDir, LocalEvent::TempDirMade { ok: true }) => (
                LocalPhase::WritingAudio,
                LocalAction::WriteAudio,
            ),
            (LocalPhase::MakingTempDir, LocalEvent::TempDirMade { ok: false }) => (
                LocalPhase::Done,
                LocalAction::Return { failure: Some(TranscribeErrorKind::RepackageFailed) },
            ),
            (LocalPhase::WritingAudio, LocalEvent::AudioWritten { ok: true }) => (
                LocalPhase::Repackaging,
                LocalAction::Repackage,
            ),
            (LocalPhase::Repackaging, LocalEvent::Repackaged { success: true }) => (
                LocalPhase::Transcribing,
                LocalAction::RunEngine,
            ),
            (LocalPhase::WritingAudio, LocalEvent::AudioWritten { ok: false })
            | (LocalPhase::Repackaging, LocalEvent::Repackaged { success: false }) => (
                LocalPhase::CleaningUp { failure: Some(TranscribeErrorKind::RepackageFailed) },
                LocalAction::CleanUp,
            ),
            (LocalPhase::Transcribing, LocalEvent::Transcribed { ok: true }) => (
                LocalPhase::CleaningUp { failure: None },
                LocalAction::CleanUp,
            ),
            (LocalPhase::Transcribing, LocalEvent::Transcribed { ok: false }) => (
                LocalPhase::CleaningUp { failure: Some(TranscribeErrorKind::EngineError) },
                LocalAction::CleanUp,
            ),
            (LocalPhase::CleaningUp { failure: None }, LocalEvent::CleanedUp { ok: false }) => (
                LocalPhase::Done,
                LocalAction::Return { failure: Some(TranscribeErrorKind::EngineError) },
            ),
            (LocalPhase::CleaningUp { failure }, LocalEvent::CleanedUp { .. }) => (
                LocalPhase::Done,
                LocalAction::Return { failure },
            ),
            (phase, _) => (phase, LocalAction::Ignore),
        };
        self.phase = phase;
        action
    }
}

} // verus!
