//! The configuration of the service, read once at start from the environment, and
//! the backends that it selects.

use crate::audio_storage::{AudioStorage, AzureAudioStorage, LocalAudioStorage};
use crate::stt::WhisperApi;
use crate::text::{optional_text, same_text};
use vstd::prelude::*;
use vstd::string::*;

verus! {

/// The settings of the service.
#[derive(Debug)]
pub struct Config {
    pub database_url: String,
    pub jwt_secret: String,
    pub allowed_origin: String,
    pub smtp_from: String,
    pub smtp_username: String,
    pub smtp_password: String,
    pub smtp_relay: String,
    pub password_reset_link: String,
    pub azure_storage_account: Option<String>,
    pub azure_storage_access_key: Option<String>,
    pub azure_storage_container: Option<String>,
    pub openai_api_key: Option<String>,
    pub picovoice_access_key: Option<String>,
}

/// Why the settings cannot be used.
#[derive(Debug)]
pub enum ConfigError {
    /// A variable that must be set is not.
    MissingVariable { name: String },
    /// A storage account is named, but its access key or its container is not.
    IncompleteAzureSettings,
    /// Neither the key of the remote speech API nor that of the local engine is set.
    NoSpeechBackend,
}

/// The speech-to-text backend that the settings select.
#[derive(Debug)]
pub enum SpeechToTextChoice {
    /// The remote speech API.
    Whisper(WhisperApi),
    /// The local engine, with the key that gives access to it.
    Leopard { access_key: String },
}

/// The variables of an environment as plain values: names with their values.
pub open spec fn variable_views(vars: Seq<(String, String)>) -> Seq<(Seq<char>, Seq<char>)> {
    vars.map_values(|var: (String, String)| (var.0@, var.1@))
}

/// The value of the variable `name`: that of the first variable of this name.
pub open spec fn lookup(vars: Seq<(Seq<char>, Seq<char>)>, name: Seq<char>) -> Option<Seq<char>>
    decreases vars.len(),
{
    if vars.len() == 0 {
        None
    } else if vars[0].0 == name {
        Some(vars[0].1)
    } else {
        lookup(vars.drop_first(), name)
    }
}

/// The names of the variables that must be set, in the order in which they are read.
pub open spec fn required_names() -> Seq<Seq<char>> {
    seq![
        "DATABASE_URL"@,
        "JWT_SECRET"@,
        "ALLOWED_ORIGIN"@,
        "SMTP_FROM"@,
        "SMTP_USERNAME"@,
        "SMTP_PASSWORD"@,
        "SMTP_RELAY"@,
        "PASSWORD_RESET_LINK"@,
    ]
}

/// The first name among `names`, from `from` on, that `vars` does not set.
pub open spec fn first_missing(vars: Seq<(Seq<char>, Seq<char>)>, names: Seq<Seq<char>>, from: int) -> Option<
    Seq<char>,
>
    decreases names.len() - from,
{
    if from < 0 || from >= names.len() {
        None
    } else if lookup(vars, names[from]) is None {
        Some(names[from])
    } else {
        first_missing(vars, names, from + 1)
    }
}

/// Whether `config` holds what `vars` set.
pub open spec fn config_reads(config: Config, vars: Seq<(Seq<char>, Seq<char>)>) -> bool {
    &&& Some(config.database_url@) == lookup(vars, "DATABASE_URL"@)
    &&& Some(config.jwt_secret@) == lookup(vars, "JWT_SECRET"@)
    &&& Some(config.allowed_origin@) == lookup(vars, "ALLOWED_ORIGIN"@)
    &&& Some(config.smtp_from@) == lookup(vars, "SMTP_FROM"@)
    &&& Some(config.smtp_username@) == lookup(vars, "SMTP_USERNAME"@)
    &&& Some(config.smtp_password@) == lookup(vars, "SMTP_PASSWORD"@)
    &&& Some(config.smtp_relay@) == lookup(vars, "SMTP_RELAY"@)
    &&& Some(config.password_reset_link@) == lookup(vars, "PASSWORD_RESET_LINK"@)
    &&& optional_text(config.azure_storage_account) == lookup(vars, "AZURE_STORAGE_ACCOUNT"@)
    &&& optional_text(config.azure_storage_access_key) == lookup(vars, "AZURE_STORAGE_ACCESS_KEY"@)
    &&& optional_text(config.azure_storage_container) == lookup(vars, "AZURE_STORAGE_CONTAINER"@)
    &&& optional_text(config.openai_api_key) == lookup(vars, "OPENAI_API_KEY"@)
    &&& optional_text(config.picovoice_access_key) == lookup(vars, "PICOVOICE_ACCESS_KEY"@)
}

/// Finds the value of a variable.
fn find(vars: &Vec<(String, String)>, name: &str) -> (value: Option<String>)
    ensures
        optional_text(value) == lookup(variable_views(vars@), name@),
{
    let mut i: usize = 0;
    proof {
        assert(variable_views(vars@).skip(0) =~= variable_views(vars@));
    }
    while i < vars.len()
        invariant
            i <= vars.len(),
            lookup(variable_views(vars@), name@) == lookup(
                variable_views(vars@).skip(i as int),
                name@,
            ),
        decreases vars.len() - i,
    {
        let ghost rest = variable_views(vars@).skip(i as int);
        proof {
            assert(rest[0] == (vars@[i as int].0@, vars@[i as int].1@));
            assert(rest.drop_first() =~= variable_views(vars@).skip(i as int + 1));
        }
        if same_text(vars[i].0.as_str(), name) {
            return Some(vars[i].1.clone());
        }
        i = i + 1;
    }
    proof {
        assert(variable_views(vars@).skip(i as int).len() == 0);
    }
    None
}

/// Finds the value of a variable that must be set.
fn require(vars: &Vec<(String, String)>, name: &str) -> (value: Result<String, ConfigError>)
    ensures
        match lookup(variable_views(vars@), name@) {
            Some(found) => value is Ok && value->Ok_0@ == found,
            None => value matches Err(ConfigError::MissingVariable { name: missing }) && missing@
                == name@,
        },
{
    match find(vars, name) {
        Some(value) => Ok(value),
        None => Err(ConfigError::MissingVariable { name: String::from_str(name) }),
    }
}

impl Config {
    /// Reads the settings from the variables of the environment. Every required
    /// variable must be set; the first that is not, in the order in which they are
    /// read, is reported. The other variables may be missing.
    pub fn new(vars: &Vec<(String, String)>) -> (result: Result<Config, ConfigError>)
        ensures
            match first_missing(variable_views(vars@), required_names(), 0) {
                None => result is Ok && config_reads(result->Ok_0, variable_views(vars@)),
                Some(name) => result matches Err(ConfigError::MissingVariable { name: missing })
                    && missing@ == name,
            },
    {
        proof {
            reveal_with_fuel(first_missing, 9);
        }
        let database_url = match require(vars, "DATABASE_URL") {
            Ok(value) => value,
            Err(error) => return Err(error),
        };
        let jwt_secret = match require(vars, "JWT_SECRET") {
            Ok(value) => value,
            Err(error) => return Err(error),
        };
        let allowed_origin = match require(vars, "ALLOWED_ORIGIN") {
            Ok(value) => value,
            Err(error) => return Err(error),
        };
        let smtp_from = match require(vars, "SMTP_FROM") {
            Ok(value) => value,
            Err(error) => return Err(error),
        };
        let smtp_username = match require(vars, "SMTP_USERNAME") {
            Ok(value) => value,
            Err(error) => return Err(error),
        };
        let smtp_password = match require(vars, "SMTP_PASSWORD") {
            Ok(value) => value,
            Err(error) => return Err(error),
        };
        let smtp_relay = match require(vars, "SMTP_RELAY") {
            Ok(value) => value,
            Err(error) => return Err(error),
        };
        let password_reset_link = match require(vars, "PASSWORD_RESET_LINK") {
            Ok(value) => value,
            Err(error) => return Err(error),
        };
        Ok(
            Config {
                database_url,
                jwt_secret,
                allowed_origin,
                smtp_from,
                smtp_username,
                smtp_password,
                smtp_relay,
                password_reset_link,
                azure_storage_account: find(vars, "AZURE_STORAGE_ACCOUNT"),
                azure_storage_access_key: find(vars, "AZURE_STORAGE_ACCESS_KEY"),
                azure_storage_container: find(vars, "AZURE_STORAGE_CONTAINER"),
                openai_api_key: find(vars, "OPENAI_API_KEY"),
                picovoice_access_key: find(vars, "PICOVOICE_ACCESS_KEY"),
            },
        )
    }

    /// The storage backend that the settings select: the remote one where a storage
    /// account is named, which then needs its access key and its container; else the
    /// local one.
    pub fn audio_storage(&self) -> (result: Result<AudioStorage, ConfigError>)
        ensures
            match self.azure_storage_account {
                None => result is Ok && result->Ok_0 is Local,
                Some(account) => if self.azure_storage_access_key is Some
                    && self.azure_storage_container is Some {
                    &&& result matches Ok(AudioStorage::Azure(azure))
                    &&& azure.account_view() == account@
                    &&& azure.access_key_view() == self.azure_storage_access_key->0@
                    &&& azure.container_view() == self.azure_storage_container->0@
                } else {
                    result is Err && result->Err_0 is IncompleteAzureSettings
                },
            },
    {
        match &self.azure_storage_account {
            None => Ok(AudioStorage::Local(LocalAudioStorage)),
            Some(account) => match (&self.azure_storage_access_key, &self.azure_storage_container) {
                (Some(access_key), Some(container)) => Ok(
                    AudioStorage::Azure(
                        AzureAudioStorage::new(
                            account.as_str(),
                            access_key.as_str(),
                            container.as_str(),
                        ),
                    ),
                ),
                _ => Err(ConfigError::IncompleteAzureSettings),
            },
        }
    }

    /// The speech-to-text backend that the settings select: the remote speech API where
    /// its key is set; else the local engine, which needs its key.
    pub fn speech_to_text(&self) -> (result: Result<SpeechToTextChoice, ConfigError>)
        ensures
            match (self.openai_api_key, self.picovoice_access_key) {
                (Some(key), _) => result matches Ok(SpeechToTextChoice::Whisper(api))
                    && api.key_view() == key@,
                (None, Some(key)) => result matches Ok(SpeechToTextChoice::Leopard { access_key })
                    && access_key@ == key@,
                (None, None) => result is Err && result->Err_0 is NoSpeechBackend,
            },
    {
        match (&self.openai_api_key, &self.picovoice_access_key) {
            (Some(key), _) => Ok(SpeechToTextChoice::Whisper(WhisperApi::new(key.clone()))),
            (None, Some(key)) => Ok(SpeechToTextChoice::Leopard { access_key: key.clone() }),
            (None, None) => Err(ConfigError::NoSpeechBackend),
        }
    }
}

} // verus!
