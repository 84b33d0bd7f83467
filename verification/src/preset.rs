//! Presets: what the user wants tunnelled, and how.
use vstd::prelude::*;

use crate::text::{self, clone_opt, join};

verus! {

/// A tunnel that the user can start.
#[derive(Debug)]
pub struct Preset {
    /// What tells this preset from the others.
    pub id: String,
    /// What the user calls it.
    pub name: String,
    /// The local port that is made public.
    pub port: u16,
    /// The private key to log in with, if not the default one.
    pub ssh_key_path: Option<String>,
    /// The subdomain that the user asks for.
    pub custom_subdomain: Option<String>,
}

/// The mathematical value of a [`Preset`].
pub struct PresetView {
    pub id: Seq<char>,
    pub name: Seq<char>,
    pub port: u16,
    pub ssh_key_path: Option<Seq<char>>,
    pub custom_subdomain: Option<Seq<char>>,
}

impl View for Preset {
    type V = PresetView;

    open spec fn view(&self) -> PresetView {
        PresetView {
            id: self.id@,
            name: self.name@,
            port: self.port,
            ssh_key_path: text::opt_text(self.ssh_key_path),
            custom_subdomain: text::opt_text(self.custom_subdomain),
        }
    }
}

impl Clone for Preset {
    fn clone(&self) -> (r: Self)
        ensures
            r@ == self@,
    {
        Preset {
            id: self.id.clone(),
            name: self.name.clone(),
            port: self.port,
            ssh_key_path: clone_opt(&self.ssh_key_path),
            custom_subdomain: clone_opt(&self.custom_subdomain),
        }
    }
}

/// The name of the file that presets are kept in, inside the configuration directory.
pub const PRESETS_FILE: &'static str = "presets.json";

/// A preset with the default key and no wish for a subdomain.
pub open spec fn plain_preset(id: Seq<char>, name: Seq<char>, port: u16) -> PresetView {
    PresetView { id, name, port, ssh_key_path: None, custom_subdomain: None }
}

/// The presets of a user who has saved none yet.
pub open spec fn initial_presets() -> Seq<PresetView> {
    seq![
        plain_preset("7a8b9c1d-2e3f-4a5b-6c7d-8e9f0a1b2c3d"@, "Next.js Frontend"@, 3000),
        plain_preset("8a9b0c1d-2e3f-4a5b-6c7d-8e9f0a1b2c3d"@, "FastAPI Backend"@, 8000),
    ]
}

/// The mathematical values of a list of presets.
pub open spec fn views(presets: Seq<Preset>) -> Seq<PresetView> {
    presets.map_values(|p: Preset| p@)
}

/// The presets of a user who has saved none yet.
pub fn default_presets() -> (r: Vec<Preset>)
    ensures
        views(r@) == initial_presets(),
{
    let first = Preset {
        id: "7a8b9c1d-2e3f-4a5b-6c7d-8e9f0a1b2c3d".to_string(),
        name: "Next.js Frontend".to_string(),
        port: 3000,
        ssh_key_path: None,
        custom_subdomain: None,
    };
    let second = Preset {
        id: "8a9b0c1d-2e3f-4a5b-6c7d-8e9f0a1b2c3d".to_string(),
        name: "FastAPI Backend".to_string(),
        port: 8000,
        ssh_key_path: None,
        custom_subdomain: None,
    };
    let mut r: Vec<Preset> = Vec::new();
    r.push(first);
    r.push(second);
    assert(views(r@) =~= initial_presets());
    r
}

/// The initial presets can be told apart.
pub proof fn lemma_initial_ids_differ(i: int, j: int)
    requires
        0 <= i < j < initial_presets().len(),
    ensures
        initial_presets()[i].id != initial_presets()[j].id,
{
    reveal_strlit("7a8b9c1d-2e3f-4a5b-6c7d-8e9f0a1b2c3d");
    reveal_strlit("8a9b0c1d-2e3f-4a5b-6c7d-8e9f0a1b2c3d");
    assert(initial_presets()[0].id[0] != initial_presets()[1].id[0]);
}

/// What went wrong with the presets file, each with the system's own words.
#[derive(Debug)]
pub enum PresetsError {
    /// The configuration directory is not known.
    ConfigPath(String),
    /// The configuration directory cannot be made.
    CreateDir(String),
    /// The file cannot be read.
    Read(String),
    /// The file does not hold presets.
    Parse(String),
    /// The presets cannot be written down.
    Serialize(String),
    /// The file cannot be written.
    Write(String),
}

impl PresetsError {
    /// What the user is told.
    pub open spec fn text(self) -> Seq<char> {
        match self {
            PresetsError::ConfigPath(why) => "Не удалось получить путь конфигурации: "@ + why@,
            PresetsError::CreateDir(why) => "Не удалось создать директорию конфигурации: "@ + why@,
            PresetsError::Read(why) => "Ошибка чтения файла пресетов: "@ + why@,
            PresetsError::Parse(why) => "Ошибка парсинга пресетов: "@ + why@,
            PresetsError::Serialize(why) => "Ошибка сериализации пресетов: "@ + why@,
            PresetsError::Write(why) => "Ошибка записи файла пресетов: "@ + why@,
        }
    }

    /// What the user is told.
    pub fn message(&self) -> (r: String)
        ensures
            r@ == self.text(),
    {
        match self {
            PresetsError::ConfigPath(why) => join("Не удалось получить путь конфигурации: ", why),
            PresetsError::CreateDir(why) => join(
                "Не удалось создать директорию конфигурации: ",
                why,
            ),
            PresetsError::Read(why) => join("Ошибка чтения файла пресетов: ", why),
            PresetsError::Parse(why) => join("Ошибка парсинга пресетов: ", why),
            PresetsError::Serialize(why) => join("Ошибка сериализации пресетов: ", why),
            PresetsError::Write(why) => join("Ошибка записи файла пресетов: ", why),
        }
    }
}

/// What the attempt to load the presets file came to.
#[derive(Debug)]
pub enum StoredPresets {
    /// There is no such file.
    Missing,
    /// The file holds these presets.
    Loaded(Vec<Preset>),
    /// The presets cannot be had.
    Failed(PresetsError),
}

/// The presets to show: those of the file, or the initial ones where there is no file yet; or
/// what the user is told where the file cannot be used.
pub fn get_presets(stored: StoredPresets) -> (r: Result<Vec<Preset>, String>)
    ensures
        match stored {
            StoredPresets::Missing => r matches Ok(presets) && views(presets@)
                == initial_presets(),
            StoredPresets::Loaded(presets) => r == Ok::<Vec<Preset>, String>(presets),
            StoredPresets::Failed(error) => r matches Err(message) && message@ == error.text(),
        },
{
    match stored {
        StoredPresets::Missing => Ok(default_presets()),
        StoredPresets::Loaded(presets) => Ok(presets),
        StoredPresets::Failed(error) => Err(error.message()),
    }
}

/// What the user is told of an error ends with the system's own words, and starts with words that
/// tell what failed.
pub proof fn lemma_error_texts(why: String)
    ensures
        PresetsError::ConfigPath(why).text() == "Не удалось получить путь конфигурации: "@ + why@,
        PresetsError::CreateDir(why).text() == "Не удалось создать директорию конфигурации: "@
            + why@,
        PresetsError::Read(why).text() == "Ошибка чтения файла пресетов: "@ + why@,
        PresetsError::Parse(why).text() == "Ошибка парсинга пресетов: "@ + why@,
        PresetsError::Serialize(why).text() == "Ошибка сериализации пресетов: "@ + why@,
        PresetsError::Write(why).text() == "Ошибка записи файла пресетов: "@ + why@,
{
}

/// The value of a preset holds all of its fields, and the value of a list all of its presets.
pub proof fn lemma_preset_values(preset: Preset, presets: Seq<Preset>)
    ensures
        preset@.id == preset.id@,
        preset@.name == preset.name@,
        preset@.port == preset.port,
        preset@.ssh_key_path is Some <==> preset.ssh_key_path is Some,
        preset.ssh_key_path matches Some(path) ==> preset@.ssh_key_path == Some(path@),
        preset@.custom_subdomain is Some <==> preset.custom_subdomain is Some,
        preset.custom_subdomain matches Some(name) ==> preset@.custom_subdomain == Some(name@),
        views(presets).len() == presets.len(),
        forall|i: int| 0 <= i < presets.len() ==> #[trigger] views(presets)[i] == presets[i]@,
{
}

/// A user who has saved no presets is offered a frontend and a backend, each on the port that its
/// framework uses, with the default key and no wish for a subdomain.
pub proof fn lemma_initial_presets()
    ensures
        initial_presets().len() == 2,
        initial_presets()[0].id == "7a8b9c1d-2e3f-4a5b-6c7d-8e9f0a1b2c3d"@,
        initial_presets()[0].name == "Next.js Frontend"@,
        initial_presets()[0].port == 3000,
        initial_presets()[1].id == "8a9b0c1d-2e3f-4a5b-6c7d-8e9f0a1b2c3d"@,
        initial_presets()[1].name == "FastAPI Backend"@,
        initial_presets()[1].port == 8000,
        forall|i: int|
            0 <= i < 2 ==> (#[trigger] initial_presets()[i]).ssh_key_path is None
                && initial_presets()[i].custom_subdomain is None,
{
}

/// The presets are kept in a file of this name.
pub proof fn lemma_file_name()
    ensures
        PRESETS_FILE@ == "presets.json"@,
{
}

} // verus!
