use tunnelhunt::notice::{greet, notification, open_url_error};
use tunnelhunt::paths::{home_dir, key_dialog_start, KeyDialogStart};
use tunnelhunt::preset::{default_presets, get_presets, Preset, PresetsError, StoredPresets, PRESETS_FILE};
use tunnelhunt::ssh::{get_default_host_port, ssh_arguments};

fn preset(key: Option<&str>) -> Preset {
    Preset {
        id: "p1".to_string(),
        name: "Web".to_string(),
        port: 3000,
        ssh_key_path: key.map(|k| k.to_string()),
        custom_subdomain: Some("mine".to_string()),
    }
}

#[test]
fn initial_presets() {
    let presets = default_presets();
    assert_eq!(presets.len(), 2);
    assert_eq!(presets[0].id, "7a8b9c1d-2e3f-4a5b-6c7d-8e9f0a1b2c3d");
    assert_eq!(presets[0].name, "Next.js Frontend");
    assert_eq!(presets[0].port, 3000);
    assert_eq!(presets[0].ssh_key_path, None);
    assert_eq!(presets[0].custom_subdomain, None);
    assert_eq!(presets[1].id, "8a9b0c1d-2e3f-4a5b-6c7d-8e9f0a1b2c3d");
    assert_eq!(presets[1].name, "FastAPI Backend");
    assert_eq!(presets[1].port, 8000);
    assert_eq!(presets[1].ssh_key_path, None);
    assert_eq!(presets[1].custom_subdomain, None);
    assert_ne!(presets[0].id, presets[1].id);
    assert_eq!(PRESETS_FILE, "presets.json");
}

#[test]
fn missing_file_gives_the_initial_presets() {
    let presets = get_presets(StoredPresets::Missing).unwrap();
    assert_eq!(presets.len(), 2);
    assert_eq!(presets[1].port, 8000);
}

#[test]
fn loaded_presets_are_kept() {
    let presets = get_presets(StoredPresets::Loaded(vec![preset(Some("/k"))])).unwrap();
    assert_eq!(presets.len(), 1);
    assert_eq!(presets[0].id, "p1");
    assert_eq!(presets[0].ssh_key_path, Some("/k".to_string()));
    assert!(get_presets(StoredPresets::Loaded(vec![])).unwrap().is_empty());
}

#[test]
fn every_error_has_its_message() {
    let why = || "нет".to_string();
    let cases = vec![
        (PresetsError::ConfigPath(why()), "Не удалось получить путь конфигурации: нет"),
        (PresetsError::CreateDir(why()), "Не удалось создать директорию конфигурации: нет"),
        (PresetsError::Read(why()), "Ошибка чтения файла пресетов: нет"),
        (PresetsError::Parse(why()), "Ошибка парсинга пресетов: нет"),
        (PresetsError::Serialize(why()), "Ошибка сериализации пресетов: нет"),
        (PresetsError::Write(why()), "Ошибка записи файла пресетов: нет"),
    ];
    for (error, message) in cases {
        assert_eq!(error.message(), message);
        assert_eq!(get_presets(StoredPresets::Failed(error)).unwrap_err(), message);
    }
}

#[test]
fn a_cloned_preset_is_the_same() {
    let a = preset(Some("/home/u/.ssh/id"));
    let b = a.clone();
    assert_eq!(format!("{:?}", a), format!("{:?}", b));
}

#[test]
fn arguments_without_a_key() {
    assert_eq!(
        ssh_arguments(&preset(None), "tunnelhunt.ru", 2222),
        vec![
            "-tt", "-p", "2222", "-o", "StrictHostKeyChecking=accept-new", "-o", "BatchMode=yes", "-R",
            "80:localhost:3000", "tunnelhunt.ru",
        ]
    );
}

#[test]
fn arguments_with_a_key() {
    assert_eq!(
        ssh_arguments(&preset(Some("/home/u/ключ")), "localhost", 22),
        vec![
            "-tt", "-p", "22", "-o", "StrictHostKeyChecking=accept-new", "-o", "BatchMode=yes", "-i", "/home/u/ключ",
            "-R", "80:localhost:3000", "localhost",
        ]
    );
}

#[test]
fn defaults_for_server_and_port() {
    assert_eq!(get_default_host_port(None, None, true), ("localhost".to_string(), 2222));
    assert_eq!(get_default_host_port(None, None, false), ("tunnelhunt.ru".to_string(), 2222));
}

#[test]
fn environment_names_server_and_port() {
    let host = Some("example.org".to_string());
    assert_eq!(
        get_default_host_port(host.clone(), Some("2022".to_string()), true),
        ("example.org".to_string(), 2022)
    );
    assert_eq!(
        get_default_host_port(host.clone(), Some("70000".to_string()), false),
        ("example.org".to_string(), 2222)
    );
    assert_eq!(
        get_default_host_port(Some(String::new()), Some("port".to_string()), false),
        (String::new(), 2222)
    );
}

#[test]
fn home_comes_before_the_profile() {
    assert_eq!(home_dir(Some("/h"), Some("/p")), Some("/h"));
    assert_eq!(home_dir(None, Some("/p")), Some("/p"));
    assert_eq!(home_dir(Some("/h"), None), Some("/h"));
    assert_eq!(home_dir::<&str>(None, None), None);
}

#[test]
fn key_dialog_starts_where_keys_are() {
    assert_eq!(key_dialog_start(true, true), KeyDialogStart::SshDirectory);
    assert_eq!(key_dialog_start(true, false), KeyDialogStart::Home);
    assert_eq!(key_dialog_start(false, false), KeyDialogStart::Anywhere);
    assert_eq!(key_dialog_start(false, true), KeyDialogStart::Anywhere);
}

#[test]
fn texts_for_the_user() {
    assert_eq!(greet("Мир"), "Hello, Мир! You've been greeted from Rust!");
    assert_eq!(open_url_error("no handler"), "Ошибка открытия ссылки: no handler");
    let n = notification("Web", "тело");
    assert_eq!(n.title, "Tunnelhunt: Web");
    assert_eq!(n.body, "тело");
}
