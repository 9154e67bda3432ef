use tagvox::anon::{anon_step, AnonAction, AnonEvent, AnonSettingsRow, AnonState};
use tagvox::error::ErrorStatus;
use tagvox::guilds::{
    anon_settings_response, check_anon_settings, listing, parse_guild_id, role_is_listed,
    AnonSettingsInput, Candidate,
};
use tagvox::json::{roles_from_json, roles_to_json};
use tagvox::sounds::{
    already_exists_error, check_served_name, check_upload_size, content_type_for,
    has_allowed_extension, missing_file_field_error, not_found_error, sanitize_filename,
    modified_at_text, sound_listing, upload_field_decision, upload_step, FieldDecision, SoundEntry, UploadAction,
    UploadEvent, UploadState, MAX_UPLOAD_BYTES,
};

fn s(x: &str) -> String {
    x.to_string()
}

#[test]
fn sound_file_names_are_sanitized() {
    assert_eq!(sanitize_filename("  song.mp3 ").unwrap(), "song.mp3");
    let e = sanitize_filename("   ").unwrap_err();
    assert_eq!(e.status, ErrorStatus::BadRequest);
    assert_eq!(e.message, "Имя файла не может быть пустым");
    for bad in ["a/b.mp3", "a\\b.mp3", "..", "x..y.mp3", "../etc/passwd"] {
        assert_eq!(sanitize_filename(bad).unwrap_err().message, "Некорректное имя файла");
    }
}

#[test]
fn allowed_extensions_in_any_case() {
    assert!(has_allowed_extension("a.mp3"));
    assert!(has_allowed_extension("b.OGG"));
    assert!(has_allowed_extension("c.Wav"));
    assert!(has_allowed_extension("d.flac"));
    assert!(!has_allowed_extension("e.txt"));
    assert!(!has_allowed_extension("mp3"));
    assert!(!has_allowed_extension(".mp3"));
    assert!(!has_allowed_extension("f."));
}

#[test]
fn content_types_by_extension() {
    assert_eq!(content_type_for("a.mp3"), "audio/mpeg");
    assert_eq!(content_type_for("a.OGG"), "audio/ogg");
    assert_eq!(content_type_for("a.wav"), "audio/wav");
    assert_eq!(content_type_for("a.flac"), "audio/flac");
    assert_eq!(content_type_for("a.bin"), "application/octet-stream");
    assert_eq!(content_type_for("noext"), "application/octet-stream");
}

#[test]
fn upload_field_decisions() {
    assert!(matches!(upload_field_decision(Some("other"), Some("a.mp3")), FieldDecision::Skip));
    assert!(matches!(upload_field_decision(None, Some("a.mp3")), FieldDecision::Skip));
    match upload_field_decision(Some("file"), Some(" a.mp3 ")) {
        FieldDecision::Accept(n) => assert_eq!(n, "a.mp3"),
        _ => panic!("expected acceptance"),
    }
    match upload_field_decision(Some("file"), None) {
        FieldDecision::Reject(e) => assert_eq!(e.message, "Не указано имя файла"),
        _ => panic!("expected a refusal"),
    }
    match upload_field_decision(Some("file"), Some("a.exe")) {
        FieldDecision::Reject(e) => assert_eq!(e.message, "Неподдерживаемый формат. Разрешены: mp3, ogg, wav, flac"),
        _ => panic!("expected a refusal"),
    }
    match upload_field_decision(Some("file"), Some("../a.mp3")) {
        FieldDecision::Reject(e) => assert_eq!(e.message, "Некорректное имя файла"),
        _ => panic!("expected a refusal"),
    }
}

#[test]
fn upload_sizes_and_errors() {
    assert_eq!(MAX_UPLOAD_BYTES, 50 * 1024 * 1024);
    assert_eq!(check_upload_size(0).unwrap_err().message, "Файл пустой");
    assert!(check_upload_size(1).is_ok());
    assert!(check_upload_size(MAX_UPLOAD_BYTES).is_ok());
    assert_eq!(
        check_upload_size(MAX_UPLOAD_BYTES + 1).unwrap_err().message,
        "Файл слишком большой (максимум 50 МБ)"
    );
    let e = already_exists_error("a.mp3");
    assert_eq!((e.status, e.message.as_str()), (ErrorStatus::Conflict, "Файл «a.mp3» уже существует"));
    let e = not_found_error("a.mp3");
    assert_eq!((e.status, e.message.as_str()), (ErrorStatus::NotFound, "Файл «a.mp3» не найден"));
    assert_eq!(missing_file_field_error().message, "В запросе не найдено поле file");
}

#[test]
fn served_names() {
    assert_eq!(check_served_name("a.mp3").unwrap(), "a.mp3");
    assert_eq!(check_served_name("a.txt").unwrap_err().message, "Некорректное имя файла");
    assert_eq!(check_served_name("").unwrap_err().message, "Имя файла не может быть пустым");
}

fn entry(name: &str, is_file: bool, size: u64) -> SoundEntry {
    SoundEntry { name: s(name), is_file, size_bytes: size, modified_at: s("2024-01-01T00:00:00+00:00") }
}

#[test]
fn sound_list_is_filtered_and_sorted_by_name() {
    let out = sound_listing(vec![
        entry("b.mp3", true, 2),
        entry("notes.txt", true, 3),
        entry("A.ogg", true, 4),
        entry("dir.mp3", false, 0),
        entry("a.wav", true, 5),
    ]);
    let names: Vec<&str> = out.iter().map(|x| x.name.as_str()).collect();
    assert_eq!(names, vec!["A.ogg", "a.wav", "b.mp3"]);
    assert_eq!(out[2].size_bytes, 2);
    assert!(sound_listing(vec![]).is_empty());
}

#[test]
fn guild_ids() {
    assert_eq!(parse_guild_id("123456789012345678").unwrap(), 123456789012345678);
    assert_eq!(parse_guild_id("0").unwrap_err().message, "Некорректный guild_id");
    let e = parse_guild_id("abc").unwrap_err();
    assert_eq!((e.status, e.message.as_str()), (ErrorStatus::BadRequest, "Некорректный guild_id"));
}

#[test]
fn listings_skip_unlisted_and_sort_case_insensitively() {
    let out = listing(vec![
        Candidate { id: s("1"), name: s("beta"), listed: true },
        Candidate { id: s("2"), name: s("Alpha"), listed: true },
        Candidate { id: s("3"), name: s("hidden"), listed: false },
        Candidate { id: s("4"), name: s("alpha"), listed: true },
    ]);
    let ids: Vec<&str> = out.iter().map(|x| x.id.as_str()).collect();
    assert_eq!(ids, vec!["2", "4", "1"]);
    assert!(role_is_listed(false, "mods"));
    assert!(!role_is_listed(true, "bot role"));
    assert!(!role_is_listed(false, "@everyone"));
}

#[test]
fn roles_json_round_trip() {
    let roles = vec![s("1"), s("22")];
    let json = roles_to_json(&roles);
    assert_eq!(json, "[\"1\",\"22\"]");
    assert_eq!(roles_from_json(&json), roles);
    assert!(roles_from_json("not json").is_empty());
    assert!(roles_from_json("[1,2]").is_empty());
    assert!(roles_from_json("[]").is_empty());
    let odd = vec![s("quote\" and \\ back"), s("юникод\n")];
    assert_eq!(roles_from_json(&roles_to_json(&odd)), odd);
}

#[test]
fn anon_settings_shown_and_checked() {
    let d = anon_settings_response(s("9"), None);
    assert!(d.enabled);
    assert!(d.channel_id.is_none());
    assert!(d.allowed_role_ids.is_empty());
    assert_eq!(d.cooldown_seconds, 30);
    let row = AnonSettingsRow { enabled: 0, channel_id: Some(s("5")), allowed_role_ids: s("[\"7\"]"), cooldown_seconds: 12 };
    let r = anon_settings_response(s("9"), Some(row));
    assert!(!r.enabled);
    assert_eq!(r.channel_id, Some(s("5")));
    assert_eq!(r.allowed_role_ids, vec![s("7")]);
    assert_eq!(r.cooldown_seconds, 12);

    let input = AnonSettingsInput { enabled: true, channel_id: None, allowed_role_ids: vec![s("7")], cooldown_seconds: 60 };
    let rec = check_anon_settings("42", &input).unwrap();
    assert_eq!(rec.guild_id, 42);
    assert_eq!(rec.enabled, 1);
    assert_eq!(rec.allowed_role_ids_json, "[\"7\"]");
    assert_eq!(check_anon_settings("x", &input).unwrap_err().message, "Некорректный guild_id");
    let bad = AnonSettingsInput { cooldown_seconds: 86401, ..input.clone() };
    assert_eq!(check_anon_settings("42", &bad).unwrap_err().message, "Кулдаун должен быть от 0 до 86400 секунд");
    let neg = AnonSettingsInput { cooldown_seconds: -1, ..input };
    assert!(check_anon_settings("42", &neg).is_err());
}

fn reply_of(a: &AnonAction) -> String {
    match a {
        AnonAction::Reply(t) => t.clone(),
        _ => panic!("expected a reply"),
    }
}

fn settings(enabled: i64, channel: Option<&str>, roles: &str, cooldown: i64) -> AnonSettingsRow {
    AnonSettingsRow { enabled, channel_id: channel.map(s), allowed_role_ids: s(roles), cooldown_seconds: cooldown }
}

#[test]
fn anon_message_goes_through() {
    let (st, a) = anon_step(AnonState::Start, AnonEvent::Invoked { name: s("anon"), guild_id: Some(1), message: Some(s("  секрет  ")) });
    assert!(matches!(a, AnonAction::ReadModuleFlag));
    let (st, a) = anon_step(st, AnonEvent::ModuleFlag(true));
    assert!(matches!(a, AnonAction::CheckDatabase));
    let (st, a) = anon_step(st, AnonEvent::Database(true));
    assert!(matches!(a, AnonAction::LoadSettings));
    let (st, a) = anon_step(st, AnonEvent::Settings { row: Some(settings(1, Some("77"), "[\"r\"]", 30)), member_roles: Some(vec![s("x"), s("r")]) });
    assert!(matches!(a, AnonAction::LoadLastSent));
    let (st, a) = anon_step(st, AnonEvent::LastSent { last: Some(100), now: 130 });
    assert!(matches!(a, AnonAction::LoadIdentity));
    let (st, a) = anon_step(st, AnonEvent::Identity(None));
    assert!(matches!(a, AnonAction::LoadNextNumber));
    let (st, a) = anon_step(st, AnonEvent::NextNumber(3));
    assert!(matches!(a, AnonAction::StoreIdentity { number: 3 }));
    let (st, a) = anon_step(st, AnonEvent::IdentityStored);
    match &a {
        AnonAction::Send { channel, title, text, color } => {
            assert_eq!(*channel, 77);
            assert_eq!(*color, 0xE8A33D);
            assert_eq!(title, "🕵️ Аноним #3");
            assert_eq!(text, "секрет");
        }
        _ => panic!("expected a post"),
    }
    let (st, a) = anon_step(st, AnonEvent::Sent(true));
    assert!(matches!(a, AnonAction::Record { number: 3, .. }));
    let (st, a) = anon_step(st, AnonEvent::Recorded);
    assert!(matches!(st, AnonState::Done));
    assert_eq!(reply_of(&a), "Отправлено анонимно в <#77>.");
}

#[test]
fn anon_cooldown_blocks_a_second_message() {
    let st = AnonState::AwaitLastSent { message: s("m"), channel_id: s("1"), cooldown: 30 };
    let (_, a) = anon_step(st, AnonEvent::LastSent { last: Some(100), now: 110 });
    assert_eq!(reply_of(&a), "Подожди ещё 20 сек. перед следующим анонимным сообщением.");
    let st = AnonState::AwaitLastSent { message: s("m"), channel_id: s("1"), cooldown: 30 };
    let (_, a) = anon_step(st, AnonEvent::LastSent { last: None, now: 110 });
    assert!(matches!(a, AnonAction::LoadIdentity));
}

#[test]
fn anon_refusals() {
    let (_, a) = anon_step(AnonState::Start, AnonEvent::Invoked { name: s("other"), guild_id: Some(1), message: None });
    assert!(matches!(a, AnonAction::Ignore));
    let (_, a) = anon_step(AnonState::Start, AnonEvent::Invoked { name: s("anon"), guild_id: None, message: Some(s("x")) });
    assert_eq!(reply_of(&a), "Эта команда работает только на сервере.");
    let (_, a) = anon_step(AnonState::Start, AnonEvent::Invoked { name: s("anon"), guild_id: Some(1), message: Some(s("   ")) });
    assert_eq!(reply_of(&a), "Сообщение не может быть пустым.");
    let (_, a) = anon_step(AnonState::Start, AnonEvent::Invoked { name: s("anon"), guild_id: Some(1), message: Some("ы".repeat(2001)) });
    assert_eq!(reply_of(&a), "Слишком длинное сообщение (максимум 2000 символов).");
    let (_, a) = anon_step(AnonState::Start, AnonEvent::Invoked { name: s("anon"), guild_id: Some(1), message: Some("ы".repeat(2000)) });
    assert!(matches!(a, AnonAction::ReadModuleFlag));
    let (_, a) = anon_step(AnonState::AwaitModuleFlag { message: s("m") }, AnonEvent::ModuleFlag(false));
    assert_eq!(reply_of(&a), "Анонимные сообщения сейчас отключены администратором бота.");
    let (_, a) = anon_step(AnonState::AwaitSettings { message: s("m") }, AnonEvent::Settings { row: Some(settings(1, Some("5"), "[\"r\"]", 0)), member_roles: Some(vec![s("q")]) });
    assert_eq!(reply_of(&a), "У тебя нет прав на использование анонимных сообщений на этом сервере.");
    let (_, a) = anon_step(AnonState::AwaitSettings { message: s("m") }, AnonEvent::Settings { row: Some(settings(1, None, "[]", 0)), member_roles: None });
    assert_eq!(reply_of(&a), "Администратор ещё не выбрал канал для анонимных сообщений.");
    let (_, a) = anon_step(AnonState::AwaitIdentity { message: s("m"), channel_id: s("abc") }, AnonEvent::Identity(Some(2)));
    assert_eq!(reply_of(&a), "Некорректно настроен канал — обратись к администратору.");
    let (_, a) = anon_step(AnonState::AwaitSent { message: s("m"), channel_id: s("1"), number: 1 }, AnonEvent::Sent(false));
    assert_eq!(reply_of(&a), "Не удалось отправить сообщение — проверь права бота в канале.");
}

fn field(name: Option<&str>, file: Option<&str>) -> UploadEvent {
    UploadEvent::Field { field_name: name.map(s), file_name: file.map(s) }
}

fn failure(a: &UploadAction) -> String {
    match a {
        UploadAction::Fail(e) => e.message.clone(),
        _ => panic!("expected a refusal"),
    }
}

#[test]
fn upload_steps_in_order() {
    let (st, a) = upload_step(UploadState::AwaitField, field(Some("comment"), None));
    assert!(matches!(a, UploadAction::NextField));
    let (st, a) = upload_step(st, field(Some("file"), Some(" new.mp3 ")));
    assert!(matches!(a, UploadAction::CheckExists(ref n) if n == "new.mp3"));
    let (st, a) = upload_step(st, UploadEvent::Exists(false));
    assert!(matches!(a, UploadAction::ReadBytes));
    let (st, a) = upload_step(st, UploadEvent::Bytes(10));
    assert!(matches!(a, UploadAction::Write(ref n) if n == "new.mp3"));
    let (st, a) = upload_step(st, UploadEvent::Written);
    assert!(matches!(st, UploadState::Done));
    assert!(matches!(a, UploadAction::Stored { ref name, size: 10 } if name == "new.mp3"));
}

#[test]
fn upload_refusals_in_order() {
    let (_, a) = upload_step(UploadState::AwaitField, UploadEvent::NoMoreFields);
    assert_eq!(failure(&a), "В запросе не найдено поле file");
    let (_, a) = upload_step(UploadState::AwaitField, field(Some("file"), Some("a.txt")));
    assert_eq!(failure(&a), "Неподдерживаемый формат. Разрешены: mp3, ogg, wav, flac");
    let (_, a) = upload_step(UploadState::AwaitExists { name: s("a.mp3") }, UploadEvent::Exists(true));
    assert_eq!(failure(&a), "Файл «a.mp3» уже существует");
    let (_, a) = upload_step(UploadState::AwaitBytes { name: s("a.mp3") }, UploadEvent::Bytes(0));
    assert_eq!(failure(&a), "Файл пустой");
    let (_, a) = upload_step(UploadState::AwaitBytes { name: s("a.mp3") }, UploadEvent::Bytes(MAX_UPLOAD_BYTES + 1));
    assert_eq!(failure(&a), "Файл слишком большой (максимум 50 МБ)");
}

#[test]
fn modification_times_in_rfc3339() {
    assert_eq!(modified_at_text(Some((0, 0))), "1970-01-01T00:00:00+00:00");
    assert_eq!(modified_at_text(Some((1_700_000_000, 0))), "2023-11-14T22:13:20+00:00");
    assert_eq!(modified_at_text(None), "");
    assert_eq!(modified_at_text(Some((i64::MAX, 0))), "");
}
