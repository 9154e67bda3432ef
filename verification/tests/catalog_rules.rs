use tagvox::catalog::{
    is_blank, validate_id, validate_triggers_responses, ReactionCreateInput, ReactionUpdateInput,
    VoiceCommandCreateInput, VoiceCommandUpdateInput,
};
use tagvox::error::ErrorStatus;
use tagvox::phrases::{copy_strings, default_unknown, Phrases};

fn s(x: &str) -> String {
    x.to_string()
}

fn empty_book() -> Phrases {
    Phrases { text_reactions: vec![], voice_commands: vec![], unknown_response: default_unknown() }
}

fn reaction(id: &str) -> ReactionCreateInput {
    ReactionCreateInput { id: s(id), triggers: vec![s("привет")], responses: vec![s("здарова")] }
}

#[test]
fn default_fallback_answer() {
    assert_eq!(default_unknown(), vec![s("Не понял, что ты имеешь в виду.")]);
}

#[test]
fn copy_of_strings_is_equal() {
    let v = vec![s("a"), s("b")];
    assert_eq!(copy_strings(&v), v);
}

#[test]
fn id_validation_errors() {
    assert!(validate_id("  good_id-1 ").is_ok());
    let e = validate_id("   ").unwrap_err();
    assert_eq!(e.status, ErrorStatus::BadRequest);
    assert_eq!(e.message, "id не может быть пустым");
    let long = "a".repeat(65);
    assert_eq!(validate_id(&long).unwrap_err().message, "id слишком длинный (максимум 64 символа)");
    assert!(validate_id(&"a".repeat(64)).is_ok());
    assert_eq!(
        validate_id("при вет").unwrap_err().message,
        "id может содержать только латинские буквы, цифры, _ и -"
    );
}

#[test]
fn blank_strings() {
    assert!(is_blank(""));
    assert!(is_blank(" \t"));
    assert!(!is_blank(" x "));
}

#[test]
fn triggers_and_answers_validation() {
    let none: Vec<String> = vec![];
    assert_eq!(
        validate_triggers_responses(&none, &[s("a")]).unwrap_err().message,
        "Нужен хотя бы один триггер"
    );
    assert_eq!(
        validate_triggers_responses(&[s("  ")], &[s("a")]).unwrap_err().message,
        "Нужен хотя бы один триггер"
    );
    assert_eq!(
        validate_triggers_responses(&[s("t")], &[s(" ")]).unwrap_err().message,
        "Нужен хотя бы один вариант ответа"
    );
    assert!(validate_triggers_responses(&[s(" "), s("t")], &[s("a")]).is_ok());
}

#[test]
fn created_reaction_is_stored_under_trimmed_lowercase_id() {
    let mut book = empty_book();
    let r = book.create_reaction(reaction("  Hello_World ")).unwrap();
    assert_eq!(r.id, "hello_world");
    assert_eq!(book.text_reactions.len(), 1);
    assert_eq!(book.text_reactions[0].id, "hello_world");
    assert_eq!(book.text_reactions[0].responses, vec![s("здарова")]);
}

#[test]
fn duplicate_reaction_id_is_a_conflict() {
    let mut book = empty_book();
    book.create_reaction(reaction("greet")).unwrap();
    let e = book.create_reaction(reaction("GREET")).unwrap_err();
    assert_eq!(e.status, ErrorStatus::Conflict);
    assert_eq!(e.message, "Реакция с id «greet» уже существует");
    assert_eq!(e.status_code(), 409);
    assert_eq!(book.text_reactions.len(), 1);
}

#[test]
fn created_reaction_can_be_removed_again() {
    let mut book = empty_book();
    book.create_reaction(reaction("first")).unwrap();
    let created = book.create_reaction(reaction("Second")).unwrap();
    book.delete_reaction(&created.id).unwrap();
    assert_eq!(book.text_reactions.len(), 1);
    assert_eq!(book.text_reactions[0].id, "first");
}

#[test]
fn deleting_an_unknown_reaction_is_not_found() {
    let mut book = empty_book();
    let e = book.delete_reaction("nope").unwrap_err();
    assert_eq!(e.status, ErrorStatus::NotFound);
    assert_eq!(e.message, "Реакция «nope» не найдена");
    assert_eq!(e.status_code(), 404);
}

#[test]
fn updating_a_reaction_keeps_its_id() {
    let mut book = empty_book();
    book.create_reaction(reaction("a")).unwrap();
    book.create_reaction(reaction("b")).unwrap();
    let u = book
        .update_reaction("b", ReactionUpdateInput { triggers: vec![s("x")], responses: vec![s("y")] })
        .unwrap();
    assert_eq!(u.id, "b");
    assert_eq!(book.text_reactions.len(), 2);
    assert_eq!(book.text_reactions[1].triggers, vec![s("x")]);
    assert_eq!(book.text_reactions[0].triggers, vec![s("привет")]);
    let e = book
        .update_reaction("c", ReactionUpdateInput { triggers: vec![s("x")], responses: vec![s("y")] })
        .unwrap_err();
    assert_eq!(e.message, "Реакция «c» не найдена");
    let e = book
        .update_reaction("a", ReactionUpdateInput { triggers: vec![], responses: vec![s("y")] })
        .unwrap_err();
    assert_eq!(e.message, "Нужен хотя бы один триггер");
}

#[test]
fn voice_commands_are_created_checked_and_removed() {
    let mut book = empty_book();
    let c = book
        .create_voice_command(VoiceCommandCreateInput {
            id: s(" Boom "),
            triggers: vec![s("бум")],
            file: s("boom.mp3"),
        })
        .unwrap();
    assert_eq!(c.id, "boom");
    let e = book
        .create_voice_command(VoiceCommandCreateInput { id: s("boom"), triggers: vec![s("x")], file: s("a.mp3") })
        .unwrap_err();
    assert_eq!(e.message, "Команда с id «boom» уже существует");
    let e = book
        .create_voice_command(VoiceCommandCreateInput { id: s("x"), triggers: vec![], file: s("a.mp3") })
        .unwrap_err();
    assert_eq!(e.message, "Нужен хотя бы один триггер");
    let e = book
        .create_voice_command(VoiceCommandCreateInput { id: s("x"), triggers: vec![s("t")], file: s("  ") })
        .unwrap_err();
    assert_eq!(e.message, "Не указан звуковой файл");
    let u = book
        .update_voice_command("boom", VoiceCommandUpdateInput { triggers: vec![s("бах")], file: s("bah.ogg") })
        .unwrap();
    assert_eq!(u.file, "bah.ogg");
    assert_eq!(book.voice_commands[0].id, "boom");
    book.delete_voice_command("boom").unwrap();
    assert!(book.voice_commands.is_empty());
    assert_eq!(book.delete_voice_command("boom").unwrap_err().message, "Команда «boom» не найдена");
}

#[test]
fn fallback_answers_are_trimmed_and_cleaned() {
    let mut book = empty_book();
    let kept = book.set_unknown_responses(vec![s("  раз "), s("   "), s("два")]).unwrap();
    assert_eq!(kept, vec![s("раз"), s("два")]);
    assert_eq!(book.unknown_response, vec![s("раз"), s("два")]);
    let e = book.set_unknown_responses(vec![s(" "), s("")]).unwrap_err();
    assert_eq!(e.message, "Нужен хотя бы один вариант фразы-заглушки");
    assert_eq!(book.unknown_response, vec![s("раз"), s("два")]);
}
