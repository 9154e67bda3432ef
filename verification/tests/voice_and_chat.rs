use tagvox::message::{message_step, pick_answer, strip_mentions, MessageAction, MessageEvent, MessageState};
use tagvox::voice::{
    button_id, button_label, button_reply, format_time, join_failure_reply, join_reply, leave_reply,
    locate_sound, parse_button, parse_control_command, pause_reply, ping_reply, play_step,
    resume_reply, short_reason, sound_path_plan, stop_reply, ControlCommand, PlayAction, PlayEvent,
    PlayState, PlaybackButton, SoundPath, TrackMode, TrackQuery,
};

fn s(x: &str) -> String {
    x.to_string()
}

#[test]
fn control_command_words() {
    assert_eq!(parse_control_command("pause"), Some(ControlCommand::Pause));
    assert_eq!(parse_control_command("resume"), Some(ControlCommand::Resume));
    assert_eq!(parse_control_command("continue"), Some(ControlCommand::Resume));
    assert_eq!(parse_control_command("stop"), Some(ControlCommand::Stop));
    assert_eq!(parse_control_command("leave"), Some(ControlCommand::Leave));
    assert_eq!(parse_control_command("join"), Some(ControlCommand::Join));
    assert_eq!(parse_control_command("ping"), Some(ControlCommand::Ping));
    assert_eq!(parse_control_command("Pause"), None);
    assert_eq!(parse_control_command(""), None);
}

#[test]
fn buttons_read_back_as_themselves() {
    for b in [PlaybackButton::Pause, PlaybackButton::Resume, PlaybackButton::Stop] {
        assert_eq!(parse_button(button_id(b)), Some(b));
    }
    assert_eq!(button_id(PlaybackButton::Pause), "voice_pause");
    assert_eq!(button_id(PlaybackButton::Resume), "voice_resume");
    assert_eq!(button_id(PlaybackButton::Stop), "voice_stop");
    assert_eq!(button_label(PlaybackButton::Stop), "⏹ Стоп");
    assert_eq!(parse_button("voice_other"), None);
}

#[test]
fn playback_positions_as_minutes_and_seconds() {
    assert_eq!(format_time(0), "0:00");
    assert_eq!(format_time(5), "0:05");
    assert_eq!(format_time(65), "1:05");
    assert_eq!(format_time(600), "10:00");
    assert_eq!(format_time(3599), "59:59");
    assert_eq!(format_time(7325), "122:05");
}

#[test]
fn replies_about_the_current_track() {
    assert_eq!(pause_reply(TrackQuery::NoTrack), "Сейчас ничего не играет.");
    assert_eq!(pause_reply(TrackQuery::Unknown), "⏸ Пауза.");
    assert_eq!(pause_reply(TrackQuery::At(75)), "⏸ Пауза на 1:15.");
    assert_eq!(resume_reply(TrackQuery::NoTrack), "Сейчас ничего не на паузе.");
    assert_eq!(resume_reply(TrackQuery::Unknown), "▶ Продолжаю.");
    assert_eq!(resume_reply(TrackQuery::At(9)), "▶ Продолжаю с 0:09.");
    assert_eq!(stop_reply(), "⏹ Остановлено, позиция сброшена.");
    assert_eq!(button_reply(PlaybackButton::Pause, TrackQuery::At(61)), "⏸ Пауза на 1:01.");
    assert_eq!(button_reply(PlaybackButton::Stop, TrackQuery::NoTrack), "⏹ Остановлено, позиция сброшена.");
}

#[test]
fn ping_replies() {
    assert_eq!(ping_reply(Some(Some(42))), "Пинг: 42 мс.");
    assert_eq!(ping_reply(Some(None)), "Пинг ещё не измерен, попробуй через полминуты.");
    assert_eq!(ping_reply(None), "Не нашёл информацию о своём шарде.");
}

#[test]
fn long_reasons_are_shortened() {
    assert_eq!(short_reason("boom"), "boom");
    let exact = "я".repeat(300);
    assert_eq!(short_reason(&exact), exact);
    let long = "я".repeat(301);
    assert_eq!(short_reason(&long), format!("{}...", "я".repeat(300)));
    assert_eq!(
        join_failure_reply("Timeout"),
        "Не смог подключиться к каналу.\nПричина: `Timeout`\nПолный лог — в консоли бота."
    );
}

#[test]
fn join_and_leave_replies() {
    assert_eq!(join_reply(false, false), Some(s("Зайди сначала в голосовой канал.")));
    assert_eq!(join_reply(true, true), Some(s("Подключился к голосовому каналу.")));
    assert_eq!(join_reply(true, false), None);
    assert_eq!(leave_reply(true), "Отключился.");
    assert_eq!(leave_reply(false), "Я и так не в канале.");
}

#[test]
fn where_sound_files_are_looked_up() {
    assert_eq!(sound_path_plan("/home/u/a.mp3", true), SoundPath::AsGiven);
    assert_eq!(sound_path_plan("music/a.mp3", false), SoundPath::FromBaseDir);
    assert_eq!(sound_path_plan("music\\a.mp3", false), SoundPath::FromBaseDir);
    assert_eq!(sound_path_plan("a.mp3", false), SoundPath::FromSoundsDir);
    assert_eq!(locate_sound("a.mp3"), SoundPath::FromSoundsDir);
    assert_eq!(locate_sound("music/a.mp3"), SoundPath::FromBaseDir);
    assert_ne!(locate_sound("/srv/a.mp3"), SoundPath::FromSoundsDir);
}

fn reply_text(a: &PlayAction) -> String {
    match a {
        PlayAction::Reply(t) | PlayAction::SendControls(t) | PlayAction::ResumeTrack(t) => t.clone(),
        _ => panic!("expected a message"),
    }
}

#[test]
fn voice_command_started_from_scratch() {
    let (st, a) = play_step(PlayState::Start, PlayEvent::Begin { in_guild: true }, "boom");
    assert!(matches!(a, PlayAction::CheckFile));
    let (st, a) = play_step(st, PlayEvent::FileChecked { exists: true, shown_path: s("x") }, "boom");
    assert!(matches!(a, PlayAction::CheckTrack));
    let (st, a) = play_step(st, PlayEvent::TrackChecked { same_command: false, track: Some((TrackMode::Pause, 3)) }, "boom");
    assert!(matches!(a, PlayAction::CheckCall));
    let (st, a) = play_step(st, PlayEvent::CallChecked { in_call: false }, "boom");
    assert!(matches!(a, PlayAction::FindChannel));
    let (st, a) = play_step(st, PlayEvent::ChannelFound { found: true }, "boom");
    assert!(matches!(a, PlayAction::Join));
    let (st, a) = play_step(st, PlayEvent::Joined { ok: true }, "boom");
    assert!(matches!(a, PlayAction::StartTrack { ref command_id } if command_id == "boom"));
    let (st, a) = play_step(st, PlayEvent::Started { ok: true }, "boom");
    assert_eq!(st, PlayState::Done);
    assert!(matches!(a, PlayAction::SendControls(_)));
    assert_eq!(reply_text(&a), "▶ Воспроизвожу «boom».");
}

#[test]
fn voice_command_resumed_or_refused() {
    let (_, a) = play_step(PlayState::AwaitTrack, PlayEvent::TrackChecked { same_command: true, track: Some((TrackMode::Pause, 125)) }, "boom");
    assert!(matches!(a, PlayAction::ResumeTrack(_)));
    assert_eq!(reply_text(&a), "▶ Продолжаю «boom» с 2:05.");
    let (_, a) = play_step(PlayState::AwaitTrack, PlayEvent::TrackChecked { same_command: true, track: Some((TrackMode::Play, 1)) }, "boom");
    assert!(matches!(a, PlayAction::CheckCall));
    let (_, a) = play_step(PlayState::AwaitTrack, PlayEvent::TrackChecked { same_command: true, track: Some((TrackMode::Other, 1)) }, "boom");
    assert!(matches!(a, PlayAction::CheckCall));
    let (_, a) = play_step(PlayState::AwaitTrack, PlayEvent::TrackChecked { same_command: true, track: None }, "boom");
    assert!(matches!(a, PlayAction::CheckCall));
    let (_, a) = play_step(PlayState::Start, PlayEvent::Begin { in_guild: false }, "boom");
    assert_eq!(reply_text(&a), "Эта команда работает только на сервере.");
    let (_, a) = play_step(PlayState::AwaitFile, PlayEvent::FileChecked { exists: false, shown_path: s("sounds/a.mp3") }, "boom");
    assert_eq!(reply_text(&a), "Файл `sounds/a.mp3` не найден на диске.");
    let (_, a) = play_step(PlayState::AwaitChannel, PlayEvent::ChannelFound { found: false }, "boom");
    assert_eq!(reply_text(&a), "Зайди сначала в голосовой канал.");
    let (st, a) = play_step(PlayState::AwaitJoin, PlayEvent::Joined { ok: false }, "boom");
    assert_eq!(st, PlayState::Done);
    assert!(matches!(a, PlayAction::Nothing));
    let (st, a) = play_step(PlayState::AwaitCall, PlayEvent::CallChecked { in_call: true }, "boom");
    assert_eq!(st, PlayState::AwaitStart);
    assert!(matches!(a, PlayAction::StartTrack { ref command_id } if command_id == "boom"));
}

#[test]
fn mentions_are_stripped() {
    assert_eq!(strip_mentions("<@123> привет <@!456>"), "привет");
    assert_eq!(strip_mentions("  <@>x  "), "<@>x");
    assert_eq!(strip_mentions("<@12a>"), "<@12a>");
    assert_eq!(strip_mentions("<@1><@2>"), "");
    assert_eq!(strip_mentions("a <@١٢٣> b"), "a  b");
    assert_eq!(strip_mentions("<@!> x <@!7>"), "<@!> x");
    assert_eq!(strip_mentions("<<@1>>"), "<>");
}

#[test]
fn answers_are_drawn_from_the_list() {
    let list = vec![s("a"), s("b"), s("c")];
    for _ in 0..20 {
        let x = pick_answer(&list).unwrap();
        assert!(list.contains(&x));
    }
    assert_eq!(pick_answer(&vec![]), None);
}

fn received(content: &str, in_guild: bool, require_mention: bool) -> MessageEvent {
    MessageEvent::Received {
        from_bot: false,
        content: s(content),
        in_guild,
        command_prefix: s("!"),
        require_mention,
    }
}

#[test]
fn control_commands_need_no_mention() {
    let (st, a) = message_step(MessageState::Start, received("  !  pause ", true, true));
    assert!(matches!(st, MessageState::Done));
    assert!(matches!(a, MessageAction::Control(ControlCommand::Pause)));
    let (_, a) = message_step(MessageState::Start, received("!continue", true, false));
    assert!(matches!(a, MessageAction::Control(ControlCommand::Resume)));
}

#[test]
fn bot_messages_are_ignored() {
    let ev = MessageEvent::Received {
        from_bot: true,
        content: s("!pause"),
        in_guild: true,
        command_prefix: s("!"),
        require_mention: false,
    };
    let (_, a) = message_step(MessageState::Start, ev);
    assert!(matches!(a, MessageAction::Ignore));
}

#[test]
fn other_messages_wait_for_a_mention() {
    let (st, a) = message_step(MessageState::Start, received(" <@1> привет ", true, true));
    assert!(matches!(a, MessageAction::CheckMention));
    let (st2, a2) = message_step(st, MessageEvent::MentionChecked { mentioned: true });
    assert!(matches!(st2, MessageState::AwaitMatch));
    match a2 {
        MessageAction::FindMatches(t) => assert_eq!(t, "привет"),
        _ => panic!("expected matching"),
    }
    let (_, a3) = message_step(
        MessageState::AwaitMention { content: s("привет") },
        MessageEvent::MentionChecked { mentioned: false },
    );
    assert!(matches!(a3, MessageAction::Ignore));
    let (_, a4) = message_step(MessageState::Start, received("!pause", false, false));
    assert!(matches!(a4, MessageAction::FindMatches(ref t) if t == "!pause"));
    let (_, a5) = message_step(MessageState::Start, received("<@5>", true, false));
    assert!(matches!(a5, MessageAction::Ignore));
}

#[test]
fn matches_pick_voice_then_reaction_then_fallback() {
    let (_, a) = message_step(
        MessageState::AwaitMatch,
        MessageEvent::Matched {
            voice_command: Some(s("boom")),
            reaction_answers: Some(vec![s("x")]),
            fallback_answers: vec![s("?")],
        },
    );
    assert!(matches!(a, MessageAction::PlayVoice(ref id) if id == "boom"));
    let (_, a) = message_step(
        MessageState::AwaitMatch,
        MessageEvent::Matched { voice_command: None, reaction_answers: Some(vec![s("x")]), fallback_answers: vec![s("?")] },
    );
    assert!(matches!(a, MessageAction::Say(ref t) if t == "x"));
    let (_, a) = message_step(
        MessageState::AwaitMatch,
        MessageEvent::Matched { voice_command: None, reaction_answers: Some(vec![]), fallback_answers: vec![s("?")] },
    );
    assert!(matches!(a, MessageAction::Ignore));
    let (_, a) = message_step(
        MessageState::AwaitMatch,
        MessageEvent::Matched { voice_command: None, reaction_answers: None, fallback_answers: vec![s("?")] },
    );
    assert!(matches!(a, MessageAction::Say(ref t) if t == "?"));
}
