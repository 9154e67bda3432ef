//! The `/anon` slash command: anonymous messages posted by the bot under a
//! per-server pseudonym number, with role checks and a cooldown.

use vstd::prelude::*;

use crate::json::{roles_from_json, stored_roles};
use crate::text::{
    chars_of, i64_to_string, parse_u64, parse_u64_spec, signed_decimal, str_eq, string_from_chars,
    trim, trim_chars,
};

verus! {

/// The name the command is registered under.
pub open spec fn command_name() -> Seq<char> {
    "anon"@
}

/// The colour of the embeds of anonymous messages.
pub const EMBED_COLOR: u32 = 0xE8A33D;

/// The longest accepted message, in characters.
pub const MAX_MESSAGE_CHARS: usize = 2000;

/// A server's settings of the command as stored by the panel.
#[derive(Clone, Debug)]
pub struct AnonSettingsRow {
    /// Non-zero when the command is enabled on the server.
    pub enabled: i64,
    /// The channel the messages are posted to.
    pub channel_id: Option<String>,
    /// The roles allowed to use the command, as a JSON array of strings.
    pub allowed_role_ids: String,
    /// The least number of seconds between two messages of one user.
    pub cooldown_seconds: i64,
}

/// Where the handling of one `/anon` call stands.
pub enum AnonState {
    Start,
    AwaitModuleFlag { message: String },
    AwaitDatabase { message: String },
    AwaitSettings { message: String },
    AwaitLastSent { message: String, channel_id: String, cooldown: i64 },
    AwaitIdentity { message: String, channel_id: String },
    AwaitNextNumber { message: String, channel_id: String },
    AwaitIdentityStored { message: String, channel_id: String, number: i64 },
    AwaitSent { message: String, channel_id: String, number: i64 },
    AwaitRecorded { channel_id: String },
    Done,
}

/// What happened since the last action.
pub enum AnonEvent {
    /// The command was called (first event): its name, the server it was
    /// called on, and the text of its `message` option.
    Invoked { name: String, guild_id: Option<u64>, message: Option<String> },
    /// Whether the module is switched on in the bot's settings.
    ModuleFlag(bool),
    /// Whether the database is available.
    Database(bool),
    /// The server's stored settings, and the role ids of the calling member
    /// (`None` outside a server membership).
    Settings { row: Option<AnonSettingsRow>, member_roles: Option<Vec<String>> },
    /// The time of the user's last anonymous message on the server, and the
    /// current time (Unix seconds).
    LastSent { last: Option<i64>, now: i64 },
    /// The user's pseudonym number on the server, if they have one.
    Identity(Option<i64>),
    /// The next free pseudonym number on the server.
    NextNumber(i64),
    /// The new pseudonym number was stored.
    IdentityStored,
    /// Whether posting the message succeeded.
    Sent(bool),
    /// The posted message was recorded.
    Recorded,
}

/// What the handling asks to be done next.
pub enum AnonAction {
    /// The call is for another command: do nothing.
    Ignore,
    /// Answer the caller privately and stop.
    Reply(String),
    ReadModuleFlag,
    CheckDatabase,
    LoadSettings,
    LoadLastSent,
    LoadIdentity,
    LoadNextNumber,
    StoreIdentity { number: i64 },
    /// Post an embed with this title, text and colour to the channel; it
    /// names no author.
    Send { channel: u64, title: String, text: String, color: u32 },
    /// Record the posted message.
    Record { number: i64, text: String, channel_id: String },
}

pub open spec fn anon_expects(state: AnonState, event: AnonEvent) -> bool {
    match state {
        AnonState::Start => event is Invoked,
        AnonState::AwaitModuleFlag { .. } => event is ModuleFlag,
        AnonState::AwaitDatabase { .. } => event is Database,
        AnonState::AwaitSettings { .. } => event is Settings,
        AnonState::AwaitLastSent { .. } => event is LastSent,
        AnonState::AwaitIdentity { .. } => event is Identity,
        AnonState::AwaitNextNumber { .. } => event is NextNumber,
        AnonState::AwaitIdentityStored { .. } => event is IdentityStored,
        AnonState::AwaitSent { .. } => event is Sent,
        AnonState::AwaitRecorded { .. } => event is Recorded,
        AnonState::Done => false,
    }
}

pub open spec fn replies(r: (AnonState, AnonAction), text: Seq<char>) -> bool {
    r.0 is Done && (r.1 matches AnonAction::Reply(t) && t@ == text)
}

/// Whether the member holds one of the allowed roles.
pub open spec fn has_allowed_role(member_roles: Option<Seq<Seq<char>>>, allowed: Seq<Seq<char>>) -> bool {
    match member_roles {
        Some(rs) => holds_one_of(rs, allowed),
        None => false,
    }
}

/// Some role of `rs` is among `allowed`.
pub open spec fn holds_one_of(rs: Seq<Seq<char>>, allowed: Seq<Seq<char>>) -> bool {
    exists|i: int| 0 <= i < rs.len() && allowed.contains(#[trigger] rs[i])
}

/// One allowed role is enough: a member holding any role of the allow-list
/// may post, whatever other roles are listed or held.
pub proof fn law_one_allowed_role_suffices(rs: Seq<Seq<char>>, allowed: Seq<Seq<char>>, i: int)
    requires
        0 <= i < rs.len(),
        allowed.contains(rs[i]),
    ensures
        has_allowed_role(Some(rs), allowed),
{
    assert(allowed.contains(rs[i]));
}

/// Only listed roles let a member post: an allowed member holds some role of
/// the allow-list, so an empty allow-list admits nobody, and nobody is
/// admitted outside a server membership.
pub proof fn law_access_needs_a_listed_role(member_roles: Option<Seq<Seq<char>>>, allowed: Seq<Seq<char>>)
    ensures
        has_allowed_role(member_roles, allowed) ==> member_roles is Some && exists|i: int, j: int|
            0 <= i < member_roles->Some_0.len() && 0 <= j < allowed.len() && #[trigger] allowed[j]
                == #[trigger] member_roles->Some_0[i],
        allowed.len() == 0 ==> !has_allowed_role(member_roles, allowed),
{
    if has_allowed_role(member_roles, allowed) {
        let rs = member_roles->Some_0;
        let i = choose|i: int| 0 <= i < rs.len() && allowed.contains(#[trigger] rs[i]);
        let j = choose|j: int| 0 <= j < allowed.len() && allowed[j] == rs[i];
        assert(allowed[j] == rs[i]);
    }
}

pub open spec fn opt_strings(o: Option<Vec<String>>) -> Option<Seq<Seq<char>>> {
    match o {
        Some(v) => Some(v.deep_view()),
        None => None,
    }
}

/// The seconds since the last message, as the bot computes them (wrapping
/// on overflow).
pub open spec fn elapsed_secs(now: i64, last: i64) -> i64 {
    vstd::wrapping::i64_specs::wrapping_sub(now, last)
}

pub open spec fn embed_title(number: i64) -> Seq<char> {
    "🕵️ Аноним #"@ + signed_decimal(number as int)
}

fn reply(text: &str) -> (r: (AnonState, AnonAction))
    ensures
        replies(r, text@),
{
    (AnonState::Done, AnonAction::Reply(String::from_str(text)))
}

fn any_allowed(member_roles: &Vec<String>, allowed: &Vec<String>) -> (b: bool)
    ensures
        b == has_allowed_role(Some(member_roles.deep_view()), allowed.deep_view()),
{
    let mut i: usize = 0;
    while i < member_roles.len()
        invariant
            i <= member_roles@.len(),
            forall|k: int|
                0 <= k < i ==> !allowed.deep_view().contains(#[trigger] member_roles.deep_view()[k]),
            allowed.deep_view().len() == allowed@.len(),
        decreases member_roles.len() - i,
    {
        let mut j: usize = 0;
        while j < allowed.len()
            invariant
                i < member_roles@.len(),
                j <= allowed@.len(),
                forall|k: int| 0 <= k < j ==> allowed.deep_view()[k] != member_roles.deep_view()[i as int],
            decreases allowed.len() - j,
        {
            if allowed[j] == member_roles[i] {
                proof {
                    assert(allowed.deep_view()[j as int] == member_roles.deep_view()[i as int]);
                    assert(allowed.deep_view().contains(member_roles.deep_view()[i as int]));
                    let rs = member_roles.deep_view();
                    assert(exists|k: int| 0 <= k < rs.len() && allowed.deep_view().contains(#[trigger] rs[k]));
                    assert(holds_one_of(rs, allowed.deep_view()));
                }
                return true;
            }
            j = j + 1;
        }
        i = i + 1;
    }
    false
}

/// Posts the message once the pseudonym number is known: the channel id must
/// be a number.
fn send_step(message: String, channel_id: String, number: i64) -> (r: (AnonState, AnonAction))
    ensures
        match parse_u64_spec(channel_id@) {
            Some(ch) => (r.0 matches AnonState::AwaitSent { message: m, channel_id: c, number: n }
                && m@ == message@ && c@ == channel_id@ && n == number) && (r.1 matches AnonAction::Send {
                channel,
                title,
                text,
                color,
            } && channel == ch && title@ == embed_title(number) && text@ == message@
                && color == EMBED_COLOR),
            None => replies(r, "Некорректно настроен канал — обратись к администратору."@),
        },
{
    match parse_u64(channel_id.as_str()) {
        None => reply("Некорректно настроен канал — обратись к администратору."),
        Some(ch) => {
            let title = String::from_str("🕵️ Аноним #").concat(i64_to_string(number).as_str());
            let text = message.clone();
            (
                AnonState::AwaitSent { message, channel_id, number },
                AnonAction::Send { channel: ch, title, text, color: EMBED_COLOR },
            )
        },
    }
}

/// One step of handling a `/anon` call. A message is posted when the call is
/// made on a server with a non-blank message of at most 2000 characters, the
/// module is on, the database is up, the server enabled the command with a
/// channel, the member holds an allowed role and the cooldown has passed.
pub fn anon_step(state: AnonState, event: AnonEvent) -> (r: (AnonState, AnonAction))
    requires
        anon_expects(state, event),
    ensures
        match (state, event) {
            (AnonState::Start, AnonEvent::Invoked { name, guild_id, message }) => if name@
                != command_name() {
                r.0 is Done && r.1 is Ignore
            } else if guild_id is None {
                replies(r, "Эта команда работает только на сервере."@)
            } else {
                match message {
                    None => replies(r, "Не удалось прочитать текст сообщения."@),
                    Some(m) => if trim(m@).len() == 0 {
                        replies(r, "Сообщение не может быть пустым."@)
                    } else if trim(m@).len() > MAX_MESSAGE_CHARS {
                        replies(r, "Слишком длинное сообщение (максимум 2000 символов)."@)
                    } else {
                        (r.0 matches AnonState::AwaitModuleFlag { message: x } && x@ == trim(m@))
                            && r.1 is ReadModuleFlag
                    },
                }
            },
            (AnonState::AwaitModuleFlag { message }, AnonEvent::ModuleFlag(on)) => if on {
                (r.0 matches AnonState::AwaitDatabase { message: x } && x@ == message@)
                    && r.1 is CheckDatabase
            } else {
                replies(r, "Анонимные сообщения сейчас отключены администратором бота."@)
            },
            (AnonState::AwaitDatabase { message }, AnonEvent::Database(up)) => if up {
                (r.0 matches AnonState::AwaitSettings { message: x } && x@ == message@)
                    && r.1 is LoadSettings
            } else {
                replies(r, "Функция недоступна: база данных не инициализирована."@)
            },
            (AnonState::AwaitSettings { message }, AnonEvent::Settings { row, member_roles }) => match row {
                None => replies(
                    r,
                    "Администратор ещё не настроил анонимные сообщения на этом сервере (нужно сделать это в веб-панели)."@,
                ),
                Some(s) => if s.enabled == 0 {
                    replies(r, "Анонимные сообщения выключены на этом сервере."@)
                } else {
                    match s.channel_id {
                        None => replies(
                            r,
                            "Администратор ещё не выбрал канал для анонимных сообщений."@,
                        ),
                        Some(ch) => if !has_allowed_role(
                            opt_strings(member_roles),
                            stored_roles(s.allowed_role_ids@),
                        ) {
                            replies(
                                r,
                                "У тебя нет прав на использование анонимных сообщений на этом сервере."@,
                            )
                        } else {
                            (r.0 matches AnonState::AwaitLastSent { message: x, channel_id: c, cooldown }
                                && x@ == message@ && c@ == ch@ && cooldown == s.cooldown_seconds)
                                && r.1 is LoadLastSent
                        },
                    }
                },
            },
            (
                AnonState::AwaitLastSent { message, channel_id, cooldown },
                AnonEvent::LastSent { last, now },
            ) => match last {
                Some(l) => if elapsed_secs(now, l) < cooldown {
                    replies(
                        r,
                        "Подожди ещё "@ + signed_decimal(
                            vstd::wrapping::i64_specs::wrapping_sub(
                                cooldown,
                                elapsed_secs(now, l),
                            ) as int,
                        ) + " сек. перед следующим анонимным сообщением."@,
                    )
                } else {
                    (r.0 matches AnonState::AwaitIdentity { message: x, channel_id: c } && x@
                        == message@ && c@ == channel_id@) && r.1 is LoadIdentity
                },
                None => (r.0 matches AnonState::AwaitIdentity { message: x, channel_id: c } && x@
                    == message@ && c@ == channel_id@) && r.1 is LoadIdentity,
            },
            (AnonState::AwaitIdentity { message, channel_id }, AnonEvent::Identity(id)) => match id {
                Some(n) => match parse_u64_spec(channel_id@) {
                    Some(ch) => (r.0 matches AnonState::AwaitSent {
                        message: m,
                        channel_id: c,
                        number,
                    } && m@ == message@ && c@ == channel_id@ && number == n) && (
                    r.1 matches AnonAction::Send { channel, title, text, color } && channel == ch && title@
                        == embed_title(n) && text@ == message@ && color == EMBED_COLOR),
                    None => replies(r, "Некорректно настроен канал — обратись к администратору."@),
                },
                None => (r.0 matches AnonState::AwaitNextNumber { message: x, channel_id: c } && x@
                    == message@ && c@ == channel_id@) && r.1 is LoadNextNumber,
            },
            (AnonState::AwaitNextNumber { message, channel_id }, AnonEvent::NextNumber(n)) => (
            r.0 matches AnonState::AwaitIdentityStored { message: x, channel_id: c, number } && x@
                == message@ && c@ == channel_id@ && number == n) && (r.1 matches AnonAction::StoreIdentity {
                number,
            } && number == n),
            (
                AnonState::AwaitIdentityStored { message, channel_id, number: n },
                AnonEvent::IdentityStored,
            ) => match parse_u64_spec(channel_id@) {
                Some(ch) => (r.0 matches AnonState::AwaitSent {
                    message: m,
                    channel_id: c,
                    number,
                } && m@ == message@ && c@ == channel_id@ && number == n) && (
                r.1 matches AnonAction::Send { channel, title, text, color } && channel == ch && title@
                    == embed_title(n) && text@ == message@ && color == EMBED_COLOR),
                None => replies(r, "Некорректно настроен канал — обратись к администратору."@),
            },
            (AnonState::AwaitSent { message, channel_id, number: n }, AnonEvent::Sent(ok)) => if ok {
                (r.0 matches AnonState::AwaitRecorded { channel_id: c } && c@ == channel_id@) && (
                r.1 matches AnonAction::Record { number, text, channel_id: c } && number == n && text@
                    == message@ && c@ == channel_id@)
            } else {
                replies(r, "Не удалось отправить сообщение — проверь права бота в канале."@)
            },
            (AnonState::AwaitRecorded { channel_id }, AnonEvent::Recorded) => replies(
                r,
                "Отправлено анонимно в <#"@ + channel_id@ + ">."@,
            ),
            _ => false,
        },
{
    match (state, event) {
        (AnonState::Start, AnonEvent::Invoked { name, guild_id, message }) => {
            if !str_eq(name.as_str(), "anon") {
                return (AnonState::Done, AnonAction::Ignore);
            }
            if guild_id.is_none() {
                return reply("Эта команда работает только на сервере.");
            }
            match message {
                None => reply("Не удалось прочитать текст сообщения."),
                Some(m) => {
                    let t = trim_chars(&chars_of(m.as_str()));
                    if t.len() == 0 {
                        reply("Сообщение не может быть пустым.")
                    } else if t.len() > MAX_MESSAGE_CHARS {
                        reply("Слишком длинное сообщение (максимум 2000 символов).")
                    } else {
                        (
                            AnonState::AwaitModuleFlag { message: string_from_chars(&t) },
                            AnonAction::ReadModuleFlag,
                        )
                    }
                },
            }
        },
        (AnonState::AwaitModuleFlag { message }, AnonEvent::ModuleFlag(on)) => {
            if on {
                (AnonState::AwaitDatabase { message }, AnonAction::CheckDatabase)
            } else {
                reply("Анонимные сообщения сейчас отключены администратором бота.")
            }
        },
        (AnonState::AwaitDatabase { message }, AnonEvent::Database(up)) => {
            if up {
                (AnonState::AwaitSettings { message }, AnonAction::LoadSettings)
            } else {
                reply("Функция недоступна: база данных не инициализирована.")
            }
        },
        (AnonState::AwaitSettings { message }, AnonEvent::Settings { row, member_roles }) => {
            match row {
                None => reply(
                    "Администратор ещё не настроил анонимные сообщения на этом сервере (нужно сделать это в веб-панели).",
                ),
                Some(s) => {
                    if s.enabled == 0 {
                        return reply("Анонимные сообщения выключены на этом сервере.");
                    }
                    match s.channel_id {
                        None => reply("Администратор ещё не выбрал канал для анонимных сообщений."),
                        Some(ch) => {
                            let allowed = roles_from_json(s.allowed_role_ids.as_str());
                            let ok = match &member_roles {
                                Some(rs) => any_allowed(rs, &allowed),
                                None => false,
                            };
                            if !ok {
                                reply(
                                    "У тебя нет прав на использование анонимных сообщений на этом сервере.",
                                )
                            } else {
                                (
                                    AnonState::AwaitLastSent {
                                        message,
                                        channel_id: ch,
                                        cooldown: s.cooldown_seconds,
                                    },
                                    AnonAction::LoadLastSent,
                                )
                            }
                        },
                    }
                },
            }
        },
        (AnonState::AwaitLastSent { message, channel_id, cooldown }, AnonEvent::LastSent { last, now }) => {
            if let Some(l) = last {
                let elapsed = now.wrapping_sub(l);
                if elapsed < cooldown {
                    let wait = cooldown.wrapping_sub(elapsed);
                    let text = String::from_str("Подожди ещё ").concat(
                        i64_to_string(wait).as_str(),
                    ).concat(" сек. перед следующим анонимным сообщением.");
                    return (AnonState::Done, AnonAction::Reply(text));
                }
            }
            (AnonState::AwaitIdentity { message, channel_id }, AnonAction::LoadIdentity)
        },
        (AnonState::AwaitIdentity { message, channel_id }, AnonEvent::Identity(id)) => match id {
            Some(n) => send_step(message, channel_id, n),
            None => (AnonState::AwaitNextNumber { message, channel_id }, AnonAction::LoadNextNumber),
        },
        (AnonState::AwaitNextNumber { message, channel_id }, AnonEvent::NextNumber(n)) => {
            (
                AnonState::AwaitIdentityStored { message, channel_id, number: n },
                AnonAction::StoreIdentity { number: n },
            )
        },
        (AnonState::AwaitIdentityStored { message, channel_id, number }, AnonEvent::IdentityStored) => {
            send_step(message, channel_id, number)
        },
        (AnonState::AwaitSent { message, channel_id, number }, AnonEvent::Sent(ok)) => {
            if ok {
                let c = channel_id.clone();
                (
                    AnonState::AwaitRecorded { channel_id },
                    AnonAction::Record { number, text: message, channel_id: c },
                )
            } else {
                reply("Не удалось отправить сообщение — проверь права бота в канале.")
            }
        },
        (AnonState::AwaitRecorded { channel_id }, AnonEvent::Recorded) => {
            let text = String::from_str("Отправлено анонимно в <#").concat(channel_id.as_str()).concat(
                ">.",
            );
            (AnonState::Done, AnonAction::Reply(text))
        },
        _ => (AnonState::Done, AnonAction::Ignore),
    }
}

} // verus!
