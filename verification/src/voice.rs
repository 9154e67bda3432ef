//! Voice playback: the bot's text commands and buttons, its replies about the
//! current track, where a voice command's sound file is looked up, and the
//! steps of starting or resuming a voice command.

use vstd::prelude::*;

use crate::text::{chars_of, decimal, decimal_chars, str_eq, string_from_chars, u64_to_string};

verus! {

// ---------------------------------------------------------------------------
// Text commands
// ---------------------------------------------------------------------------

/// A control command typed after the command prefix.
#[derive(Clone, Copy, Debug, PartialEq, Eq, Structural)]
pub enum ControlCommand {
    Pause,
    Resume,
    Stop,
    Leave,
    Join,
    Ping,
}

/// The control command a word names; `continue` is another name of `resume`.
pub open spec fn control_command_spec(cmd: Seq<char>) -> Option<ControlCommand> {
    if cmd == "pause"@ {
        Some(ControlCommand::Pause)
    } else if cmd == "resume"@ || cmd == "continue"@ {
        Some(ControlCommand::Resume)
    } else if cmd == "stop"@ {
        Some(ControlCommand::Stop)
    } else if cmd == "leave"@ {
        Some(ControlCommand::Leave)
    } else if cmd == "join"@ {
        Some(ControlCommand::Join)
    } else if cmd == "ping"@ {
        Some(ControlCommand::Ping)
    } else {
        None
    }
}

/// Reads a control command; `None` for any other word.
pub fn parse_control_command(cmd: &str) -> (r: Option<ControlCommand>)
    ensures
        r == control_command_spec(cmd@),
{
    if str_eq(cmd, "pause") {
        Some(ControlCommand::Pause)
    } else if str_eq(cmd, "resume") || str_eq(cmd, "continue") {
        Some(ControlCommand::Resume)
    } else if str_eq(cmd, "stop") {
        Some(ControlCommand::Stop)
    } else if str_eq(cmd, "leave") {
        Some(ControlCommand::Leave)
    } else if str_eq(cmd, "join") {
        Some(ControlCommand::Join)
    } else if str_eq(cmd, "ping") {
        Some(ControlCommand::Ping)
    } else {
        None
    }
}

// ---------------------------------------------------------------------------
// Buttons
// ---------------------------------------------------------------------------

/// One of the playback buttons attached to the bot's voice messages.
#[derive(Clone, Copy, Debug, PartialEq, Eq, Structural)]
pub enum PlaybackButton {
    Pause,
    Resume,
    Stop,
}

pub open spec fn button_id_spec(b: PlaybackButton) -> Seq<char> {
    match b {
        PlaybackButton::Pause => "voice_pause"@,
        PlaybackButton::Resume => "voice_resume"@,
        PlaybackButton::Stop => "voice_stop"@,
    }
}

pub open spec fn button_of_spec(custom_id: Seq<char>) -> Option<PlaybackButton> {
    if custom_id == "voice_pause"@ {
        Some(PlaybackButton::Pause)
    } else if custom_id == "voice_resume"@ {
        Some(PlaybackButton::Resume)
    } else if custom_id == "voice_stop"@ {
        Some(PlaybackButton::Stop)
    } else {
        None
    }
}

/// The custom id a button is sent with.
pub fn button_id(b: PlaybackButton) -> (r: &'static str)
    ensures
        r@ == button_id_spec(b),
{
    match b {
        PlaybackButton::Pause => "voice_pause",
        PlaybackButton::Resume => "voice_resume",
        PlaybackButton::Stop => "voice_stop",
    }
}

/// The caption of a button.
pub fn button_label(b: PlaybackButton) -> (r: &'static str)
    ensures
        r@ == (match b {
            PlaybackButton::Pause => "⏸ Пауза"@,
            PlaybackButton::Resume => "▶ Продолжить"@,
            PlaybackButton::Stop => "⏹ Стоп"@,
        }),
{
    match b {
        PlaybackButton::Pause => "⏸ Пауза",
        PlaybackButton::Resume => "▶ Продолжить",
        PlaybackButton::Stop => "⏹ Стоп",
    }
}

/// The button a click came from; `None` for a component of another kind.
pub fn parse_button(custom_id: &str) -> (r: Option<PlaybackButton>)
    ensures
        r == button_of_spec(custom_id@),
{
    if str_eq(custom_id, "voice_pause") {
        Some(PlaybackButton::Pause)
    } else if str_eq(custom_id, "voice_resume") {
        Some(PlaybackButton::Resume)
    } else if str_eq(custom_id, "voice_stop") {
        Some(PlaybackButton::Stop)
    } else {
        None
    }
}

/// A click on a button is read back as that same button.
pub proof fn law_button_round_trip(b: PlaybackButton)
    ensures
        button_of_spec(button_id_spec(b)) == Some(b),
{
    reveal_strlit("voice_pause");
    reveal_strlit("voice_resume");
    reveal_strlit("voice_stop");
    assert("voice_pause"@ != "voice_resume"@) by {
        assert("voice_pause"@[6] != "voice_resume"@[6]);
    }
    assert("voice_pause"@ != "voice_stop"@) by {
        assert("voice_pause"@.len() != "voice_stop"@.len());
    }
    assert("voice_resume"@ != "voice_stop"@) by {
        assert("voice_resume"@.len() != "voice_stop"@.len());
    }
}

// ---------------------------------------------------------------------------
// Replies about the current track
// ---------------------------------------------------------------------------

/// `n` written with at least two digits, a leading zero added below ten.
pub open spec fn two_digits(n: nat) -> Seq<char> {
    if n < 10 {
        seq!['0'] + decimal(n)
    } else {
        decimal(n)
    }
}

/// A playback position as minutes and zero-padded seconds: `m:ss`.
pub open spec fn clock_spec(secs: nat) -> Seq<char> {
    decimal(secs / 60) + ":"@ + two_digits(secs % 60)
}

/// Writes a playback position in seconds as `m:ss`.
pub fn format_time(secs: u64) -> (r: String)
    ensures
        r@ == clock_spec(secs as nat),
{
    let minutes = u64_to_string(secs / 60);
    let seconds = u64_to_string(secs % 60);
    if secs % 60 < 10 {
        proof {
            reveal_strlit(":0");
            reveal_strlit(":");
            assert(":0"@ =~= ":"@ + seq!['0']);
            assert(minutes@ + ":0"@ + seconds@ =~= clock_spec(secs as nat));
        }
        minutes.concat(":0").concat(seconds.as_str())
    } else {
        minutes.concat(":").concat(seconds.as_str())
    }
}

/// What is known of a server's current track when a playback command comes.
#[derive(Clone, Copy, Debug, PartialEq, Eq, Structural)]
pub enum TrackQuery {
    /// No track is loaded on the server.
    NoTrack,
    /// A track is loaded, but its position could not be read.
    Unknown,
    /// A track is loaded at this position, in seconds.
    At(u64),
}

pub open spec fn pause_reply_spec(q: TrackQuery) -> Seq<char> {
    match q {
        TrackQuery::NoTrack => "Сейчас ничего не играет."@,
        TrackQuery::Unknown => "⏸ Пауза."@,
        TrackQuery::At(s) => "⏸ Пауза на "@ + clock_spec(s as nat) + "."@,
    }
}

pub open spec fn resume_reply_spec(q: TrackQuery) -> Seq<char> {
    match q {
        TrackQuery::NoTrack => "Сейчас ничего не на паузе."@,
        TrackQuery::Unknown => "▶ Продолжаю."@,
        TrackQuery::At(s) => "▶ Продолжаю с "@ + clock_spec(s as nat) + "."@,
    }
}

/// The answer to a pause request; the track, if there is one, is paused.
pub fn pause_reply(q: TrackQuery) -> (r: String)
    ensures
        r@ == pause_reply_spec(q),
{
    match q {
        TrackQuery::NoTrack => String::from_str("Сейчас ничего не играет."),
        TrackQuery::Unknown => String::from_str("⏸ Пауза."),
        TrackQuery::At(s) => String::from_str("⏸ Пауза на ").concat(format_time(s).as_str()).concat("."),
    }
}

/// The answer to a resume request; the track, if there is one, plays on.
pub fn resume_reply(q: TrackQuery) -> (r: String)
    ensures
        r@ == resume_reply_spec(q),
{
    match q {
        TrackQuery::NoTrack => String::from_str("Сейчас ничего не на паузе."),
        TrackQuery::Unknown => String::from_str("▶ Продолжаю."),
        TrackQuery::At(s) => String::from_str("▶ Продолжаю с ").concat(format_time(s).as_str()).concat(
            ".",
        ),
    }
}

/// The answer to a stop request, whether or not a track was loaded.
pub fn stop_reply() -> (r: String)
    ensures
        r@ == "⏹ Остановлено, позиция сброшена."@,
{
    String::from_str("⏹ Остановлено, позиция сброшена.")
}

/// What the playback buttons do.
pub fn button_reply(b: PlaybackButton, q: TrackQuery) -> (r: String)
    ensures
        r@ == (match b {
            PlaybackButton::Pause => pause_reply_spec(q),
            PlaybackButton::Resume => resume_reply_spec(q),
            PlaybackButton::Stop => "⏹ Остановлено, позиция сброшена."@,
        }),
{
    match b {
        PlaybackButton::Pause => pause_reply(q),
        PlaybackButton::Resume => resume_reply(q),
        PlaybackButton::Stop => stop_reply(),
    }
}

/// The answer to `ping`: the latency of the bot's shard in milliseconds
/// (`Some(Some(ms))`), not measured yet (`Some(None)`), or no such shard.
pub fn ping_reply(shard_latency: Option<Option<u128>>) -> (r: String)
    ensures
        r@ == (match shard_latency {
            Some(Some(ms)) => "Пинг: "@ + decimal(ms as nat) + " мс."@,
            Some(None) => "Пинг ещё не измерен, попробуй через полминуты."@,
            None => "Не нашёл информацию о своём шарде."@,
        }),
{
    match shard_latency {
        Some(Some(ms)) => {
            let digits = string_from_chars(&decimal_chars(ms));
            String::from_str("Пинг: ").concat(digits.as_str()).concat(" мс.")
        },
        Some(None) => String::from_str("Пинг ещё не измерен, попробуй через полминуты."),
        None => String::from_str("Не нашёл информацию о своём шарде."),
    }
}

// ---------------------------------------------------------------------------
// Joining and leaving
// ---------------------------------------------------------------------------

/// The longest reason, in characters, quoted back when joining fails.
pub const MAX_REASON_CHARS: usize = 300;

pub open spec fn short_reason_spec(s: Seq<char>) -> Seq<char> {
    if s.len() > MAX_REASON_CHARS {
        s.take(MAX_REASON_CHARS as int) + "..."@
    } else {
        s
    }
}

/// Shortens a technical reason to its first 300 characters and `...`.
pub fn short_reason(s: &str) -> (r: String)
    ensures
        r@ == short_reason_spec(s@),
{
    let v = chars_of(s);
    if v.len() > MAX_REASON_CHARS {
        let mut out: Vec<char> = Vec::new();
        let mut i: usize = 0;
        while i < MAX_REASON_CHARS
            invariant
                i <= MAX_REASON_CHARS < v@.len(),
                out@ == v@.take(i as int),
            decreases MAX_REASON_CHARS - i,
        {
            out.push(v[i]);
            proof {
                assert(out@ =~= v@.take(i + 1));
            }
            i = i + 1;
        }
        string_from_chars(&out).concat("...")
    } else {
        String::from_str(s)
    }
}

pub open spec fn join_failure_spec(reason: Seq<char>) -> Seq<char> {
    "Не смог подключиться к каналу.\nПричина: `"@ + short_reason_spec(reason)
        + "`\nПолный лог — в консоли бота."@
}

/// The answer when joining a voice channel failed for `reason`.
pub fn join_failure_reply(reason: &str) -> (r: String)
    ensures
        r@ == join_failure_spec(reason@),
{
    String::from_str("Не смог подключиться к каналу.\nПричина: `").concat(
        short_reason(reason).as_str(),
    ).concat("`\nПолный лог — в консоли бота.")
}

/// The answer to `join`: none when joining failed, since the failure was
/// answered already.
pub fn join_reply(channel_found: bool, joined: bool) -> (r: Option<String>)
    ensures
        !channel_found ==> (r matches Some(t) && t@ == "Зайди сначала в голосовой канал."@),
        channel_found && joined ==> (r matches Some(t) && t@ == "Подключился к голосовому каналу."@),
        channel_found && !joined ==> r is None,
{
    if !channel_found {
        Some(String::from_str("Зайди сначала в голосовой канал."))
    } else if joined {
        Some(String::from_str("Подключился к голосовому каналу."))
    } else {
        None
    }
}

/// The answer to `leave`: whether the bot was in a voice channel to leave.
pub fn leave_reply(was_connected: bool) -> (r: String)
    ensures
        r@ == (if was_connected {
            "Отключился."@
        } else {
            "Я и так не в канале."@
        }),
{
    if was_connected {
        String::from_str("Отключился.")
    } else {
        String::from_str("Я и так не в канале.")
    }
}

// ---------------------------------------------------------------------------
// Where a sound file is looked up
// ---------------------------------------------------------------------------

/// Where the sound file of a voice command is looked up.
#[derive(Clone, Copy, Debug, PartialEq, Eq, Structural)]
pub enum SoundPath {
    /// An absolute path, taken as it is.
    AsGiven,
    /// A relative path with separators, taken from the bot's folder.
    FromBaseDir,
    /// A bare file name, taken from the sounds folder in the bot's folder.
    FromSoundsDir,
}

pub open spec fn has_separator(s: Seq<char>) -> bool {
    s.contains('/') || s.contains('\\')
}

pub open spec fn sound_path_spec(file: Seq<char>, absolute: bool) -> SoundPath {
    if absolute {
        SoundPath::AsGiven
    } else if has_separator(file) {
        SoundPath::FromBaseDir
    } else {
        SoundPath::FromSoundsDir
    }
}

fn has_char(v: &Vec<char>, c: char) -> (r: bool)
    ensures
        r == v@.contains(c),
{
    let mut i: usize = 0;
    while i < v.len()
        invariant
            i <= v@.len(),
            forall|k: int| 0 <= k < i ==> v@[k] != c,
        decreases v.len() - i,
    {
        if v[i] == c {
            return true;
        }
        i = i + 1;
    }
    false
}

/// Where the file `file` is looked up, given whether it is an absolute path.
pub fn sound_path_plan(file: &str, absolute: bool) -> (r: SoundPath)
    ensures
        r == sound_path_spec(file@, absolute),
{
    if absolute {
        return SoundPath::AsGiven;
    }
    let v = chars_of(file);
    if has_char(&v, '/') || has_char(&v, '\\') {
        SoundPath::FromBaseDir
    } else {
        SoundPath::FromSoundsDir
    }
}

/// Wraps `std::path::Path::is_absolute`. Which paths are absolute depends on
/// the platform; std documents that an absolute path has a root, so a path
/// without any `/` or `\` is never absolute, and only that is claimed.
#[verifier::external_body]
fn path_is_absolute(p: &str) -> (r: bool)
    ensures
        r ==> has_separator(p@),
{
    std::path::Path::new(p).is_absolute()
}

/// Where the sound file of a voice command is looked up: a bare file name in
/// the sounds folder, a path with separators from the bot's folder unless the
/// platform takes it as absolute.
pub fn locate_sound(file: &str) -> (r: SoundPath)
    ensures
        !has_separator(file@) ==> r == SoundPath::FromSoundsDir,
        has_separator(file@) ==> r == SoundPath::AsGiven || r == SoundPath::FromBaseDir,
{
    let absolute = path_is_absolute(file);
    sound_path_plan(file, absolute)
}

// ---------------------------------------------------------------------------
// Starting or resuming a voice command
// ---------------------------------------------------------------------------

/// How a loaded track is playing.
#[derive(Clone, Copy, Debug, PartialEq, Eq, Structural)]
pub enum TrackMode {
    Play,
    Pause,
    /// Stopped, ended or failed.
    Other,
}

/// Where the start of a voice command stands.
#[derive(Clone, Copy, Debug, PartialEq, Eq, Structural)]
pub enum PlayState {
    Start,
    AwaitFile,
    AwaitTrack,
    AwaitCall,
    AwaitChannel,
    AwaitJoin,
    AwaitStart,
    Done,
}

/// What happened since the last action.
pub enum PlayEvent {
    /// The command was matched (first event): whether on a server.
    Begin { in_guild: bool },
    /// Whether the sound file exists, and its path as shown to the user.
    FileChecked { exists: bool, shown_path: String },
    /// The server's current track: whether it belongs to this command, and
    /// its mode and position when a track is loaded and could be queried.
    TrackChecked { same_command: bool, track: Option<(TrackMode, u64)> },
    /// Whether the bot is in a voice call on the server.
    CallChecked { in_call: bool },
    /// Whether the author is in a voice channel.
    ChannelFound { found: bool },
    /// Whether joining the author's channel succeeded.
    Joined { ok: bool },
    /// Whether the track was started.
    Started { ok: bool },
}

/// What to do next.
pub enum PlayAction {
    /// Reply to the author's message; done.
    Reply(String),
    /// Send a message with the playback buttons; done.
    SendControls(String),
    /// Resume the loaded track and send this message with the buttons; done.
    ResumeTrack(String),
    /// Resolve the sound file and check that it exists.
    CheckFile,
    /// Look at the server's current track.
    CheckTrack,
    /// See whether the bot is in a call on the server.
    CheckCall,
    /// Find the author's voice channel.
    FindChannel,
    /// Join the author's voice channel.
    Join,
    /// Start the file in the call and record the new track, with this
    /// command id, as the server's current one.
    StartTrack { command_id: String },
    /// Nothing more; done.
    Nothing,
}

pub open spec fn play_expects(state: PlayState, event: PlayEvent) -> bool {
    match (state, event) {
        (PlayState::Start, PlayEvent::Begin { .. }) => true,
        (PlayState::AwaitFile, PlayEvent::FileChecked { .. }) => true,
        (PlayState::AwaitTrack, PlayEvent::TrackChecked { .. }) => true,
        (PlayState::AwaitCall, PlayEvent::CallChecked { .. }) => true,
        (PlayState::AwaitChannel, PlayEvent::ChannelFound { .. }) => true,
        (PlayState::AwaitJoin, PlayEvent::Joined { .. }) => true,
        (PlayState::AwaitStart, PlayEvent::Started { .. }) => true,
        _ => false,
    }
}

pub open spec fn play_says(r: (PlayState, PlayAction), text: Seq<char>) -> bool {
    r.0 == PlayState::Done && (r.1 matches PlayAction::Reply(t) && t@ == text)
}

pub open spec fn play_shows(r: (PlayState, PlayAction), text: Seq<char>) -> bool {
    r.0 == PlayState::Done && (r.1 matches PlayAction::SendControls(t) && t@ == text)
}

/// One step of starting a voice command `command_id`: a paused track of the
/// same command is resumed; in every other case the bot joins the author's
/// channel if it is in none, plays the file anew and records the new track
/// as this command's.
pub fn play_step(state: PlayState, event: PlayEvent, command_id: &str) -> (r: (PlayState, PlayAction))
    requires
        play_expects(state, event),
    ensures
        match event {
            PlayEvent::Begin { in_guild } => if in_guild {
                r.0 == PlayState::AwaitFile && r.1 is CheckFile
            } else {
                play_says(r, "Эта команда работает только на сервере."@)
            },
            PlayEvent::FileChecked { exists, shown_path } => if exists {
                r.0 == PlayState::AwaitTrack && r.1 is CheckTrack
            } else {
                play_says(r, "Файл `"@ + shown_path@ + "` не найден на диске."@)
            },
            PlayEvent::TrackChecked { same_command, track } => match track {
                Some((TrackMode::Pause, pos)) if same_command => r.0 == PlayState::Done
                    && (r.1 matches PlayAction::ResumeTrack(t) && t@ == "▶ Продолжаю «"@ + command_id@
                    + "» с "@ + clock_spec(pos as nat) + "."@),
                _ => r.0 == PlayState::AwaitCall && r.1 is CheckCall,
            },
            PlayEvent::CallChecked { in_call } => if in_call {
                r.0 == PlayState::AwaitStart && (r.1 matches PlayAction::StartTrack { command_id: c } && c@ == command_id@)
            } else {
                r.0 == PlayState::AwaitChannel && r.1 is FindChannel
            },
            PlayEvent::ChannelFound { found } => if found {
                r.0 == PlayState::AwaitJoin && r.1 is Join
            } else {
                play_says(r, "Зайди сначала в голосовой канал."@)
            },
            PlayEvent::Joined { ok } => if ok {
                r.0 == PlayState::AwaitStart && (r.1 matches PlayAction::StartTrack { command_id: c } && c@ == command_id@)
            } else {
                r.0 == PlayState::Done && r.1 is Nothing
            },
            PlayEvent::Started { ok } => if ok {
                play_shows(r, "▶ Воспроизвожу «"@ + command_id@ + "»."@)
            } else {
                r.0 == PlayState::Done && r.1 is Nothing
            },
        },
{
    match event {
        PlayEvent::Begin { in_guild } => {
            if in_guild {
                (PlayState::AwaitFile, PlayAction::CheckFile)
            } else {
                (
                    PlayState::Done,
                    PlayAction::Reply(String::from_str("Эта команда работает только на сервере.")),
                )
            }
        },
        PlayEvent::FileChecked { exists, shown_path } => {
            if exists {
                (PlayState::AwaitTrack, PlayAction::CheckTrack)
            } else {
                let text = String::from_str("Файл `").concat(shown_path.as_str()).concat(
                    "` не найден на диске.",
                );
                (PlayState::Done, PlayAction::Reply(text))
            }
        },
        PlayEvent::TrackChecked { same_command, track } => {
            match track {
                Some((TrackMode::Pause, pos)) if same_command => {
                    let text = String::from_str("▶ Продолжаю «").concat(command_id).concat(
                        "» с ",
                    ).concat(format_time(pos).as_str()).concat(".");
                    (PlayState::Done, PlayAction::ResumeTrack(text))
                },
                _ => (PlayState::AwaitCall, PlayAction::CheckCall),
            }
        },
        PlayEvent::CallChecked { in_call } => {
            if in_call {
                (PlayState::AwaitStart, PlayAction::StartTrack { command_id: String::from_str(command_id) })
            } else {
                (PlayState::AwaitChannel, PlayAction::FindChannel)
            }
        },
        PlayEvent::ChannelFound { found } => {
            if found {
                (PlayState::AwaitJoin, PlayAction::Join)
            } else {
                (
                    PlayState::Done,
                    PlayAction::Reply(String::from_str("Зайди сначала в голосовой канал.")),
                )
            }
        },
        PlayEvent::Joined { ok } => {
            if ok {
                (PlayState::AwaitStart, PlayAction::StartTrack { command_id: String::from_str(command_id) })
            } else {
                (PlayState::Done, PlayAction::Nothing)
            }
        },
        PlayEvent::Started { ok } => {
            if ok {
                let text = String::from_str("▶ Воспроизвожу «").concat(command_id).concat("».");
                (PlayState::Done, PlayAction::SendControls(text))
            } else {
                (PlayState::Done, PlayAction::Nothing)
            }
        },
    }
}

} // verus!
