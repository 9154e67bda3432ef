//! Settings of the web control panel (`panel.toml`) and the decisions of its
//! first-run setup.

use vstd::prelude::*;

use crate::password::{
    hash_password, is_argon2_phc, password_matches, PasswordHashFailure, MAX_PASSWORD_BYTES,
};
use crate::random::{random_token, token_charset};
use crate::text::{chars_eq, chars_of, is_ascii_alphanumeric, trim, trim_chars, trim_end, trim_start};

verus! {

/// How one logs into the control panel.
#[derive(Clone, Copy, Debug, PartialEq, Eq, Structural)]
pub enum AuthMode {
    /// Discord OAuth, with a redirect URI reachable from the browser.
    Discord,
    /// One shared password.
    Password,
}

impl Default for AuthMode {
    fn default() -> (m: AuthMode)
        ensures
            m == AuthMode::Discord,
    {
        AuthMode::Discord
    }
}

/// The Discord application used for OAuth login.
#[derive(Clone, Debug)]
pub struct DiscordOauthConfig {
    pub client_id: String,
    pub client_secret: String,
    pub redirect_uri: String,
}

impl Default for DiscordOauthConfig {
    fn default() -> (c: DiscordOauthConfig)
        ensures
            c.client_id@.len() == 0,
            c.client_secret@.len() == 0,
            c.redirect_uri@.len() == 0,
    {
        DiscordOauthConfig {
            client_id: String::new(),
            client_secret: String::new(),
            redirect_uri: String::new(),
        }
    }
}

/// The control panel's settings.
#[derive(Clone, Debug)]
pub struct PanelConfig {
    pub enabled: bool,
    pub host: String,
    pub port: u16,
    pub auth_mode: AuthMode,
    pub discord_oauth: DiscordOauthConfig,
    /// Argon2 hash of the panel password (password login only).
    pub password_hash: String,
    /// Key for the session cookies, generated at random on first start.
    pub session_secret: String,
    /// Discord id let in as the first administrator (Discord login only).
    pub initial_admin_discord_id: String,
}

pub fn default_true() -> (b: bool)
    ensures
        b,
{
    true
}

pub fn default_host() -> (h: String)
    ensures
        h@ == "127.0.0.1"@,
{
    String::from_str("127.0.0.1")
}

pub fn default_port() -> (p: u16)
    ensures
        p == 8787,
{
    8787
}

/// A string that can serve as a session secret: 48 ASCII letters and digits.
pub open spec fn is_session_secret(s: Seq<char>) -> bool {
    &&& s.len() == 48
    &&& forall|i: int| 0 <= i < 48 ==> token_charset().contains(#[trigger] s[i])
    &&& forall|i: int| 0 <= i < 48 ==> is_ascii_alphanumeric(#[trigger] s[i])
}

/// A fresh random session secret.
pub fn generate_secret() -> (s: String)
    ensures
        is_session_secret(s@),
{
    random_token(48)
}

impl Default for PanelConfig {
    fn default() -> (c: PanelConfig)
        ensures
            c.enabled,
            c.host@ == "127.0.0.1"@,
            c.port == 8787,
            c.auth_mode == AuthMode::Discord,
            c.discord_oauth.client_id@.len() == 0,
            c.discord_oauth.client_secret@.len() == 0,
            c.discord_oauth.redirect_uri@.len() == 0,
            c.password_hash@.len() == 0,
            is_session_secret(c.session_secret@),
            c.initial_admin_discord_id@.len() == 0,
    {
        PanelConfig {
            enabled: default_true(),
            host: default_host(),
            port: default_port(),
            auth_mode: AuthMode::default(),
            discord_oauth: DiscordOauthConfig::default(),
            password_hash: String::new(),
            session_secret: generate_secret(),
            initial_admin_discord_id: String::new(),
        }
    }
}

impl PanelConfig {
    /// Gives the settings a fresh secret when the stored one is blank (for
    /// example after a hand edit), and tells whether it did so, in which case
    /// the file must be saved again.
    pub fn ensure_session_secret(&mut self) -> (regenerated: bool)
        ensures
            regenerated == (trim(old(self).session_secret@).len() == 0),
            regenerated ==> is_session_secret(final(self).session_secret@),
            trim(final(self).session_secret@).len() > 0,
            !regenerated ==> final(self).session_secret@ == old(self).session_secret@,
            final(self).enabled == old(self).enabled,
            final(self).host@ == old(self).host@,
            final(self).port == old(self).port,
            final(self).auth_mode == old(self).auth_mode,
            final(self).discord_oauth.client_id@ == old(self).discord_oauth.client_id@,
            final(self).discord_oauth.client_secret@ == old(self).discord_oauth.client_secret@,
            final(self).discord_oauth.redirect_uri@ == old(self).discord_oauth.redirect_uri@,
            final(self).password_hash@ == old(self).password_hash@,
            final(self).initial_admin_discord_id@ == old(self).initial_admin_discord_id@,
    {
        let t = trim_chars(&chars_of(self.session_secret.as_str()));
        if t.len() == 0 {
            self.session_secret = generate_secret();
            proof {
                let n = self.session_secret@;
                assert(is_ascii_alphanumeric(n[0]) && is_ascii_alphanumeric(n[47]));
                assert(trim_start(n) == n);
                assert(trim_end(n) == n);
            }
            true
        } else {
            false
        }
    }
}

// ---------------------------------------------------------------------------
// First-run setup
// ---------------------------------------------------------------------------

/// Where the first-run dialogue stands.
pub enum SetupState {
    /// Waiting for the choice of login method.
    AwaitChoice,
    /// Waiting for the new password.
    AwaitPassword,
    /// Waiting for the new password to be repeated.
    AwaitRepeat { first: String },
    /// The dialogue is over.
    Done,
}

/// What the dialogue does next.
pub enum SetupAction {
    /// Ask for the new password.
    AskPassword,
    /// Tell that the password may not be empty, then ask again.
    RejectEmpty,
    /// Ask to repeat the password.
    AskRepeat,
    /// Tell that the two passwords differ, then ask for a new one.
    RejectMismatch,
    /// Use Discord OAuth login.
    UseDiscord,
    /// Use password login with this password.
    UsePassword(String),
    /// Nothing more to do.
    Nothing,
}

/// What every state of the dialogue keeps: a password waiting to be
/// repeated is not blank.
pub open spec fn setup_ready(state: SetupState) -> bool {
    state matches SetupState::AwaitRepeat { first } ==> trim(first@).len() > 0
}

pub open spec fn is_two(s: Seq<char>) -> bool {
    trim(s) == seq!['2']
}

/// One step of the first-run dialogue: choosing `2` selects password login,
/// anything else Discord login; a password must be non-blank and typed the
/// same way twice.
pub fn setup_step(state: SetupState, line: String) -> (r: (SetupState, SetupAction))
    ensures
        match state {
            SetupState::AwaitChoice => if is_two(line@) {
                r.0 is AwaitPassword && r.1 is AskPassword
            } else {
                r.0 is Done && r.1 is UseDiscord
            },
            SetupState::AwaitPassword => if trim(line@).len() == 0 {
                r.0 is AwaitPassword && r.1 is RejectEmpty
            } else {
                (r.0 matches SetupState::AwaitRepeat { first } && first@ == line@) && r.1 is AskRepeat
            },
            SetupState::AwaitRepeat { first } => if first@ != line@ {
                r.0 is AwaitPassword && r.1 is RejectMismatch
            } else {
                r.0 is Done && (r.1 matches SetupAction::UsePassword(x) && x@ == first@)
            },
            SetupState::Done => r.0 is Done && r.1 is Nothing,
        },
        setup_ready(r.0),
        setup_ready(state) ==> (r.1 matches SetupAction::UsePassword(x) ==> trim(x@).len() > 0),
{
    match state {
        SetupState::AwaitChoice => {
            let t = trim_chars(&chars_of(line.as_str()));
            let mut two: Vec<char> = Vec::new();
            two.push('2');
            proof {
                assert(two@ =~= seq!['2']);
            }
            if chars_eq(&t, &two) {
                (SetupState::AwaitPassword, SetupAction::AskPassword)
            } else {
                (SetupState::Done, SetupAction::UseDiscord)
            }
        },
        SetupState::AwaitPassword => {
            let t = trim_chars(&chars_of(line.as_str()));
            if t.len() == 0 {
                (SetupState::AwaitPassword, SetupAction::RejectEmpty)
            } else {
                (SetupState::AwaitRepeat { first: line }, SetupAction::AskRepeat)
            }
        },
        SetupState::AwaitRepeat { first } => {
            if first != line {
                (SetupState::AwaitPassword, SetupAction::RejectMismatch)
            } else {
                (SetupState::Done, SetupAction::UsePassword(first))
            }
        },
        SetupState::Done => (SetupState::Done, SetupAction::Nothing),
    }
}

/// `a` and `b` agree on every setting but the login method and the password
/// hash.
pub open spec fn same_but_login(a: PanelConfig, b: PanelConfig) -> bool {
    &&& a.enabled == b.enabled
    &&& a.host@ == b.host@
    &&& a.port == b.port
    &&& a.discord_oauth.client_id@ == b.discord_oauth.client_id@
    &&& a.discord_oauth.client_secret@ == b.discord_oauth.client_secret@
    &&& a.discord_oauth.redirect_uri@ == b.discord_oauth.redirect_uri@
    &&& a.session_secret@ == b.session_secret@
    &&& a.initial_admin_discord_id@ == b.initial_admin_discord_id@
}

/// Carries the outcome of the first-run dialogue into the settings: a chosen
/// password is hashed and stored and password login switched on; a choice
/// of Discord switches Discord login on. Only the hash is kept of the
/// password. Hashing succeeds for a password of at most `u32::MAX` bytes;
/// when it fails, the settings are left as they were.
pub fn apply_setup(cfg: &mut PanelConfig, action: SetupAction) -> (r: Result<(), PasswordHashFailure>)
    ensures
        same_but_login(*final(cfg), *old(cfg)),
        match action {
            SetupAction::UsePassword(p) => (vstd::utf8::encode_utf8(p@).len() <= MAX_PASSWORD_BYTES
                ==> r is Ok) && match r {
                Ok(_) => {
                    &&& final(cfg).auth_mode == AuthMode::Password
                    &&& password_matches(p@, final(cfg).password_hash@)
                    &&& is_argon2_phc(final(cfg).password_hash@)
                },
                Err(_) => final(cfg).auth_mode == old(cfg).auth_mode
                    && final(cfg).password_hash@ == old(cfg).password_hash@,
            },
            SetupAction::UseDiscord => r is Ok && final(cfg).auth_mode == AuthMode::Discord
                && final(cfg).password_hash@ == old(cfg).password_hash@,
            _ => r is Ok && final(cfg).auth_mode == old(cfg).auth_mode
                && final(cfg).password_hash@ == old(cfg).password_hash@,
        },
{
    match action {
        SetupAction::UsePassword(p) => {
            match hash_password(p.as_str()) {
                Ok(h) => {
                    cfg.auth_mode = AuthMode::Password;
                    cfg.password_hash = h;
                    Ok(())
                },
                Err(e) => Err(e),
            }
        },
        SetupAction::UseDiscord => {
            cfg.auth_mode = AuthMode::Discord;
            Ok(())
        },
        _ => Ok(()),
    }
}

} // verus!
