use tagvox::auth::{
    authorize_url, begin_login, callback_step, missing_session_error, mode, new_session,
    password_login_check, password_login_user, session_store_error, session_verdict, start_session,
    AuthReply, CallbackAction, CallbackEvent, CallbackQuery, CallbackState,
    OAuthStates, TokenOutcome, UserOutcome,
};
use tagvox::clock::now_ts;
use tagvox::config::{default_prefix, default_sounds_dir, validate_config};
use tagvox::cookie::{
    clear_session_cookie, cookie_value, session_cookie, session_id_from_header, SESSION_TTL_SECS,
};
use tagvox::error::ErrorStatus;
use tagvox::panel::{
    apply_setup, default_host, default_port, generate_secret, setup_step, AuthMode, DiscordOauthConfig,
    PanelConfig, SetupAction, SetupState,
};
use tagvox::password::{hash_password, verify_password};
use tagvox::random::random_token;
use tagvox::token::{entered_token, usable_stored_token};

fn s(x: &str) -> String {
    x.to_string()
}

fn oauth() -> DiscordOauthConfig {
    DiscordOauthConfig {
        client_id: s("123"),
        client_secret: s("secret"),
        redirect_uri: s("http://127.0.0.1:8787/api/auth/discord/callback"),
    }
}

#[test]
fn config_defaults_and_checks() {
    assert_eq!(default_prefix(), "!");
    assert_eq!(default_sounds_dir(), "sounds");
    assert!(validate_config("!", true, "sounds").is_ok());
    assert_eq!(
        validate_config("  ", true, "sounds").unwrap_err().message,
        "Префикс команд не может быть пустым"
    );
    assert_eq!(
        validate_config("!", false, "sounds").unwrap_err().message,
        "Порог похожести должен быть в диапазоне от 0 до 1"
    );
    assert_eq!(
        validate_config("!", true, " ").unwrap_err().message,
        "Папка со звуками не может быть пустой"
    );
}

#[test]
fn stored_and_entered_tokens() {
    assert_eq!(usable_stored_token(Some(s("abc"))), Some(s("abc")));
    assert_eq!(usable_stored_token(Some(s("   "))), None);
    assert_eq!(usable_stored_token(None), None);
    assert_eq!(entered_token("  tok.en \n"), Some(s("tok.en")));
    assert_eq!(entered_token(" \t "), None);
}

#[test]
fn panel_defaults() {
    assert_eq!(default_host(), "127.0.0.1");
    assert_eq!(default_port(), 8787);
    assert_eq!(AuthMode::default(), AuthMode::Discord);
    let c = PanelConfig::default();
    assert!(c.enabled);
    assert_eq!(c.port, 8787);
    assert!(c.password_hash.is_empty());
    assert_eq!(c.session_secret.len(), 48);
    assert!(c.session_secret.chars().all(|ch| ch.is_ascii_alphanumeric()));
    let d = DiscordOauthConfig::default();
    assert!(d.client_id.is_empty() && d.redirect_uri.is_empty());
}

#[test]
fn random_tokens_and_secrets() {
    let t = random_token(32);
    assert_eq!(t.chars().count(), 32);
    assert!(t.chars().all(|ch| ch.is_ascii_alphanumeric()));
    assert_eq!(random_token(0), "");
    let g = generate_secret();
    assert_eq!(g.len(), 48);
}

#[test]
fn blank_session_secret_is_regenerated() {
    let mut c = PanelConfig::default();
    c.session_secret = s("   ");
    assert!(c.ensure_session_secret());
    assert_eq!(c.session_secret.len(), 48);
    let kept = c.session_secret.clone();
    assert!(!c.ensure_session_secret());
    assert_eq!(c.session_secret, kept);
}

#[test]
fn first_run_setup_dialogue() {
    let (st, act) = setup_step(SetupState::AwaitChoice, s(" 2 \n"));
    assert!(matches!(st, SetupState::AwaitPassword));
    assert!(matches!(act, SetupAction::AskPassword));
    let (st, act) = setup_step(SetupState::AwaitChoice, s("1"));
    assert!(matches!(st, SetupState::Done));
    assert!(matches!(act, SetupAction::UseDiscord));
    let (st, act) = setup_step(SetupState::AwaitPassword, s("  "));
    assert!(matches!(st, SetupState::AwaitPassword));
    assert!(matches!(act, SetupAction::RejectEmpty));
    let (st, act) = setup_step(SetupState::AwaitPassword, s("pw"));
    assert!(matches!(act, SetupAction::AskRepeat));
    let (st2, act2) = setup_step(st, s("pW"));
    assert!(matches!(st2, SetupState::AwaitPassword));
    assert!(matches!(act2, SetupAction::RejectMismatch));
    let (_, act3) = setup_step(SetupState::AwaitRepeat { first: s("pw") }, s("pw"));
    match act3 {
        SetupAction::UsePassword(p) => assert_eq!(p, "pw"),
        _ => panic!("expected the password to be used"),
    }
}

#[test]
fn hashed_password_verifies_and_others_do_not() {
    let h = hash_password("сложный пароль").unwrap();
    assert!(h.starts_with("$argon2"));
    assert!(verify_password("сложный пароль", &h));
    assert!(!verify_password("другой", &h));
    assert!(!verify_password("x", "not a hash"));
}

#[test]
fn password_login_checks() {
    let h = hash_password("pw").unwrap();
    assert!(password_login_check(AuthMode::Password, &h, "pw").is_ok());
    let e = password_login_check(AuthMode::Discord, &h, "pw").unwrap_err();
    assert_eq!(e.status, ErrorStatus::ServiceUnavailable);
    assert_eq!(e.message, "Вход по паролю не включён (auth_mode в panel.toml)");
    assert_eq!(e.status_code(), 503);
    let e = password_login_check(AuthMode::Password, "", "pw").unwrap_err();
    assert_eq!(e.message, "Пароль ещё не задан в panel.toml");
    let e = password_login_check(AuthMode::Password, &h, "wrong").unwrap_err();
    assert_eq!(e.status, ErrorStatus::Unauthorized);
    assert_eq!(e.message, "Неверный пароль");
    assert_eq!(e.status_code(), 401);
    assert_eq!(password_login_user(), "local-password-user");
}

#[test]
fn login_mode_names() {
    assert_eq!(mode(AuthMode::Discord).mode, "discord");
    assert_eq!(mode(AuthMode::Password).mode, "password");
}

#[test]
fn session_cookie_values() {
    assert_eq!(SESSION_TTL_SECS, 1209600);
    assert_eq!(
        session_cookie("abc123"),
        "tagvox_session=abc123; Path=/; Max-Age=1209600; HttpOnly; SameSite=Lax"
    );
    assert_eq!(clear_session_cookie(), "tagvox_session=; Path=/; Max-Age=0");
}

#[test]
fn cookie_header_reading() {
    assert_eq!(cookie_value("a=1; b=2", "b"), Some(s("2")));
    assert_eq!(cookie_value(" a = 1 ;b=x=y", "b"), Some(s("x=y")));
    assert_eq!(cookie_value("a=1", "c"), None);
    assert_eq!(cookie_value("novalue; a=2", "a"), Some(s("2")));
    assert_eq!(session_id_from_header("theme=dark; tagvox_session=XYZ"), Some(s("XYZ")));
    assert_eq!(session_id_from_header("theme=dark"), None);
}

#[test]
fn session_cookie_round_trip_on_examples() {
    for id in ["a", "Zz09", "abcdefghijklmnopqrstuvwxyz0123456789ABCDEFGHIJKL"] {
        let header = session_cookie(id);
        let pair = header.split(';').next().unwrap().to_string();
        assert_eq!(session_id_from_header(&pair), Some(s(id)));
        assert_eq!(session_id_from_header(&(pair + "; other=1")), Some(s(id)));
    }
}

#[test]
fn new_session_lasts_two_weeks() {
    let t = new_session(1_000);
    assert_eq!(t.created_at, 1_000);
    assert_eq!(t.expires_at, 1_000 + 1_209_600);
    assert_eq!(t.id.len(), 48);
    assert_eq!(t.cookie, session_cookie(&t.id));
    let now = now_ts().unwrap();
    assert!(now > 1_600_000_000);
    let started = start_session().unwrap();
    assert_eq!(started.expires_at - started.created_at, SESSION_TTL_SECS);
}

#[test]
fn session_lifetime_on_examples() {
    let t = new_session(50);
    let row = Some((s("user"), t.expires_at));
    assert_eq!(session_verdict(row.clone(), 50).unwrap().discord_user_id, "user");
    assert!(session_verdict(row.clone(), t.expires_at - 1).is_ok());
    let e = session_verdict(row, t.expires_at).unwrap_err();
    assert_eq!(e.message, "Сессия истекла или недействительна");
    assert!(session_verdict(None, 0).is_err());
    assert_eq!(missing_session_error().message, "Не авторизован");
    assert_eq!(session_store_error().message, "Не удалось создать сессию");
    assert_eq!(session_store_error().status_code(), 500);
}

#[test]
fn url_encoding_of_reserved_and_unicode() {
    assert_eq!(
        authorize_url("a b&c/é", "A-z_0.~", "s"),
        "https://discord.com/api/oauth2/authorize?client_id=a%20b%26c%2F%C3%A9&redirect_uri=A-z_0.~&response_type=code&scope=identify&state=s"
    );
    assert_eq!(
        authorize_url("1", "http://x/cb", "st"),
        "https://discord.com/api/oauth2/authorize?client_id=1&redirect_uri=http%3A%2F%2Fx%2Fcb&response_type=code&scope=identify&state=st"
    );
}

#[test]
fn login_refused_without_oauth_settings() {
    let mut states = OAuthStates::new();
    let e = begin_login(&DiscordOauthConfig::default(), &mut states, 0).unwrap_err();
    assert_eq!(e.status, ErrorStatus::ServiceUnavailable);
    assert_eq!(e.message, "Discord OAuth не настроен: заполни discord_oauth в panel.toml");
}

fn state_of(url: &str) -> String {
    url.rsplit("state=").next().unwrap().to_string()
}

#[test]
fn oauth_state_is_single_use() {
    let mut states = OAuthStates::new();
    let url = begin_login(&oauth(), &mut states, 10).unwrap();
    assert!(url.starts_with("https://discord.com/api/oauth2/authorize?client_id=123&"));
    let st = state_of(&url);
    assert_eq!(st.len(), 32);
    assert!(states.consume(&st, 20));
    assert!(!states.consume(&st, 21));
}

#[test]
fn oauth_state_expires_after_ten_minutes() {
    let mut states = OAuthStates::new();
    states.issue(s("tok"), 0);
    assert!(!states.consume("tok", 600_000_000_000));
    states.issue(s("tok2"), 5);
    assert!(states.consume("tok2", 600_000_000_004));
    assert!(!states.consume("never", 7));
}

fn query(code: Option<&str>, state: Option<&str>, error: Option<&str>) -> CallbackQuery {
    CallbackQuery { code: code.map(s), state: state.map(s), error: error.map(s) }
}

fn error_of(a: &CallbackAction) -> (ErrorStatus, String) {
    match a {
        CallbackAction::Reply(AuthReply::Error(e)) => (e.status, e.message.clone()),
        _ => panic!("expected an error reply"),
    }
}

#[test]
fn callback_walks_to_a_session_for_a_listed_admin() {
    let mut states = OAuthStates::new();
    states.issue(s("st"), 1);
    let (st, act) =
        callback_step(CallbackState::Start, CallbackEvent::Query(query(Some("c0de"), Some("st"), None)), &mut states, "", 2);
    assert!(matches!(act, CallbackAction::ExchangeCode { ref code } if code == "c0de"));
    let (st, act) = callback_step(st, CallbackEvent::Token(TokenOutcome::Token(s("tk"))), &mut states, "", 2);
    assert!(matches!(act, CallbackAction::FetchUser { ref access_token } if access_token == "tk"));
    let (st, act) = callback_step(
        st,
        CallbackEvent::User(UserOutcome::User { id: s("42"), username: s("bob") }),
        &mut states,
        "",
        2,
    );
    assert!(matches!(act, CallbackAction::CountAdminRecords { ref user_id } if user_id == "42"));
    let (st, act) = callback_step(st, CallbackEvent::AdminRecords(1), &mut states, "", 2);
    assert!(matches!(act, CallbackAction::OpenSession { ref user_id } if user_id == "42"));
    let (st, act) = callback_step(st, CallbackEvent::SessionOpened(Some(s("ck"))), &mut states, "", 2);
    assert!(matches!(st, CallbackState::Done));
    match act {
        CallbackAction::Reply(AuthReply::Redirect { location, cookie }) => {
            assert_eq!(location, "/");
            assert_eq!(cookie, Some(s("ck")));
        }
        _ => panic!("expected a redirect"),
    }
}

#[test]
fn callback_refusals() {
    let mut states = OAuthStates::new();
    let (_, act) =
        callback_step(CallbackState::Start, CallbackEvent::Query(query(None, None, Some("access denied"))), &mut states, "", 0);
    match act {
        CallbackAction::Reply(AuthReply::Redirect { location, cookie }) => {
            assert_eq!(location, "/?login_error=access%20denied");
            assert!(cookie.is_none());
        }
        _ => panic!("expected a redirect"),
    }
    let (_, act) = callback_step(CallbackState::Start, CallbackEvent::Query(query(Some("c"), None, None)), &mut states, "", 0);
    assert_eq!(error_of(&act), (ErrorStatus::BadRequest, s("Отсутствует code или state в запросе от Discord")));
    let (_, act) =
        callback_step(CallbackState::Start, CallbackEvent::Query(query(Some("c"), Some("bogus"), None)), &mut states, "", 0);
    assert_eq!(error_of(&act), (ErrorStatus::BadRequest, s("Неизвестный или истёкший state — попробуй войти заново")));
    let (_, act) = callback_step(CallbackState::AwaitToken, CallbackEvent::Token(TokenOutcome::Rejected), &mut states, "", 0);
    assert_eq!(error_of(&act), (ErrorStatus::BadGateway, s("Discord отклонил обмен кода на токен")));
    let (_, act) = callback_step(CallbackState::AwaitUser, CallbackEvent::User(UserOutcome::Malformed), &mut states, "", 0);
    assert_eq!(error_of(&act), (ErrorStatus::BadGateway, s("Discord вернул неожиданный ответ о пользователе")));
    let (_, act) = callback_step(
        CallbackState::AwaitAdminCount { user_id: s("7"), username: s("x") },
        CallbackEvent::AdminTotal(1),
        &mut states,
        "7",
        0,
    );
    assert_eq!(error_of(&act), (ErrorStatus::Forbidden, s("Этому Discord-аккаунту не разрешён вход в панель")));
    let (_, act) = callback_step(CallbackState::AwaitSession, CallbackEvent::SessionOpened(None), &mut states, "", 0);
    assert_eq!(error_of(&act), (ErrorStatus::Internal, s("Не удалось создать сессию")));
}

#[test]
fn first_admin_is_let_in_while_none_exists() {
    let mut states = OAuthStates::new();
    let (st, act) = callback_step(
        CallbackState::AwaitAdminCount { user_id: s("7"), username: s("x") },
        CallbackEvent::AdminTotal(0),
        &mut states,
        "7",
        0,
    );
    assert!(matches!(act, CallbackAction::InsertAdmin { ref user_id, ref username } if user_id == "7" && username == "x"));
    let (_, act) = callback_step(st, CallbackEvent::AdminInserted, &mut states, "7", 0);
    assert!(matches!(act, CallbackAction::OpenSession { ref user_id } if user_id == "7"));
    let (_, act) = callback_step(
        CallbackState::AwaitAdminCount { user_id: s("7"), username: s("x") },
        CallbackEvent::AdminTotal(0),
        &mut states,
        "",
        0,
    );
    assert_eq!(error_of(&act).0, ErrorStatus::Forbidden);
}

#[test]
fn regenerating_the_secret_keeps_the_oauth_settings() {
    let mut c = PanelConfig::default();
    c.discord_oauth = oauth();
    c.session_secret = s("");
    assert!(c.ensure_session_secret());
    assert_eq!(c.discord_oauth.client_id, "123");
    assert_eq!(c.discord_oauth.client_secret, "secret");
    assert_eq!(c.discord_oauth.redirect_uri, "http://127.0.0.1:8787/api/auth/discord/callback");
}

#[test]
fn setup_outcome_goes_into_the_settings() {
    let mut c = PanelConfig::default();
    apply_setup(&mut c, SetupAction::UsePassword(s("секрет"))).unwrap();
    assert_eq!(c.auth_mode, AuthMode::Password);
    assert!(c.password_hash.starts_with("$argon2"));
    assert_ne!(c.password_hash, "секрет");
    assert!(verify_password("секрет", &c.password_hash));
    assert!(c.enabled && c.port == 8787 && c.host == "127.0.0.1");
    let mut d = PanelConfig::default();
    apply_setup(&mut d, SetupAction::UseDiscord).unwrap();
    assert_eq!(d.auth_mode, AuthMode::Discord);
    assert!(d.password_hash.is_empty());
    let mut e = PanelConfig::default();
    apply_setup(&mut e, SetupAction::AskPassword).unwrap();
    assert_eq!(e.auth_mode, AuthMode::Discord);
}

#[test]
fn unparsable_hashes_are_refused() {
    assert!(!verify_password("", ""));
    assert!(!verify_password("pw", "argon2id$v=19"));
}
