//! Verified core of the tagvox Discord bot: phrase matching, control-panel
//! validation, session and cookie handling, and the decision logic of the
//! bot's commands.

pub mod text;
pub mod clock;
pub mod error;
pub mod phrases;
pub mod seqs;
pub mod catalog;
pub mod sounds;
pub mod random;
pub mod password;
pub mod panel;
pub mod config;
pub mod token;
pub mod cookie;
pub mod auth;
pub mod json;
pub mod anon;
pub mod order;
pub mod guilds;
pub mod matching;
pub mod voice;
pub mod message;
