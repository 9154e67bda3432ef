//! What the bot does with a chat message: a control command after the
//! prefix, else (when mentioned, if the settings ask for it) the most
//! similar voice command or text reaction, else one of the fallback answers.

use vstd::prelude::*;

use crate::text::{chars_of, string_from_chars, trim, trim_chars, trim_str};
use crate::voice::{control_command_spec, parse_control_command, ControlCommand};

verus! {

// ---------------------------------------------------------------------------
// Mentions
// ---------------------------------------------------------------------------

/// What `regex::Regex::new(pattern)` followed by `Regex::replace_all(text, "")`
/// gives: the text with every match of the pattern (leftmost first, never
/// overlapping) removed, or `None` when the pattern does not compile.
pub uninterp spec fn regex_removed(pattern: Seq<char>, text: Seq<char>) -> Option<Seq<char>>;

/// Wraps `regex::Regex::new(pattern)` and `Regex::replace_all(text, "")`.
/// Claims that the result is the named outcome for the pattern and the
/// text; a pattern that does not compile gives `None`.
#[verifier::external_body]
fn regex_remove_all(pattern: &str, text: &str) -> (r: Option<String>)
    ensures
        r is Some <==> regex_removed(pattern@, text@) is Some,
        r is Some ==> regex_removed(pattern@, text@) == Some(r.unwrap()@),
{
    regex::Regex::new(pattern).ok().map(|re| re.replace_all(text, "").into_owned())
}

/// A user mention: `<@`, an optional `!`, one or more decimal digits, `>`.
pub open spec fn mention_pattern() -> Seq<char> {
    "<@!?\\d+>"@
}

/// The text of a message as it is matched against the phrases: without
/// user mentions, trimmed. The mention pattern is a valid one; were the
/// regex crate to refuse it, the text would only be trimmed.
pub open spec fn cleaned_text(s: Seq<char>) -> Seq<char> {
    match regex_removed(mention_pattern(), s) {
        Some(t) => trim(t),
        None => trim(s),
    }
}

/// The text of a message without user mentions, trimmed.
pub fn strip_mentions(s: &str) -> (r: String)
    ensures
        r@ == cleaned_text(s@),
{
    match regex_remove_all("<@!?\\d+>", s) {
        Some(t) => trim_str(t.as_str()),
        None => trim_str(s),
    }
}

// ---------------------------------------------------------------------------
// Random answers
// ---------------------------------------------------------------------------

/// Wraps `rand::seq::SliceRandom::choose` on the thread-local generator,
/// cloning the chosen answer. Claims what holds of every draw: nothing is
/// chosen from an empty list, and otherwise one of its elements.
#[verifier::external_body]
fn choose_answer(list: &Vec<String>) -> (r: Option<String>)
    ensures
        r is None <==> list@.len() == 0,
        r is Some ==> exists|i: int| 0 <= i < list@.len() && #[trigger] list@[i]@ == r.unwrap()@,
{
    rand::seq::SliceRandom::choose(list.as_slice(), &mut rand::thread_rng()).cloned()
}

/// One of the answers of `list`, drawn at random; none from an empty list.
pub open spec fn is_drawn_from(r: Option<String>, list: Seq<String>) -> bool {
    &&& (r is None <==> list.len() == 0)
    &&& (r is Some ==> exists|i: int| 0 <= i < list.len() && #[trigger] list[i]@ == r.unwrap()@)
}

/// Draws one answer of `list` at random.
pub fn pick_answer(list: &Vec<String>) -> (r: Option<String>)
    ensures
        is_drawn_from(r, list@),
{
    choose_answer(list)
}

// ---------------------------------------------------------------------------
// Routing a message
// ---------------------------------------------------------------------------

/// `prefix` stands at the start of `s`.
pub open spec fn has_prefix(s: Seq<char>, prefix: Seq<char>) -> bool {
    prefix.len() <= s.len() && s.take(prefix.len() as int) == prefix
}

/// The control command that a trimmed message gives, as the bot reads it:
/// the prefix, then one of the command words (surrounding whitespace
/// allowed), on a server.
pub open spec fn control_of(content: Seq<char>, prefix: Seq<char>, in_guild: bool) -> Option<
    ControlCommand,
> {
    if in_guild && has_prefix(content, prefix) {
        control_command_spec(trim(content.skip(prefix.len() as int)))
    } else {
        None
    }
}

/// Where the handling of a message stands.
pub enum MessageState {
    Start,
    /// Waiting to learn whether the bot was mentioned in `content`.
    AwaitMention { content: String },
    /// Waiting for the best matches of the cleaned text.
    AwaitMatch,
    Done,
}

/// What happened since the last action.
pub enum MessageEvent {
    /// A message arrived (first event), with the bot's settings.
    Received {
        from_bot: bool,
        content: String,
        in_guild: bool,
        command_prefix: String,
        require_mention: bool,
    },
    /// Whether the message mentions the bot (`false` also when that could
    /// not be determined).
    MentionChecked { mentioned: bool },
    /// The results of matching: the id of the best voice command, the
    /// answers of the best text reaction, and the fallback answers.
    Matched {
        voice_command: Option<String>,
        reaction_answers: Option<Vec<String>>,
        fallback_answers: Vec<String>,
    },
}

/// What to do next.
pub enum MessageAction {
    /// Leave the message be; done.
    Ignore,
    /// Carry out a control command; done.
    Control(ControlCommand),
    /// Find out whether the bot is mentioned.
    CheckMention,
    /// Find the best voice command and text reaction for this text.
    FindMatches(String),
    /// Start the voice command with this id; done.
    PlayVoice(String),
    /// Say this in the message's channel; done.
    Say(String),
}

pub open spec fn message_expects(state: MessageState, event: MessageEvent) -> bool {
    match (state, event) {
        (MessageState::Start, MessageEvent::Received { .. }) => true,
        (MessageState::AwaitMention { .. }, MessageEvent::MentionChecked { .. }) => true,
        (MessageState::AwaitMatch, MessageEvent::Matched { .. }) => true,
        _ => false,
    }
}

/// The step that follows once the bot may react to `content`: matching the
/// text without mentions, unless nothing is left of it.
pub open spec fn goes_to_matching(r: (MessageState, MessageAction), content: Seq<char>) -> bool {
    if cleaned_text(content).len() == 0 {
        r.0 is Done && r.1 is Ignore
    } else {
        r.0 is AwaitMatch && (r.1 matches MessageAction::FindMatches(t) && t@ == cleaned_text(
            content,
        ))
    }
}

pub open spec fn says_drawn(r: (MessageState, MessageAction), list: Seq<String>) -> bool {
    r.0 is Done && if list.len() == 0 {
        r.1 is Ignore
    } else {
        r.1 matches MessageAction::Say(t) && exists|i: int| 0 <= i < list.len() && #[trigger] list[i]@ == t@
    }
}

fn starts_with(s: &Vec<char>, prefix: &Vec<char>) -> (r: bool)
    ensures
        r == has_prefix(s@, prefix@),
{
    if prefix.len() > s.len() {
        return false;
    }
    let mut i: usize = 0;
    while i < prefix.len()
        invariant
            prefix@.len() <= s@.len(),
            i <= prefix@.len(),
            forall|k: int| 0 <= k < i ==> s@[k] == prefix@[k],
        decreases prefix.len() - i,
    {
        if s[i] != prefix[i] {
            proof {
                assert(s@.take(prefix@.len() as int)[i as int] != prefix@[i as int]);
            }
            return false;
        }
        i = i + 1;
    }
    proof {
        assert(s@.take(prefix@.len() as int) =~= prefix@);
    }
    true
}

fn control_command_of(content: &str, prefix: &str, in_guild: bool) -> (r: Option<ControlCommand>)
    ensures
        r == control_of(content@, prefix@, in_guild),
{
    if !in_guild {
        return None;
    }
    let c = chars_of(content);
    let p = chars_of(prefix);
    if !starts_with(&c, &p) {
        return None;
    }
    let mut rest: Vec<char> = Vec::new();
    let mut i: usize = p.len();
    while i < c.len()
        invariant
            p@.len() <= i <= c@.len(),
            rest@ == c@.subrange(p@.len() as int, i as int),
        decreases c.len() - i,
    {
        rest.push(c[i]);
        proof {
            assert(rest@ =~= c@.subrange(p@.len() as int, i + 1));
        }
        i = i + 1;
    }
    proof {
        assert(rest@ =~= c@.skip(p@.len() as int));
    }
    let word = string_from_chars(&trim_chars(&rest));
    parse_control_command(word.as_str())
}

fn to_matching(content: &str) -> (r: (MessageState, MessageAction))
    ensures
        goes_to_matching(r, content@),
{
    let clean = strip_mentions(content);
    if chars_of(clean.as_str()).len() == 0 {
        (MessageState::Done, MessageAction::Ignore)
    } else {
        (MessageState::AwaitMatch, MessageAction::FindMatches(clean))
    }
}

fn say_drawn(list: &Vec<String>) -> (r: (MessageState, MessageAction))
    ensures
        says_drawn(r, list@),
{
    match pick_answer(list) {
        Some(t) => (MessageState::Done, MessageAction::Say(t)),
        None => (MessageState::Done, MessageAction::Ignore),
    }
}

/// One step of handling a chat message. Messages of bots are ignored. A
/// control command after the prefix is carried out on a server; any other
/// message, once the bot is mentioned when the settings ask for that, is
/// matched without its mentions: the best voice command is started, else
/// the best text reaction answers, else a fallback answer is given.
pub fn message_step(state: MessageState, event: MessageEvent) -> (r: (MessageState, MessageAction))
    requires
        message_expects(state, event),
    ensures
        match (state, event) {
            (
                MessageState::Start,
                MessageEvent::Received { from_bot, content, in_guild, command_prefix, require_mention },
            ) => if from_bot {
                r.0 is Done && r.1 is Ignore
            } else {
                match control_of(trim(content@), command_prefix@, in_guild) {
                    Some(cmd) => r.0 is Done && r.1 == MessageAction::Control(cmd),
                    None => if require_mention {
                        (r.0 matches MessageState::AwaitMention { content: c } && c@ == trim(content@))
                            && r.1 is CheckMention
                    } else {
                        goes_to_matching(r, trim(content@))
                    },
                }
            },
            (MessageState::AwaitMention { content }, MessageEvent::MentionChecked { mentioned }) => if mentioned {
                goes_to_matching(r, content@)
            } else {
                r.0 is Done && r.1 is Ignore
            },
            (
                MessageState::AwaitMatch,
                MessageEvent::Matched { voice_command, reaction_answers, fallback_answers },
            ) => match voice_command {
                Some(id) => r.0 is Done && (r.1 matches MessageAction::PlayVoice(x) && x@ == id@),
                None => match reaction_answers {
                    Some(answers) => says_drawn(r, answers@),
                    None => says_drawn(r, fallback_answers@),
                },
            },
            _ => false,
        },
{
    match (state, event) {
        (
            MessageState::Start,
            MessageEvent::Received { from_bot, content, in_guild, command_prefix, require_mention },
        ) => {
            if from_bot {
                return (MessageState::Done, MessageAction::Ignore);
            }
            let trimmed = trim_str(content.as_str());
            match control_command_of(trimmed.as_str(), command_prefix.as_str(), in_guild) {
                Some(cmd) => (MessageState::Done, MessageAction::Control(cmd)),
                None => {
                    if require_mention {
                        (MessageState::AwaitMention { content: trimmed }, MessageAction::CheckMention)
                    } else {
                        to_matching(trimmed.as_str())
                    }
                },
            }
        },
        (MessageState::AwaitMention { content }, MessageEvent::MentionChecked { mentioned }) => {
            if mentioned {
                to_matching(content.as_str())
            } else {
                (MessageState::Done, MessageAction::Ignore)
            }
        },
        (
            MessageState::AwaitMatch,
            MessageEvent::Matched { voice_command, reaction_answers, fallback_answers },
        ) => {
            match voice_command {
                Some(id) => (MessageState::Done, MessageAction::PlayVoice(id)),
                None => match reaction_answers {
                    Some(answers) => say_drawn(&answers),
                    None => say_drawn(&fallback_answers),
                },
            }
        },
        _ => (MessageState::Done, MessageAction::Ignore),
    }
}

} // verus!
