//! The bot's phrase book: text reactions, voice commands and the fallback
//! answers, with their mathematical views.

use vstd::prelude::*;

verus! {

/// A text reaction: similar trigger phrases and the answers the bot picks
/// from at random.
#[derive(Clone, Debug)]
pub struct TextReaction {
    pub id: String,
    pub triggers: Vec<String>,
    pub responses: Vec<String>,
}

/// A voice command: similar trigger phrases and the sound file to play.
#[derive(Clone, Debug)]
pub struct VoiceCommand {
    pub id: String,
    pub triggers: Vec<String>,
    pub file: String,
}

/// The whole phrase book.
#[derive(Clone, Debug)]
pub struct Phrases {
    pub text_reactions: Vec<TextReaction>,
    pub voice_commands: Vec<VoiceCommand>,
    pub unknown_response: Vec<String>,
}

pub struct ReactionView {
    pub id: Seq<char>,
    pub triggers: Seq<Seq<char>>,
    pub responses: Seq<Seq<char>>,
}

pub struct CommandView {
    pub id: Seq<char>,
    pub triggers: Seq<Seq<char>>,
    pub file: Seq<char>,
}

pub struct PhrasesView {
    pub text_reactions: Seq<ReactionView>,
    pub voice_commands: Seq<CommandView>,
    pub unknown_response: Seq<Seq<char>>,
}

impl View for TextReaction {
    type V = ReactionView;

    open spec fn view(&self) -> ReactionView {
        ReactionView {
            id: self.id@,
            triggers: self.triggers.deep_view(),
            responses: self.responses.deep_view(),
        }
    }
}

impl View for VoiceCommand {
    type V = CommandView;

    open spec fn view(&self) -> CommandView {
        CommandView { id: self.id@, triggers: self.triggers.deep_view(), file: self.file@ }
    }
}

pub open spec fn reactions_view(v: Seq<TextReaction>) -> Seq<ReactionView> {
    v.map_values(|r: TextReaction| r@)
}

pub open spec fn commands_view(v: Seq<VoiceCommand>) -> Seq<CommandView> {
    v.map_values(|c: VoiceCommand| c@)
}

impl View for Phrases {
    type V = PhrasesView;

    open spec fn view(&self) -> PhrasesView {
        PhrasesView {
            text_reactions: reactions_view(self.text_reactions@),
            voice_commands: commands_view(self.voice_commands@),
            unknown_response: self.unknown_response.deep_view(),
        }
    }
}

/// A copy of a list of strings.
pub fn copy_strings(v: &Vec<String>) -> (r: Vec<String>)
    ensures
        r.deep_view() == v.deep_view(),
{
    let mut r: Vec<String> = Vec::new();
    let mut i: usize = 0;
    while i < v.len()
        invariant
            i <= v.len(),
            r@ == v@.subrange(0, i as int),
        decreases v.len() - i,
    {
        r.push(v[i].clone());
        proof {
            assert(r@ =~= v@.subrange(0, i + 1));
        }
        i = i + 1;
    }
    proof {
        assert(r@ =~= v@);
        assert(r.deep_view() =~= v.deep_view());
    }
    r
}

impl TextReaction {
    /// A copy of the reaction.
    pub fn copy(&self) -> (r: TextReaction)
        ensures
            r@ == self@,
    {
        TextReaction {
            id: self.id.clone(),
            triggers: copy_strings(&self.triggers),
            responses: copy_strings(&self.responses),
        }
    }
}

impl VoiceCommand {
    /// A copy of the command.
    pub fn copy(&self) -> (r: VoiceCommand)
        ensures
            r@ == self@,
    {
        VoiceCommand {
            id: self.id.clone(),
            triggers: copy_strings(&self.triggers),
            file: self.file.clone(),
        }
    }
}

/// The fallback answers used when `phrases.json` names none.
pub fn default_unknown() -> (r: Vec<String>)
    ensures
        r.deep_view() == seq!["Не понял, что ты имеешь в виду."@],
{
    let mut r: Vec<String> = Vec::new();
    r.push(String::from_str("Не понял, что ты имеешь в виду."));
    proof {
        assert(r.deep_view() =~= seq!["Не понял, что ты имеешь в виду."@]);
    }
    r
}

} // verus!
