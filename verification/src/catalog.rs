//! Edits of the phrase book through the control panel: validation of what
//! the panel sends, and creating, updating and deleting reactions, voice
//! commands and fallback answers.

use vstd::prelude::*;

use crate::seqs::{lemma_filter_all, lemma_filter_step};
use crate::error::{api_error, check_matches, outcome, ApiError, ApiErrorView, ErrorStatus};
use crate::phrases::{
    commands_view, copy_strings, reactions_view, CommandView, Phrases, PhrasesView, ReactionView,
    TextReaction, VoiceCommand,
};
use crate::text::{
    all_ascii, ascii_lower, chars_of, is_ascii_alphanumeric, is_ascii_char, lowercase, to_lowercase, trim,
    trim_chars, trim_str, unicode_whitespace,
};

verus! {

broadcast use vstd::seq_lib::group_seq_properties;

// ---------------------------------------------------------------------------
// What the panel sends
// ---------------------------------------------------------------------------

/// A new text reaction as the panel submits it.
pub struct ReactionCreateInput {
    pub id: String,
    pub triggers: Vec<String>,
    pub responses: Vec<String>,
}

/// New triggers and answers for an existing text reaction.
pub struct ReactionUpdateInput {
    pub triggers: Vec<String>,
    pub responses: Vec<String>,
}

/// A new voice command as the panel submits it.
pub struct VoiceCommandCreateInput {
    pub id: String,
    pub triggers: Vec<String>,
    pub file: String,
}

/// New triggers and file for an existing voice command.
pub struct VoiceCommandUpdateInput {
    pub triggers: Vec<String>,
    pub file: String,
}

// ---------------------------------------------------------------------------
// Validation
// ---------------------------------------------------------------------------

pub open spec fn id_char_ok(c: char) -> bool {
    is_ascii_alphanumeric(c) || c == '_' || c == '-'
}

/// The refusal that an entry id draws, if any.
pub open spec fn validate_id_spec(id: Seq<char>) -> Option<ApiErrorView> {
    let t = trim(id);
    if t.len() == 0 {
        Some(api_error(ErrorStatus::BadRequest, "id не может быть пустым"@))
    } else if t.len() > 64 {
        Some(api_error(ErrorStatus::BadRequest, "id слишком длинный (максимум 64 символа)"@))
    } else if !(forall|i: int| 0 <= i < t.len() ==> id_char_ok(#[trigger] t[i])) {
        Some(
            api_error(
                ErrorStatus::BadRequest,
                "id может содержать только латинские буквы, цифры, _ и -"@,
            ),
        )
    } else {
        None
    }
}

/// Checks an entry id: after trimming it must hold 1 to 64 characters, each
/// an ASCII letter or digit, `_` or `-`.
pub fn validate_id(id: &str) -> (r: Result<(), ApiError>)
    ensures
        check_matches(r, validate_id_spec(id@)),
{
    let t = trim_chars(&chars_of(id));
    if t.len() == 0 {
        return Err(ApiError::bad_request(String::from_str("id не может быть пустым")));
    }
    if t.len() > 64 {
        return Err(
            ApiError::bad_request(String::from_str("id слишком длинный (максимум 64 символа)")),
        );
    }
    let mut i: usize = 0;
    while i < t.len()
        invariant
            i <= t@.len(),
            t@ == trim(id@),
            0 < t@.len() <= 64,
            forall|k: int| 0 <= k < i ==> id_char_ok(#[trigger] t@[k]),
        decreases t.len() - i,
    {
        let c = t[i];
        let ok = ('0' <= c && c <= '9') || ('a' <= c && c <= 'z') || ('A' <= c && c <= 'Z')
            || c == '_' || c == '-';
        if !ok {
            proof {
                assert(!id_char_ok(t@[i as int]));
            }
            return Err(
                ApiError::bad_request(
                    String::from_str("id может содержать только латинские буквы, цифры, _ и -"),
                ),
            );
        }
        i = i + 1;
    }
    Ok(())
}

/// Every string of the list is empty once trimmed (true of the empty list).
pub open spec fn all_blank(list: Seq<Seq<char>>) -> bool {
    forall|i: int| 0 <= i < list.len() ==> trim(#[trigger] list[i]).len() == 0
}

/// Whether a string is empty once trimmed.
pub fn is_blank(s: &str) -> (b: bool)
    ensures
        b == (trim(s@).len() == 0),
{
    let t = trim_chars(&chars_of(s));
    t.len() == 0
}

fn all_blank_exec(list: &[String]) -> (b: bool)
    ensures
        b == all_blank(list.deep_view()),
{
    let mut i: usize = 0;
    while i < list.len()
        invariant
            i <= list@.len(),
            forall|k: int| 0 <= k < i ==> trim(#[trigger] list@[k]@).len() == 0,
        decreases list.len() - i,
    {
        if !is_blank(list[i].as_str()) {
            proof {
                assert(list.deep_view()[i as int] == list@[i as int]@);
            }
            return false;
        }
        i = i + 1;
    }
    proof {
        assert forall|k: int| 0 <= k < list.deep_view().len() implies trim(
            #[trigger] list.deep_view()[k],
        ).len() == 0 by {
            assert(list.deep_view()[k] == list@[k]@);
        }
    }
    true
}

/// The refusal that a reaction's triggers and answers draw, if any.
pub open spec fn validate_triggers_responses_spec(
    triggers: Seq<Seq<char>>,
    responses: Seq<Seq<char>>,
) -> Option<ApiErrorView> {
    if all_blank(triggers) {
        Some(api_error(ErrorStatus::BadRequest, "Нужен хотя бы один триггер"@))
    } else if all_blank(responses) {
        Some(api_error(ErrorStatus::BadRequest, "Нужен хотя бы один вариант ответа"@))
    } else {
        None
    }
}

/// Checks that a reaction has at least one non-blank trigger and at least
/// one non-blank answer.
pub fn validate_triggers_responses(triggers: &[String], responses: &[String]) -> (r: Result<
    (),
    ApiError,
>)
    ensures
        check_matches(
            r,
            validate_triggers_responses_spec(triggers.deep_view(), responses.deep_view()),
        ),
{
    if all_blank_exec(triggers) || triggers.len() == 0 {
        return Err(ApiError::bad_request(String::from_str("Нужен хотя бы один триггер")));
    }
    if all_blank_exec(responses) || responses.len() == 0 {
        return Err(ApiError::bad_request(String::from_str("Нужен хотя бы один вариант ответа")));
    }
    Ok(())
}

/// The id under which a new entry is stored: trimmed and lowercased.
pub open spec fn stored_id(id: Seq<char>) -> Seq<char> {
    lowercase(trim(id))
}

proof fn lemma_trim_of_unpadded(s: Seq<char>)
    requires
        s.len() > 0,
        !unicode_whitespace(s[0]),
        !unicode_whitespace(s.last()),
    ensures
        trim(s) == s,
{
}

/// An id that passes validation is still valid once stored: trimming leaves
/// only ASCII letters, digits, `_` and `-`, and lowercasing them keeps them so.
proof fn lemma_stored_id_valid(id: Seq<char>)
    requires
        validate_id_spec(id) is None,
        lowercase(trim(id)) == trim(id).map_values(|c: char| ascii_lower(c)),
    ensures
        validate_id_spec(stored_id(id)) is None,
{
    let t = trim(id);
    let l = stored_id(id);
    assert(id_char_ok(t[0]));
    assert(id_char_ok(t[t.len() - 1]));
    assert(l[0] == ascii_lower(t[0]));
    assert(l.last() == ascii_lower(t[t.len() - 1]));
    lemma_trim_of_unpadded(l);
    assert forall|i: int| 0 <= i < l.len() implies id_char_ok(#[trigger] l[i]) by {
        assert(id_char_ok(t[i]));
        assert(l[i] == ascii_lower(t[i]));
    }
}

fn stored_id_exec(id: &str) -> (r: String)
    requires
        validate_id_spec(id@) is None,
    ensures
        r@ == stored_id(id@),
        validate_id_spec(r@) is None,
{
    let t = trim_str(id);
    proof {
        let tt = trim(id@);
        assert forall|i: int| 0 <= i < tt.len() implies is_ascii_char(#[trigger] tt[i]) by {
            assert(id_char_ok(tt[i]));
        }
    }
    let r = to_lowercase(t.as_str());
    proof {
        lemma_stored_id_valid(id@);
    }
    r
}

// ---------------------------------------------------------------------------
// Finding entries by id
// ---------------------------------------------------------------------------

/// The index of the first id equal to `id`.
pub open spec fn first_index(ids: Seq<Seq<char>>, id: Seq<char>) -> Option<int>
    decreases ids.len(),
{
    if ids.len() == 0 {
        None
    } else if ids[0] == id {
        Some(0)
    } else {
        match first_index(ids.drop_first(), id) {
            Some(k) => Some(k + 1),
            None => None,
        }
    }
}

proof fn lemma_first_index_at(ids: Seq<Seq<char>>, id: Seq<char>, i: int)
    requires
        0 <= i <= ids.len(),
        forall|j: int| 0 <= j < i ==> #[trigger] ids[j] != id,
    ensures
        i < ids.len() && ids[i] == id ==> first_index(ids, id) == Some(i),
        i == ids.len() ==> first_index(ids, id) is None,
    decreases i,
{
    if i > 0 {
        let t = ids.drop_first();
        assert forall|j: int| 0 <= j < i - 1 implies #[trigger] t[j] != id by {
            assert(t[j] == ids[j + 1]);
        }
        lemma_first_index_at(t, id, i - 1);
        assert(ids[0] != id);
        if i < ids.len() {
            assert(t[i - 1] == ids[i]);
        }
    }
}

proof fn lemma_first_index_bounds(ids: Seq<Seq<char>>, id: Seq<char>)
    ensures
        first_index(ids, id) matches Some(i) ==> 0 <= i < ids.len() && ids[i] == id,
        first_index(ids, id) is None <==> !ids.contains(id),
    decreases ids.len(),
{
    if ids.len() > 0 {
        let t = ids.drop_first();
        lemma_first_index_bounds(t, id);
        if ids[0] != id {
            if t.contains(id) {
                let k = choose|k: int| 0 <= k < t.len() && t[k] == id;
                assert(ids[k + 1] == id);
            }
            if ids.contains(id) {
                let k = choose|k: int| 0 <= k < ids.len() && ids[k] == id;
                assert(t[k - 1] == id);
            }
        }
    }
}

pub open spec fn reaction_ids(rs: Seq<ReactionView>) -> Seq<Seq<char>> {
    rs.map_values(|r: ReactionView| r.id)
}

pub open spec fn command_ids(cs: Seq<CommandView>) -> Seq<Seq<char>> {
    cs.map_values(|c: CommandView| c.id)
}

/// Keeps the reactions whose id differs from `id`.
pub open spec fn reaction_other_than(id: Seq<char>) -> spec_fn(ReactionView) -> bool {
    |r: ReactionView| r.id != id
}

/// Keeps the commands whose id differs from `id`.
pub open spec fn command_other_than(id: Seq<char>) -> spec_fn(CommandView) -> bool {
    |c: CommandView| c.id != id
}

// ---------------------------------------------------------------------------
// Text reactions
// ---------------------------------------------------------------------------

/// What creating a reaction gives: the refusal, or the reaction to append.
pub open spec fn create_reaction_spec(
    rs: Seq<ReactionView>,
    id: Seq<char>,
    triggers: Seq<Seq<char>>,
    responses: Seq<Seq<char>>,
) -> Result<ReactionView, ApiErrorView> {
    match validate_id_spec(id) {
        Some(e) => Err(e),
        None => match validate_triggers_responses_spec(triggers, responses) {
            Some(e) => Err(e),
            None => {
                let sid = stored_id(id);
                if reaction_ids(rs).contains(sid) {
                    Err(
                        api_error(
                            ErrorStatus::Conflict,
                            "Реакция с id «"@ + sid + "» уже существует"@,
                        ),
                    )
                } else {
                    Ok(ReactionView { id: sid, triggers, responses })
                }
            },
        },
    }
}

/// What updating the reaction `id` gives: the refusal, or the new list and
/// the updated reaction. The first reaction with that exact id is updated.
pub open spec fn update_reaction_spec(
    rs: Seq<ReactionView>,
    id: Seq<char>,
    triggers: Seq<Seq<char>>,
    responses: Seq<Seq<char>>,
) -> Result<(Seq<ReactionView>, ReactionView), ApiErrorView> {
    match validate_triggers_responses_spec(triggers, responses) {
        Some(e) => Err(e),
        None => match first_index(reaction_ids(rs), id) {
            None => Err(api_error(ErrorStatus::NotFound, "Реакция «"@ + id + "» не найдена"@)),
            Some(i) => {
                let u = ReactionView { id: rs[i].id, triggers, responses };
                Ok((rs.update(i, u), u))
            },
        },
    }
}

/// What deleting the reaction `id` gives: the refusal, or the list without
/// every reaction of that exact id.
pub open spec fn delete_reaction_spec(rs: Seq<ReactionView>, id: Seq<char>) -> Result<
    Seq<ReactionView>,
    ApiErrorView,
> {
    if reaction_ids(rs).contains(id) {
        Ok(rs.filter(reaction_other_than(id)))
    } else {
        Err(api_error(ErrorStatus::NotFound, "Реакция «"@ + id + "» не найдена"@))
    }
}

// ---------------------------------------------------------------------------
// Voice commands
// ---------------------------------------------------------------------------

/// The refusal that a voice command's triggers and file draw, if any.
pub open spec fn validate_command_spec(triggers: Seq<Seq<char>>, file: Seq<char>) -> Option<
    ApiErrorView,
> {
    if triggers.len() == 0 {
        Some(api_error(ErrorStatus::BadRequest, "Нужен хотя бы один триггер"@))
    } else if trim(file).len() == 0 {
        Some(api_error(ErrorStatus::BadRequest, "Не указан звуковой файл"@))
    } else {
        None
    }
}

/// What creating a voice command gives: the refusal, or the command to append.
pub open spec fn create_command_spec(
    cs: Seq<CommandView>,
    id: Seq<char>,
    triggers: Seq<Seq<char>>,
    file: Seq<char>,
) -> Result<CommandView, ApiErrorView> {
    match validate_id_spec(id) {
        Some(e) => Err(e),
        None => match validate_command_spec(triggers, file) {
            Some(e) => Err(e),
            None => {
                let sid = stored_id(id);
                if command_ids(cs).contains(sid) {
                    Err(
                        api_error(
                            ErrorStatus::Conflict,
                            "Команда с id «"@ + sid + "» уже существует"@,
                        ),
                    )
                } else {
                    Ok(CommandView { id: sid, triggers, file })
                }
            },
        },
    }
}

/// What updating the voice command `id` gives.
pub open spec fn update_command_spec(
    cs: Seq<CommandView>,
    id: Seq<char>,
    triggers: Seq<Seq<char>>,
    file: Seq<char>,
) -> Result<(Seq<CommandView>, CommandView), ApiErrorView> {
    match validate_command_spec(triggers, file) {
        Some(e) => Err(e),
        None => match first_index(command_ids(cs), id) {
            None => Err(api_error(ErrorStatus::NotFound, "Команда «"@ + id + "» не найдена"@)),
            Some(i) => {
                let u = CommandView { id: cs[i].id, triggers, file };
                Ok((cs.update(i, u), u))
            },
        },
    }
}

/// What deleting the voice command `id` gives.
pub open spec fn delete_command_spec(cs: Seq<CommandView>, id: Seq<char>) -> Result<
    Seq<CommandView>,
    ApiErrorView,
> {
    if command_ids(cs).contains(id) {
        Ok(cs.filter(command_other_than(id)))
    } else {
        Err(api_error(ErrorStatus::NotFound, "Команда «"@ + id + "» не найдена"@))
    }
}

// ---------------------------------------------------------------------------
// Fallback answers
// ---------------------------------------------------------------------------

pub open spec fn trimmed(list: Seq<Seq<char>>) -> Seq<Seq<char>> {
    list.map_values(|s: Seq<char>| trim(s))
}

pub open spec fn non_empty() -> spec_fn(Seq<char>) -> bool {
    |s: Seq<char>| s.len() > 0
}

/// The fallback answers that a submitted list leaves: each trimmed, the
/// empty ones dropped.
pub open spec fn cleaned(list: Seq<Seq<char>>) -> Seq<Seq<char>> {
    trimmed(list).filter(non_empty())
}

impl Phrases {
    /// Appends a new text reaction, after the checks the panel makes.
    pub fn create_reaction(&mut self, input: ReactionCreateInput) -> (r: Result<
        TextReaction,
        ApiError,
    >)
        ensures
            outcome(r) == create_reaction_spec(
                old(self)@.text_reactions,
                input.id@,
                input.triggers.deep_view(),
                input.responses.deep_view(),
            ),
            r matches Ok(x) ==> validate_id_spec(x.id@) is None,
            final(self)@ == (match r {
                Ok(x) => PhrasesView {
                    text_reactions: old(self)@.text_reactions.push(x@),
                    voice_commands: old(self)@.voice_commands,
                    unknown_response: old(self)@.unknown_response,
                },
                Err(_) => old(self)@,
            }),
    {
        match validate_id(input.id.as_str()) {
            Err(e) => return Err(e),
            Ok(()) => {},
        }
        match validate_triggers_responses(input.triggers.as_slice(), input.responses.as_slice()) {
            Err(e) => return Err(e),
            Ok(()) => {},
        }
        let sid = stored_id_exec(input.id.as_str());
        let ghost rs = old(self)@.text_reactions;
        let mut i: usize = 0;
        while i < self.text_reactions.len()
            invariant
                i <= self.text_reactions@.len(),
                *self == *old(self),
                rs == reactions_view(self.text_reactions@),
                sid@ == stored_id(input.id@),
                validate_id_spec(sid@) is None,
                validate_id_spec(input.id@) is None,
                validate_triggers_responses_spec(
                    input.triggers.deep_view(),
                    input.responses.deep_view(),
                ) is None,
                forall|j: int| 0 <= j < i ==> #[trigger] reaction_ids(rs)[j] != sid@,
            decreases self.text_reactions.len() - i,
        {
            if self.text_reactions[i].id == sid {
                proof {
                    assert(reaction_ids(rs)[i as int] == sid@);
                }
                let msg = String::from_str("Реакция с id «").concat(sid.as_str()).concat(
                    "» уже существует",
                );
                return Err(ApiError::conflict(msg));
            }
            i = i + 1;
        }
        proof {
            assert(!reaction_ids(rs).contains(sid@));
        }
        let reaction = TextReaction { id: sid, triggers: input.triggers, responses: input.responses };
        let stored = reaction.copy();
        self.text_reactions.push(stored);
        proof {
            assert(reactions_view(self.text_reactions@) =~= rs.push(reaction@));
        }
        Ok(reaction)
    }

    /// Replaces the triggers and answers of the first reaction with id `id`.
    pub fn update_reaction(&mut self, id: &str, input: ReactionUpdateInput) -> (r: Result<
        TextReaction,
        ApiError,
    >)
        ensures
            match update_reaction_spec(
                old(self)@.text_reactions,
                id@,
                input.triggers.deep_view(),
                input.responses.deep_view(),
            ) {
                Ok((rs, u)) => r matches Ok(x) && x@ == u && final(self)@ == PhrasesView {
                    text_reactions: rs,
                    voice_commands: old(self)@.voice_commands,
                    unknown_response: old(self)@.unknown_response,
                },
                Err(e) => r matches Err(x) && x@ == e && final(self)@ == old(self)@,
            },
            r matches Ok(x) ==> x.id@ == id@ && x.triggers.deep_view() == input.triggers.deep_view()
                && x.responses.deep_view() == input.responses.deep_view(),
    {
        match validate_triggers_responses(input.triggers.as_slice(), input.responses.as_slice()) {
            Err(e) => return Err(e),
            Ok(()) => {},
        }
        let key = String::from_str(id);
        let ghost rs = old(self)@.text_reactions;
        let mut i: usize = 0;
        while i < self.text_reactions.len()
            invariant
                i <= self.text_reactions@.len(),
                *self == *old(self),
                rs == reactions_view(self.text_reactions@),
                key@ == id@,
                validate_triggers_responses_spec(
                    input.triggers.deep_view(),
                    input.responses.deep_view(),
                ) is None,
                forall|j: int| 0 <= j < i ==> #[trigger] reaction_ids(rs)[j] != id@,
            decreases self.text_reactions.len() - i,
        {
            if self.text_reactions[i].id == key {
                proof {
                    assert(reaction_ids(rs)[i as int] == id@);
                    lemma_first_index_at(reaction_ids(rs), id@, i as int);
                }
                let updated = TextReaction {
                    id: self.text_reactions[i].id.clone(),
                    triggers: input.triggers,
                    responses: input.responses,
                };
                let stored = updated.copy();
                self.text_reactions.set(i, stored);
                proof {
                    assert(reactions_view(self.text_reactions@) =~= rs.update(
                        i as int,
                        updated@,
                    ));
                }
                return Ok(updated);
            }
            i = i + 1;
        }
        proof {
            lemma_first_index_at(reaction_ids(rs), id@, i as int);
        }
        let msg = String::from_str("Реакция «").concat(id).concat("» не найдена");
        Err(ApiError::not_found(msg))
    }

    /// Removes every reaction whose id is exactly `id`.
    pub fn delete_reaction(&mut self, id: &str) -> (r: Result<(), ApiError>)
        ensures
            match delete_reaction_spec(old(self)@.text_reactions, id@) {
                Ok(rs) => r is Ok && final(self)@ == PhrasesView {
                    text_reactions: rs,
                    voice_commands: old(self)@.voice_commands,
                    unknown_response: old(self)@.unknown_response,
                },
                Err(e) => r matches Err(x) && x@ == e && final(self)@ == old(self)@,
            },
    {
        let key = String::from_str(id);
        let ghost rs = old(self)@.text_reactions;
        let ghost p = reaction_other_than(id@);
        let mut kept: Vec<TextReaction> = Vec::new();
        let mut found = false;
        let mut i: usize = 0;
        while i < self.text_reactions.len()
            invariant
                i <= self.text_reactions@.len(),
                *self == *old(self),
                rs == reactions_view(self.text_reactions@),
                key@ == id@,
                p == reaction_other_than(id@),
                reactions_view(kept@) == rs.take(i as int).filter(p),
                found == reaction_ids(rs).take(i as int).contains(id@),
            decreases self.text_reactions.len() - i,
        {
            proof {
                lemma_filter_step(rs, i as int, p);
                assert(reaction_ids(rs).take(i + 1) =~= reaction_ids(rs).take(i as int).push(
                    rs[i as int].id,
                ));
            }
            if self.text_reactions[i].id == key {
                found = true;
            } else {
                let c = self.text_reactions[i].copy();
                kept.push(c);
                proof {
                    assert(reactions_view(kept@) =~= rs.take(i as int).filter(p).push(rs[i as int]));
                }
            }
            i = i + 1;
        }
        proof {
            assert(rs.take(i as int) =~= rs);
            assert(reaction_ids(rs).take(i as int) =~= reaction_ids(rs));
        }
        if !found {
            let msg = String::from_str("Реакция «").concat(id).concat("» не найдена");
            return Err(ApiError::not_found(msg));
        }
        self.text_reactions = kept;
        Ok(())
    }

    /// Appends a new voice command, after the checks the panel makes.
    pub fn create_voice_command(&mut self, input: VoiceCommandCreateInput) -> (r: Result<
        VoiceCommand,
        ApiError,
    >)
        ensures
            outcome(r) == create_command_spec(
                old(self)@.voice_commands,
                input.id@,
                input.triggers.deep_view(),
                input.file@,
            ),
            r matches Ok(x) ==> validate_id_spec(x.id@) is None,
            final(self)@ == (match r {
                Ok(x) => PhrasesView {
                    text_reactions: old(self)@.text_reactions,
                    voice_commands: old(self)@.voice_commands.push(x@),
                    unknown_response: old(self)@.unknown_response,
                },
                Err(_) => old(self)@,
            }),
    {
        match validate_id(input.id.as_str()) {
            Err(e) => return Err(e),
            Ok(()) => {},
        }
        if input.triggers.len() == 0 {
            return Err(ApiError::bad_request(String::from_str("Нужен хотя бы один триггер")));
        }
        if is_blank(input.file.as_str()) {
            return Err(ApiError::bad_request(String::from_str("Не указан звуковой файл")));
        }
        let sid = stored_id_exec(input.id.as_str());
        let ghost cs = old(self)@.voice_commands;
        let mut i: usize = 0;
        while i < self.voice_commands.len()
            invariant
                i <= self.voice_commands@.len(),
                *self == *old(self),
                cs == commands_view(self.voice_commands@),
                sid@ == stored_id(input.id@),
                validate_id_spec(sid@) is None,
                validate_id_spec(input.id@) is None,
                validate_command_spec(input.triggers.deep_view(), input.file@) is None,
                forall|j: int| 0 <= j < i ==> #[trigger] command_ids(cs)[j] != sid@,
            decreases self.voice_commands.len() - i,
        {
            if self.voice_commands[i].id == sid {
                proof {
                    assert(command_ids(cs)[i as int] == sid@);
                }
                let msg = String::from_str("Команда с id «").concat(sid.as_str()).concat(
                    "» уже существует",
                );
                return Err(ApiError::conflict(msg));
            }
            i = i + 1;
        }
        proof {
            assert(!command_ids(cs).contains(sid@));
        }
        let command = VoiceCommand { id: sid, triggers: input.triggers, file: input.file };
        let stored = command.copy();
        self.voice_commands.push(stored);
        proof {
            assert(commands_view(self.voice_commands@) =~= cs.push(command@));
        }
        Ok(command)
    }

    /// Replaces the triggers and file of the first voice command with id `id`.
    pub fn update_voice_command(&mut self, id: &str, input: VoiceCommandUpdateInput) -> (r: Result<
        VoiceCommand,
        ApiError,
    >)
        ensures
            match update_command_spec(
                old(self)@.voice_commands,
                id@,
                input.triggers.deep_view(),
                input.file@,
            ) {
                Ok((cs, u)) => r matches Ok(x) && x@ == u && final(self)@ == PhrasesView {
                    text_reactions: old(self)@.text_reactions,
                    voice_commands: cs,
                    unknown_response: old(self)@.unknown_response,
                },
                Err(e) => r matches Err(x) && x@ == e && final(self)@ == old(self)@,
            },
            r matches Ok(x) ==> x.id@ == id@ && x.triggers.deep_view() == input.triggers.deep_view()
                && x.file@ == input.file@,
    {
        if input.triggers.len() == 0 {
            return Err(ApiError::bad_request(String::from_str("Нужен хотя бы один триггер")));
        }
        if is_blank(input.file.as_str()) {
            return Err(ApiError::bad_request(String::from_str("Не указан звуковой файл")));
        }
        let key = String::from_str(id);
        let ghost cs = old(self)@.voice_commands;
        let mut i: usize = 0;
        while i < self.voice_commands.len()
            invariant
                i <= self.voice_commands@.len(),
                *self == *old(self),
                cs == commands_view(self.voice_commands@),
                key@ == id@,
                validate_command_spec(input.triggers.deep_view(), input.file@) is None,
                forall|j: int| 0 <= j < i ==> #[trigger] command_ids(cs)[j] != id@,
            decreases self.voice_commands.len() - i,
        {
            if self.voice_commands[i].id == key {
                proof {
                    assert(command_ids(cs)[i as int] == id@);
                    lemma_first_index_at(command_ids(cs), id@, i as int);
                }
                let updated = VoiceCommand {
                    id: self.voice_commands[i].id.clone(),
                    triggers: input.triggers,
                    file: input.file,
                };
                let stored = updated.copy();
                self.voice_commands.set(i, stored);
                proof {
                    assert(commands_view(self.voice_commands@) =~= cs.update(i as int, updated@));
                }
                return Ok(updated);
            }
            i = i + 1;
        }
        proof {
            lemma_first_index_at(command_ids(cs), id@, i as int);
        }
        let msg = String::from_str("Команда «").concat(id).concat("» не найдена");
        Err(ApiError::not_found(msg))
    }

    /// Removes every voice command whose id is exactly `id`.
    pub fn delete_voice_command(&mut self, id: &str) -> (r: Result<(), ApiError>)
        ensures
            match delete_command_spec(old(self)@.voice_commands, id@) {
                Ok(cs) => r is Ok && final(self)@ == PhrasesView {
                    text_reactions: old(self)@.text_reactions,
                    voice_commands: cs,
                    unknown_response: old(self)@.unknown_response,
                },
                Err(e) => r matches Err(x) && x@ == e && final(self)@ == old(self)@,
            },
    {
        let key = String::from_str(id);
        let ghost cs = old(self)@.voice_commands;
        let ghost p = command_other_than(id@);
        let mut kept: Vec<VoiceCommand> = Vec::new();
        let mut found = false;
        let mut i: usize = 0;
        while i < self.voice_commands.len()
            invariant
                i <= self.voice_commands@.len(),
                *self == *old(self),
                cs == commands_view(self.voice_commands@),
                key@ == id@,
                p == command_other_than(id@),
                commands_view(kept@) == cs.take(i as int).filter(p),
                found == command_ids(cs).take(i as int).contains(id@),
            decreases self.voice_commands.len() - i,
        {
            proof {
                lemma_filter_step(cs, i as int, p);
                assert(command_ids(cs).take(i + 1) =~= command_ids(cs).take(i as int).push(
                    cs[i as int].id,
                ));
            }
            if self.voice_commands[i].id == key {
                found = true;
            } else {
                let c = self.voice_commands[i].copy();
                kept.push(c);
                proof {
                    assert(commands_view(kept@) =~= cs.take(i as int).filter(p).push(cs[i as int]));
                }
            }
            i = i + 1;
        }
        proof {
            assert(cs.take(i as int) =~= cs);
            assert(command_ids(cs).take(i as int) =~= command_ids(cs));
        }
        if !found {
            let msg = String::from_str("Команда «").concat(id).concat("» не найдена");
            return Err(ApiError::not_found(msg));
        }
        self.voice_commands = kept;
        Ok(())
    }

    /// Replaces the fallback answers by the cleaned submitted list, which
    /// must keep at least one answer.
    pub fn set_unknown_responses(&mut self, list: Vec<String>) -> (r: Result<
        Vec<String>,
        ApiError,
    >)
        ensures
            match r {
                Ok(v) => cleaned(list.deep_view()).len() > 0 && v.deep_view() == cleaned(
                    list.deep_view(),
                ) && final(self)@ == PhrasesView {
                    text_reactions: old(self)@.text_reactions,
                    voice_commands: old(self)@.voice_commands,
                    unknown_response: cleaned(list.deep_view()),
                },
                Err(e) => cleaned(list.deep_view()).len() == 0 && e@ == api_error(
                    ErrorStatus::BadRequest,
                    "Нужен хотя бы один вариант фразы-заглушки"@,
                ) && final(self)@ == old(self)@,
            },
    {
        let ghost t = trimmed(list.deep_view());
        let ghost p = non_empty();
        let mut out: Vec<String> = Vec::new();
        let mut i: usize = 0;
        while i < list.len()
            invariant
                i <= list@.len(),
                t == trimmed(list.deep_view()),
                p == non_empty(),
                out.deep_view() == t.take(i as int).filter(p),
            decreases list.len() - i,
        {
            let s = trim_str(list[i].as_str());
            proof {
                lemma_filter_step(t, i as int, p);
                assert(t[i as int] == s@);
            }
            if !s.as_str().is_empty() {
                let ghost before = out.deep_view();
                out.push(s);
                proof {
                    assert(out.deep_view() =~= before.push(t[i as int]));
                }
            } else {
                proof {
                    assert(s@.len() == 0);
                }
            }
            i = i + 1;
        }
        proof {
            assert(t.take(i as int) =~= t);
        }
        if out.len() == 0 {
            return Err(
                ApiError::bad_request(String::from_str("Нужен хотя бы один вариант фразы-заглушки")),
            );
        }
        let result = copy_strings(&out);
        self.unknown_response = out;
        Ok(result)
    }
}

// ---------------------------------------------------------------------------
// Laws of the phrase book's edits
// ---------------------------------------------------------------------------

/// A reaction that was just created can be deleted again by the id it was
/// stored under, and deleting it gives back exactly the list before.
pub proof fn law_created_reaction_is_removable(
    rs: Seq<ReactionView>,
    id: Seq<char>,
    triggers: Seq<Seq<char>>,
    responses: Seq<Seq<char>>,
)
    requires
        create_reaction_spec(rs, id, triggers, responses) is Ok,
    ensures
        ({
            let x = create_reaction_spec(rs, id, triggers, responses)->Ok_0;
            delete_reaction_spec(rs.push(x), x.id) == Ok::<Seq<ReactionView>, ApiErrorView>(rs)
        }),
{
    let x = create_reaction_spec(rs, id, triggers, responses)->Ok_0;
    let p = reaction_other_than(x.id);
    let all = rs.push(x);
    assert(reaction_ids(all)[rs.len() as int] == x.id);
    assert(reaction_ids(all).contains(x.id));
    assert forall|i: int| 0 <= i < rs.len() implies #[trigger] p(rs[i]) by {
        assert(reaction_ids(rs)[i] == rs[i].id);
    }
    lemma_filter_all(rs, p);
    reveal(Seq::filter);
    assert(all.drop_last() =~= rs);
}

/// Creating a reaction keeps the ids of the reactions pairwise distinct.
pub proof fn law_create_reaction_keeps_ids_distinct(
    rs: Seq<ReactionView>,
    id: Seq<char>,
    triggers: Seq<Seq<char>>,
    responses: Seq<Seq<char>>,
)
    requires
        reaction_ids(rs).no_duplicates(),
        create_reaction_spec(rs, id, triggers, responses) is Ok,
    ensures
        reaction_ids(rs.push(create_reaction_spec(rs, id, triggers, responses)->Ok_0)).no_duplicates(),
{
    let x = create_reaction_spec(rs, id, triggers, responses)->Ok_0;
    let ids = reaction_ids(rs.push(x));
    assert(ids =~= reaction_ids(rs).push(x.id));
    assert forall|i: int, j: int| 0 <= i < ids.len() && 0 <= j < ids.len() && i != j implies ids[i]
        != ids[j] by {
        if i < rs.len() && j < rs.len() {
            assert(reaction_ids(rs)[i] == ids[i]);
            assert(reaction_ids(rs)[j] == ids[j]);
        } else if i < rs.len() {
            assert(reaction_ids(rs)[i] == ids[i]);
        } else if j < rs.len() {
            assert(reaction_ids(rs)[j] == ids[j]);
        }
    }
}

/// Updating a reaction keeps the list's length and every reaction's id.
pub proof fn law_update_reaction_keeps_ids(
    rs: Seq<ReactionView>,
    id: Seq<char>,
    triggers: Seq<Seq<char>>,
    responses: Seq<Seq<char>>,
)
    requires
        update_reaction_spec(rs, id, triggers, responses) is Ok,
    ensures
        reaction_ids(update_reaction_spec(rs, id, triggers, responses)->Ok_0.0) == reaction_ids(rs),
{
    lemma_first_index_bounds(reaction_ids(rs), id);
    let i = first_index(reaction_ids(rs), id)->Some_0;
    assert(reaction_ids(rs)[i] == rs[i].id);
    assert(reaction_ids(update_reaction_spec(rs, id, triggers, responses)->Ok_0.0) =~= reaction_ids(
        rs,
    ));
}

/// A successful update gives the reaction exactly the submitted triggers and
/// answers, keeps its id, and puts it in the place of the first reaction of
/// that id; every other reaction stays as it was.
pub proof fn law_update_reaction_sets_fields(
    rs: Seq<ReactionView>,
    id: Seq<char>,
    triggers: Seq<Seq<char>>,
    responses: Seq<Seq<char>>,
)
    requires
        update_reaction_spec(rs, id, triggers, responses) is Ok,
    ensures
        ({
            let (out, u) = update_reaction_spec(rs, id, triggers, responses)->Ok_0;
            &&& u.id == id
            &&& u.triggers == triggers
            &&& u.responses == responses
            &&& out.len() == rs.len()
            &&& exists|i: int|
                0 <= i < rs.len() && rs[i].id == id && #[trigger] out[i] == u && forall|j: int|
                    0 <= j < rs.len() && j != i ==> out[j] == rs[j]
        }),
{
    lemma_first_index_bounds(reaction_ids(rs), id);
    let i = first_index(reaction_ids(rs), id)->Some_0;
    assert(reaction_ids(rs)[i] == rs[i].id);
    let (out, u) = update_reaction_spec(rs, id, triggers, responses)->Ok_0;
    assert(out[i] == u);
}

/// A successful update gives the voice command exactly the submitted
/// triggers and file, keeps its id, and puts it in the place of the first
/// command of that id; every other command stays as it was.
pub proof fn law_update_command_sets_fields(
    cs: Seq<CommandView>,
    id: Seq<char>,
    triggers: Seq<Seq<char>>,
    file: Seq<char>,
)
    requires
        update_command_spec(cs, id, triggers, file) is Ok,
    ensures
        ({
            let (out, u) = update_command_spec(cs, id, triggers, file)->Ok_0;
            &&& u.id == id
            &&& u.triggers == triggers
            &&& u.file == file
            &&& out.len() == cs.len()
            &&& exists|i: int|
                0 <= i < cs.len() && cs[i].id == id && #[trigger] out[i] == u && forall|j: int|
                    0 <= j < cs.len() && j != i ==> out[j] == cs[j]
        }),
{
    lemma_first_index_bounds(command_ids(cs), id);
    let i = first_index(command_ids(cs), id)->Some_0;
    assert(command_ids(cs)[i] == cs[i].id);
    let (out, u) = update_command_spec(cs, id, triggers, file)->Ok_0;
    assert(out[i] == u);
}

/// A voice command that was just created can be deleted again by the id it
/// was stored under, and deleting it gives back exactly the list before.
pub proof fn law_created_command_is_removable(
    cs: Seq<CommandView>,
    id: Seq<char>,
    triggers: Seq<Seq<char>>,
    file: Seq<char>,
)
    requires
        create_command_spec(cs, id, triggers, file) is Ok,
    ensures
        ({
            let x = create_command_spec(cs, id, triggers, file)->Ok_0;
            delete_command_spec(cs.push(x), x.id) == Ok::<Seq<CommandView>, ApiErrorView>(cs)
        }),
{
    let x = create_command_spec(cs, id, triggers, file)->Ok_0;
    let p = command_other_than(x.id);
    let all = cs.push(x);
    assert(command_ids(all)[cs.len() as int] == x.id);
    assert(command_ids(all).contains(x.id));
    assert forall|i: int| 0 <= i < cs.len() implies #[trigger] p(cs[i]) by {
        assert(command_ids(cs)[i] == cs[i].id);
    }
    lemma_filter_all(cs, p);
    reveal(Seq::filter);
    assert(all.drop_last() =~= cs);
}

/// Creating a voice command keeps the ids of the commands pairwise distinct.
pub proof fn law_create_command_keeps_ids_distinct(
    cs: Seq<CommandView>,
    id: Seq<char>,
    triggers: Seq<Seq<char>>,
    file: Seq<char>,
)
    requires
        command_ids(cs).no_duplicates(),
        create_command_spec(cs, id, triggers, file) is Ok,
    ensures
        command_ids(cs.push(create_command_spec(cs, id, triggers, file)->Ok_0)).no_duplicates(),
{
    let x = create_command_spec(cs, id, triggers, file)->Ok_0;
    let ids = command_ids(cs.push(x));
    assert(ids =~= command_ids(cs).push(x.id));
    assert forall|i: int, j: int| 0 <= i < ids.len() && 0 <= j < ids.len() && i != j implies ids[i]
        != ids[j] by {
        if i < cs.len() && j < cs.len() {
            assert(command_ids(cs)[i] == ids[i]);
            assert(command_ids(cs)[j] == ids[j]);
        } else if i < cs.len() {
            assert(command_ids(cs)[i] == ids[i]);
        } else if j < cs.len() {
            assert(command_ids(cs)[j] == ids[j]);
        }
    }
}

/// Deleting by an id leaves no entry of that id.
pub proof fn law_deleted_reaction_is_gone(rs: Seq<ReactionView>, id: Seq<char>)
    requires
        delete_reaction_spec(rs, id) is Ok,
    ensures
        !reaction_ids(delete_reaction_spec(rs, id)->Ok_0).contains(id),
{
    let out = rs.filter(reaction_other_than(id));
    if reaction_ids(out).contains(id) {
        let k = choose|k: int| 0 <= k < reaction_ids(out).len() && reaction_ids(out)[k] == id;
        rs.lemma_filter_pred(reaction_other_than(id), k);
    }
}

/// Updating a voice command keeps the list's length and every command's id.
pub proof fn law_update_command_keeps_ids(
    cs: Seq<CommandView>,
    id: Seq<char>,
    triggers: Seq<Seq<char>>,
    file: Seq<char>,
)
    requires
        update_command_spec(cs, id, triggers, file) is Ok,
    ensures
        command_ids(update_command_spec(cs, id, triggers, file)->Ok_0.0) == command_ids(cs),
{
    lemma_first_index_bounds(command_ids(cs), id);
    let i = first_index(command_ids(cs), id)->Some_0;
    assert(command_ids(cs)[i] == cs[i].id);
    assert(command_ids(update_command_spec(cs, id, triggers, file)->Ok_0.0) =~= command_ids(cs));
}

/// Deleting a voice command by an id leaves no command of that id.
pub proof fn law_deleted_command_is_gone(cs: Seq<CommandView>, id: Seq<char>)
    requires
        delete_command_spec(cs, id) is Ok,
    ensures
        !command_ids(delete_command_spec(cs, id)->Ok_0).contains(id),
{
    let out = cs.filter(command_other_than(id));
    if command_ids(out).contains(id) {
        let k = choose|k: int| 0 <= k < command_ids(out).len() && command_ids(out)[k] == id;
        cs.lemma_filter_pred(command_other_than(id), k);
    }
}

/// Every fallback answer kept from a submitted list is non-empty.
pub proof fn law_cleaned_answers_are_non_empty(list: Seq<Seq<char>>, i: int)
    requires
        0 <= i < cleaned(list).len(),
    ensures
        cleaned(list)[i].len() > 0,
{
    trimmed(list).lemma_filter_pred(non_empty(), i);
}

} // verus!
