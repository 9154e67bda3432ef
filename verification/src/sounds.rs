//! Sound files managed from the control panel: which names are accepted,
//! which formats are allowed, what content type a file is served with, and
//! the decisions of an upload.

use vstd::prelude::*;

use crate::error::{api_error, check_matches, ApiError, ApiErrorView, ErrorStatus};
use crate::order::{is_stable_order, stable_order};
use crate::text::{chars_eq, chars_of, lowercase, string_from_chars, to_lowercase, trim, trim_chars, u64_to_string};

verus! {

/// The largest accepted upload, in bytes (50 MiB).
pub const MAX_UPLOAD_BYTES: usize = 52428800;

// ---------------------------------------------------------------------------
// File names
// ---------------------------------------------------------------------------

pub open spec fn has_double_dot(s: Seq<char>) -> bool {
    exists|i: int| 0 <= i < s.len() - 1 && s[i] == '.' && #[trigger] s[i + 1] == '.'
}

/// The refusal that a requested file name draws, or the accepted name: the
/// trimmed name, which must be non-empty and hold no `/`, `\` or `..`.
pub open spec fn sanitize_filename_spec(name: Seq<char>) -> Result<Seq<char>, ApiErrorView> {
    let t = trim(name);
    if t.len() == 0 {
        Err(api_error(ErrorStatus::BadRequest, "Имя файла не может быть пустым"@))
    } else if t.contains('/') || t.contains('\\') || has_double_dot(t) {
        Err(api_error(ErrorStatus::BadRequest, "Некорректное имя файла"@))
    } else {
        Ok(t)
    }
}

/// An accepted file name is a bare name: non-empty, with no separator and
/// no `..`, so it stays inside the sounds folder.
pub proof fn law_accepted_name_is_bare(name: Seq<char>)
    requires
        sanitize_filename_spec(name) is Ok,
    ensures
        ({
            let n = sanitize_filename_spec(name)->Ok_0;
            n.len() > 0 && !n.contains('/') && !n.contains('\\') && !has_double_dot(n) && n == trim(name)
        }),
{
}

pub open spec fn name_outcome(r: Result<String, ApiError>) -> Result<Seq<char>, ApiErrorView> {
    match r {
        Ok(s) => Ok(s@),
        Err(e) => Err(e@),
    }
}

/// Accepts only a bare file name, so that no request can reach outside the
/// sounds folder.
pub fn sanitize_filename(name: &str) -> (r: Result<String, ApiError>)
    ensures
        name_outcome(r) == sanitize_filename_spec(name@),
{
    let t = trim_chars(&chars_of(name));
    if t.len() == 0 {
        return Err(ApiError::bad_request(String::from_str("Имя файла не может быть пустым")));
    }
    let mut i: usize = 0;
    while i < t.len()
        invariant
            i <= t@.len(),
            t@ == trim(name@),
            t@.len() > 0,
            forall|k: int| 0 <= k < i ==> t@[k] != '/' && t@[k] != '\\',
            forall|k: int| 0 <= k < i ==> !(#[trigger] t@[k] == '.' && k + 1 < t@.len() && t@[k + 1] == '.'),
        decreases t.len() - i,
    {
        let c = t[i];
        if c == '/' || c == '\\' || (c == '.' && i + 1 < t.len() && t[i + 1] == '.') {
            proof {
                if c == '/' {
                    assert(t@.contains('/'));
                } else if c == '\\' {
                    assert(t@.contains('\\'));
                } else {
                    assert(t@[i + 1 as int] == '.');
                    assert(has_double_dot(t@));
                }
            }
            return Err(ApiError::bad_request(String::from_str("Некорректное имя файла")));
        }
        i = i + 1;
    }
    proof {
        assert(!t@.contains('/'));
        assert(!t@.contains('\\'));
        assert(!has_double_dot(t@));
    }
    Ok(string_from_chars(&t))
}

// ---------------------------------------------------------------------------
// Extensions
// ---------------------------------------------------------------------------

/// What `Path::new(name).file_name()` gives, as a string.
pub uninterp spec fn path_file_name(name: Seq<char>) -> Option<Seq<char>>;

/// A name that std's path parsing reads as a single normal component.
pub open spec fn plain_file_name(s: Seq<char>) -> bool {
    &&& s.len() > 0
    &&& s != seq!['.']
    &&& s != seq!['.', '.']
    &&& !s.contains('/')
    &&& !s.contains('\\')
    &&& !s.contains(':')
}

/// Wraps `Path::file_name` on a path given as a string. Claims that the
/// result is the named file name of the path, and that a name which holds no
/// separator, no `:` and is none of ``, `.`, `..` is its own file name.
#[verifier::external_body]
fn file_name_of(name: &str) -> (r: Option<String>)
    ensures
        r is Some <==> path_file_name(name@) is Some,
        r is Some ==> path_file_name(name@) == Some(r.unwrap()@),
        plain_file_name(name@) ==> r is Some && r.unwrap()@ == name@,

{
    std::path::Path::new(name).file_name().map(|f| f.to_string_lossy().into_owned())
}

/// The index of the last `.` of a file name.
pub open spec fn last_dot(f: Seq<char>) -> Option<int>
    decreases f.len(),
{
    if f.len() == 0 {
        None
    } else if f.last() == '.' {
        Some(f.len() - 1)
    } else {
        last_dot(f.drop_last())
    }
}

/// The extension of a file name as `Path::extension` documents it: the part
/// after the last `.`, unless there is no `.` or the only one begins the name.
pub open spec fn extension_of(f: Seq<char>) -> Option<Seq<char>> {
    match last_dot(f) {
        Some(k) => if k > 0 {
            Some(f.skip(k + 1))
        } else {
            None
        },
        None => None,
    }
}

/// The extension of a path given as a string.
pub open spec fn path_extension(name: Seq<char>) -> Option<Seq<char>> {
    match path_file_name(name) {
        Some(f) => extension_of(f),
        None => None,
    }
}

proof fn lemma_last_dot_at(f: Seq<char>, j: int)
    requires
        0 <= j <= f.len(),
        forall|k: int| j <= k < f.len() ==> #[trigger] f[k] != '.',
        j == 0 || f[j - 1] == '.',
    ensures
        last_dot(f) == (if j == 0 {
            None
        } else {
            Some(j - 1)
        }),
    decreases f.len() - j,
{
    if j < f.len() {
        let g = f.drop_last();
        assert forall|k: int| j <= k < g.len() implies #[trigger] g[k] != '.' by {
            assert(g[k] == f[k]);
        }
        if j > 0 {
            assert(g[j - 1] == f[j - 1]);
        }
        lemma_last_dot_at(g, j);
    } else if j > 0 {
        assert(f.last() == '.');
    }
}

fn extension_chars(f: &Vec<char>) -> (r: Option<Vec<char>>)
    ensures
        match r {
            Some(e) => extension_of(f@) == Some(e@),
            None => extension_of(f@) is None,
        },
{
    let mut j: usize = f.len();
    while j > 0 && f[j - 1] != '.'
        invariant
            j <= f@.len(),
            forall|k: int| j <= k < f@.len() ==> #[trigger] f@[k] != '.',
        decreases j,
    {
        j = j - 1;
    }
    proof {
        lemma_last_dot_at(f@, j as int);
    }
    if j <= 1 {
        return None;
    }
    let mut e: Vec<char> = Vec::new();
    let mut k: usize = j;
    while k < f.len()
        invariant
            j <= k <= f@.len(),
            e@ == f@.subrange(j as int, k as int),
        decreases f.len() - k,
    {
        e.push(f[k]);
        proof {
            assert(e@ =~= f@.subrange(j as int, k + 1));
        }
        k = k + 1;
    }
    proof {
        assert(e@ =~= f@.skip(j as int));
    }
    Some(e)
}

fn lower_extension(name: &str) -> (r: Option<String>)
    ensures
        match r {
            Some(e) => path_extension(name@) matches Some(x) && e@ == lowercase(x),
            None => path_extension(name@) is None,
        },
{
    match file_name_of(name) {
        None => None,
        Some(f) => match extension_chars(&chars_of(f.as_str())) {
            None => None,
            Some(e) => {
                let s = string_from_chars(&e);
                Some(to_lowercase(s.as_str()))
            },
        },
    }
}

/// Whether a lowercased extension is one of the accepted audio formats.
pub open spec fn allowed_extension(e: Seq<char>) -> bool {
    e == "mp3"@ || e == "ogg"@ || e == "wav"@ || e == "flac"@
}

/// Whether the name carries an accepted audio extension (`mp3`, `ogg`,
/// `wav`, `flac`, in any case).
pub open spec fn has_allowed_extension_spec(name: Seq<char>) -> bool {
    match path_extension(name) {
        Some(e) => allowed_extension(lowercase(e)),
        None => false,
    }
}

fn is_literal(v: &Vec<char>, lit: &str) -> (r: bool)
    ensures
        r == (v@ == lit@),
{
    chars_eq(v, &chars_of(lit))
}

/// Whether the file name carries an accepted audio extension.
pub fn has_allowed_extension(name: &str) -> (r: bool)
    ensures
        r == has_allowed_extension_spec(name@),
{
    match lower_extension(name) {
        None => false,
        Some(e) => {
            let v = chars_of(e.as_str());
            is_literal(&v, "mp3") || is_literal(&v, "ogg") || is_literal(&v, "wav") || is_literal(
                &v,
                "flac",
            )
        },
    }
}

/// The content type a sound file is served with, by its lowercased extension.
pub open spec fn content_type_spec(name: Seq<char>) -> Seq<char> {
    let e = match path_extension(name) {
        Some(x) => lowercase(x),
        None => Seq::empty(),
    };
    if e == "mp3"@ {
        "audio/mpeg"@
    } else if e == "ogg"@ {
        "audio/ogg"@
    } else if e == "wav"@ {
        "audio/wav"@
    } else if e == "flac"@ {
        "audio/flac"@
    } else {
        "application/octet-stream"@
    }
}

/// The content type of a sound file by its name.
pub fn content_type_for(name: &str) -> (r: &'static str)
    ensures
        r@ == content_type_spec(name@),
{
    let e = match lower_extension(name) {
        Some(e) => e,
        None => {
            let empty = String::new();
            let lowered = to_lowercase(empty.as_str());
            proof {
                assert(lowered@ =~= Seq::<char>::empty());
            }
            lowered
        },
    };
    let v = chars_of(e.as_str());
    if is_literal(&v, "mp3") {
        "audio/mpeg"
    } else if is_literal(&v, "ogg") {
        "audio/ogg"
    } else if is_literal(&v, "wav") {
        "audio/wav"
    } else if is_literal(&v, "flac") {
        "audio/flac"
    } else {
        "application/octet-stream"
    }
}

// ---------------------------------------------------------------------------
// Uploads, deletions and serving
// ---------------------------------------------------------------------------

/// What an upload does with one field of the submitted form.
pub enum FieldDecision {
    /// The field is not the `file` field: look at the next one.
    Skip,
    /// The upload is refused.
    Reject(ApiError),
    /// The field carries a file to store under this name.
    Accept(String),
}

/// The decision on a form field: the field named `file` must carry an
/// acceptable file name with an allowed extension; other fields are skipped.
pub open spec fn field_decision_spec(field_name: Option<Seq<char>>, file_name: Option<Seq<char>>) -> Option<
    Result<Seq<char>, ApiErrorView>,
> {
    if field_name != Some("file"@) {
        None
    } else {
        match file_name {
            None => Some(Err(api_error(ErrorStatus::BadRequest, "Не указано имя файла"@))),
            Some(f) => match sanitize_filename_spec(f) {
                Err(e) => Some(Err(e)),
                Ok(n) => if has_allowed_extension_spec(n) {
                    Some(Ok(n))
                } else {
                    Some(
                        Err(
                            api_error(
                                ErrorStatus::BadRequest,
                                "Неподдерживаемый формат. Разрешены: mp3, ogg, wav, flac"@,
                            ),
                        ),
                    )
                },
            },
        }
    }
}

pub open spec fn opt_view(o: Option<&str>) -> Option<Seq<char>> {
    match o {
        Some(s) => Some(s@),
        None => None,
    }
}

/// Decides what an upload does with one form field.
pub fn upload_field_decision(field_name: Option<&str>, file_name: Option<&str>) -> (d: FieldDecision)
    ensures
        match field_decision_spec(opt_view(field_name), opt_view(file_name)) {
            None => d is Skip,
            Some(Ok(n)) => d matches FieldDecision::Accept(x) && x@ == n,
            Some(Err(e)) => d matches FieldDecision::Reject(x) && x@ == e,
        },
{
    let is_file_field = match field_name {
        Some(n) => is_literal(&chars_of(n), "file"),
        None => false,
    };
    if !is_file_field {
        return FieldDecision::Skip;
    }
    match file_name {
        None => FieldDecision::Reject(ApiError::bad_request(String::from_str("Не указано имя файла"))),
        Some(f) => match sanitize_filename(f) {
            Err(e) => FieldDecision::Reject(e),
            Ok(n) => {
                if has_allowed_extension(n.as_str()) {
                    FieldDecision::Accept(n)
                } else {
                    FieldDecision::Reject(
                        ApiError::bad_request(
                            String::from_str(
                                "Неподдерживаемый формат. Разрешены: mp3, ogg, wav, flac",
                            ),
                        ),
                    )
                }
            },
        },
    }
}

/// The refusal of an upload whose target file already exists.
pub fn already_exists_error(file_name: &str) -> (e: ApiError)
    ensures
        e@ == api_error(ErrorStatus::Conflict, "Файл «"@ + file_name@ + "» уже существует"@),
{
    ApiError::conflict(String::from_str("Файл «").concat(file_name).concat("» уже существует"))
}

/// The refusal of a request for a sound file that does not exist.
pub fn not_found_error(file_name: &str) -> (e: ApiError)
    ensures
        e@ == api_error(ErrorStatus::NotFound, "Файл «"@ + file_name@ + "» не найден"@),
{
    ApiError::not_found(String::from_str("Файл «").concat(file_name).concat("» не найден"))
}

/// The refusal of a form that has no `file` field.
pub fn missing_file_field_error() -> (e: ApiError)
    ensures
        e@ == api_error(ErrorStatus::BadRequest, "В запросе не найдено поле file"@),
{
    ApiError::bad_request(String::from_str("В запросе не найдено поле file"))
}

/// The refusal that an uploaded file's size draws, if any.
pub open spec fn upload_size_spec(len: nat) -> Option<ApiErrorView> {
    if len == 0 {
        Some(api_error(ErrorStatus::BadRequest, "Файл пустой"@))
    } else if len > MAX_UPLOAD_BYTES {
        Some(
            api_error(
                ErrorStatus::BadRequest,
                "Файл слишком большой (максимум "@ + crate::text::decimal(50) + " МБ)"@,
            ),
        )
    } else {
        None
    }
}

/// Checks the size of an uploaded file: not empty and at most 50 MiB.
pub fn check_upload_size(len: usize) -> (r: Result<(), ApiError>)
    ensures
        check_matches(r, upload_size_spec(len as nat)),
{
    if len == 0 {
        return Err(ApiError::bad_request(String::from_str("Файл пустой")));
    }
    if len > MAX_UPLOAD_BYTES {
        let mib = u64_to_string((MAX_UPLOAD_BYTES / 1024 / 1024) as u64);
        let msg = String::from_str("Файл слишком большой (максимум ").concat(mib.as_str()).concat(
            " МБ)",
        );
        return Err(ApiError::bad_request(msg));
    }
    Ok(())
}

/// The name under which a requested sound is served: a sanitized name with
/// an allowed extension.
pub open spec fn served_name_spec(name: Seq<char>) -> Result<Seq<char>, ApiErrorView> {
    match sanitize_filename_spec(name) {
        Err(e) => Err(e),
        Ok(n) => if has_allowed_extension_spec(n) {
            Ok(n)
        } else {
            Err(api_error(ErrorStatus::BadRequest, "Некорректное имя файла"@))
        },
    }
}

/// Checks the name of a sound requested for playback in the browser.
pub fn check_served_name(name: &str) -> (r: Result<String, ApiError>)
    ensures
        name_outcome(r) == served_name_spec(name@),
{
    let n = match sanitize_filename(name) {
        Err(e) => return Err(e),
        Ok(n) => n,
    };
    if !has_allowed_extension(n.as_str()) {
        return Err(ApiError::bad_request(String::from_str("Некорректное имя файла")));
    }
    Ok(n)
}

// ---------------------------------------------------------------------------
// The steps of an upload
// ---------------------------------------------------------------------------

/// Where an upload stands.
pub enum UploadState {
    /// Waiting for the next field of the form.
    AwaitField,
    /// Waiting to learn whether a file of this name exists already.
    AwaitExists { name: String },
    /// Waiting for the bytes of the file.
    AwaitBytes { name: String },
    /// Waiting for the file of this name and size to be written.
    AwaitWritten { name: String, size: usize },
    Done,
}

/// What happened since the last action.
pub enum UploadEvent {
    /// The next field of the form: its name and its file name.
    Field { field_name: Option<String>, file_name: Option<String> },
    /// The form has no more fields.
    NoMoreFields,
    /// Whether a file of the accepted name exists already.
    Exists(bool),
    /// The bytes of the file were read: their number.
    Bytes(usize),
    /// The file was written.
    Written,
}

/// What to do next.
pub enum UploadAction {
    /// Read the next field of the form.
    NextField,
    /// See whether a file of this name exists in the sounds folder.
    CheckExists(String),
    /// Read the bytes of the current field.
    ReadBytes,
    /// Write the bytes to the file of this name.
    Write(String),
    /// Answer with this error; done.
    Fail(ApiError),
    /// Answer that the file of this name and size was stored; done.
    Stored { name: String, size: usize },
}

pub open spec fn upload_expects(state: UploadState, event: UploadEvent) -> bool {
    match state {
        UploadState::AwaitField => event is Field || event is NoMoreFields,
        UploadState::AwaitExists { .. } => event is Exists,
        UploadState::AwaitBytes { .. } => event is Bytes,
        UploadState::AwaitWritten { .. } => event is Written,
        UploadState::Done => false,
    }
}

pub open spec fn opt_string_view(o: Option<String>) -> Option<Seq<char>> {
    match o {
        Some(s) => Some(s@),
        None => None,
    }
}

pub open spec fn upload_fails(r: (UploadState, UploadAction), e: ApiErrorView) -> bool {
    r.0 is Done && (r.1 matches UploadAction::Fail(x) && x@ == e)
}

fn as_str_opt(o: &Option<String>) -> (r: Option<&str>)
    ensures
        opt_view(r) == opt_string_view(*o),
{
    match o {
        Some(s) => Some(s.as_str()),
        None => None,
    }
}

/// One step of an upload: the first field named `file` decides; its name
/// must be acceptable and new, then its bytes must be of an acceptable
/// size before they are written. A form without such a field is refused.
pub fn upload_step(state: UploadState, event: UploadEvent) -> (r: (UploadState, UploadAction))
    requires
        upload_expects(state, event),
    ensures
        match (state, event) {
            (UploadState::AwaitField, UploadEvent::Field { field_name, file_name }) => match field_decision_spec(
                opt_string_view(field_name),
                opt_string_view(file_name),
            ) {
                None => r.0 is AwaitField && r.1 is NextField,
                Some(Err(e)) => upload_fails(r, e),
                Some(Ok(n)) => (r.0 matches UploadState::AwaitExists { name } && name@ == n) && (
                r.1 matches UploadAction::CheckExists(x) && x@ == n),
            },
            (UploadState::AwaitField, UploadEvent::NoMoreFields) => upload_fails(
                r,
                api_error(ErrorStatus::BadRequest, "В запросе не найдено поле file"@),
            ),
            (UploadState::AwaitExists { name }, UploadEvent::Exists(exists)) => if exists {
                upload_fails(
                    r,
                    api_error(ErrorStatus::Conflict, "Файл «"@ + name@ + "» уже существует"@),
                )
            } else {
                (r.0 matches UploadState::AwaitBytes { name: x } && x@ == name@) && r.1 is ReadBytes
            },
            (UploadState::AwaitBytes { name }, UploadEvent::Bytes(len)) => match upload_size_spec(
                len as nat,
            ) {
                Some(e) => upload_fails(r, e),
                None => (r.0 matches UploadState::AwaitWritten { name: x, size } && x@ == name@
                    && size == len) && (r.1 matches UploadAction::Write(x) && x@ == name@),
            },
            (UploadState::AwaitWritten { name, size }, UploadEvent::Written) => r.0 is Done && (
            r.1 matches UploadAction::Stored { name: x, size: z } && x@ == name@ && z == size),
            _ => false,
        },
{
    match (state, event) {
        (UploadState::AwaitField, UploadEvent::Field { field_name, file_name }) => {
            match upload_field_decision(as_str_opt(&field_name), as_str_opt(&file_name)) {
                FieldDecision::Skip => (UploadState::AwaitField, UploadAction::NextField),
                FieldDecision::Reject(e) => (UploadState::Done, UploadAction::Fail(e)),
                FieldDecision::Accept(n) => {
                    let key = n.clone();
                    (UploadState::AwaitExists { name: n }, UploadAction::CheckExists(key))
                },
            }
        },
        (UploadState::AwaitField, UploadEvent::NoMoreFields) => {
            (UploadState::Done, UploadAction::Fail(missing_file_field_error()))
        },
        (UploadState::AwaitExists { name }, UploadEvent::Exists(exists)) => {
            if exists {
                (UploadState::Done, UploadAction::Fail(already_exists_error(name.as_str())))
            } else {
                (UploadState::AwaitBytes { name }, UploadAction::ReadBytes)
            }
        },
        (UploadState::AwaitBytes { name }, UploadEvent::Bytes(len)) => {
            match check_upload_size(len) {
                Err(e) => (UploadState::Done, UploadAction::Fail(e)),
                Ok(()) => {
                    let key = name.clone();
                    (UploadState::AwaitWritten { name, size: len }, UploadAction::Write(key))
                },
            }
        },
        (UploadState::AwaitWritten { name, size }, UploadEvent::Written) => {
            (UploadState::Done, UploadAction::Stored { name, size })
        },
        _ => (UploadState::Done, UploadAction::NextField),
    }
}

// ---------------------------------------------------------------------------
// The list of sounds
// ---------------------------------------------------------------------------

/// An entry of the sounds folder.
#[derive(Clone, Debug)]
pub struct SoundEntry {
    pub name: String,
    /// Whether the entry is a regular file whose metadata could be read.
    pub is_file: bool,
    pub size_bytes: u64,
    /// The modification time in RFC 3339, or empty when unknown.
    pub modified_at: String,
}

/// A sound as the panel lists it.
#[derive(Clone, Debug)]
pub struct SoundInfo {
    pub name: String,
    pub size_bytes: u64,
    pub modified_at: String,
}

pub open spec fn is_listed_sound() -> spec_fn(SoundEntry) -> bool {
    |e: SoundEntry| e.is_file && has_allowed_extension_spec(e.name@)
}

pub open spec fn sound_view(e: SoundEntry) -> (Seq<char>, u64, Seq<char>) {
    (e.name@, e.size_bytes, e.modified_at@)
}

/// The listed entries, in their order: files with an accepted extension.
pub open spec fn listed_sounds(es: Seq<SoundEntry>) -> Seq<(Seq<char>, u64, Seq<char>)> {
    es.filter(is_listed_sound()).map_values(|e: SoundEntry| sound_view(e))
}

pub open spec fn sound_names(entries: Seq<(Seq<char>, u64, Seq<char>)>) -> Seq<Seq<char>> {
    entries.map_values(|e: (Seq<char>, u64, Seq<char>)| e.0)
}

/// `out` holds the entries in stable order by name.
pub open spec fn sorted_sounds(entries: Seq<(Seq<char>, u64, Seq<char>)>, out: Seq<SoundInfo>) -> bool {
    exists|p: Seq<usize>|
        {
            &&& is_stable_order(sound_names(entries), p)
            &&& out.len() == p.len()
            &&& forall|k: int|
                0 <= k < out.len() ==> ((#[trigger] out[k]).name@, out[k].size_bytes, out[k].modified_at@)
                    == entries[p[k] as int]
        }
}

/// What `chrono::DateTime::<Utc>::from_timestamp(secs, nanos)` followed by
/// `to_rfc3339` gives: the moment written in RFC 3339, or `None` when it lies
/// outside chrono's range.
pub uninterp spec fn rfc3339_utc(secs: i64, nanos: u32) -> Option<Seq<char>>;

/// Wraps `chrono::DateTime::<Utc>::from_timestamp` and `to_rfc3339`. Claims
/// that the result is the named text of the moment.
#[verifier::external_body]
fn rfc3339_of(secs: i64, nanos: u32) -> (r: Option<String>)
    ensures
        r is Some <==> rfc3339_utc(secs, nanos) is Some,
        r is Some ==> rfc3339_utc(secs, nanos) == Some(r.unwrap()@),
{
    chrono::DateTime::<chrono::Utc>::from_timestamp(secs, nanos).map(|d| d.to_rfc3339())
}

/// The modification time of a sound as the panel shows it: RFC 3339 in UTC,
/// given as seconds and nanoseconds since 1970; empty when the time is
/// unknown (or outside the range chrono can write).
pub fn modified_at_text(time: Option<(i64, u32)>) -> (r: String)
    ensures
        match time {
            Some((secs, nanos)) => match rfc3339_utc(secs, nanos) {
                Some(t) => r@ == t,
                None => r@.len() == 0,
            },
            None => r@.len() == 0,
        },
{
    match time {
        Some((secs, nanos)) => match rfc3339_of(secs, nanos) {
            Some(t) => t,
            None => String::new(),
        },
        None => String::new(),
    }
}

/// The list of sounds the panel shows: the files with an accepted audio
/// extension, sorted by name.
pub fn sound_listing(entries: Vec<SoundEntry>) -> (out: Vec<SoundInfo>)
    ensures
        sorted_sounds(listed_sounds(entries@), out@),
{
    let ghost es = entries@;
    let mut kept: Vec<SoundInfo> = Vec::new();
    let mut keys: Vec<Vec<char>> = Vec::new();
    let mut i: usize = 0;
    while i < entries.len()
        invariant
            i <= entries@.len(),
            es == entries@,
            kept@.len() == keys@.len(),
            kept@.map_values(|e: SoundInfo| (e.name@, e.size_bytes, e.modified_at@)) == listed_sounds(
                es.take(i as int),
            ),
            keys@.map_values(|k: Vec<char>| k@) == sound_names(listed_sounds(es.take(i as int))),
        decreases entries.len() - i,
    {
        proof {
            crate::seqs::lemma_filter_step(es, i as int, is_listed_sound());
        }
        if entries[i].is_file && has_allowed_extension(entries[i].name.as_str()) {
            let e = SoundInfo {
                name: entries[i].name.clone(),
                size_bytes: entries[i].size_bytes,
                modified_at: entries[i].modified_at.clone(),
            };
            let k = chars_of(entries[i].name.as_str());
            let ghost ev = kept@.map_values(|e: SoundInfo| (e.name@, e.size_bytes, e.modified_at@));
            let ghost kv = keys@.map_values(|k: Vec<char>| k@);
            kept.push(e);
            keys.push(k);
            proof {
                assert(kept@.map_values(|e: SoundInfo| (e.name@, e.size_bytes, e.modified_at@)) =~= ev.push(
                    sound_view(es[i as int]),
                ));
                assert(keys@.map_values(|k: Vec<char>| k@) =~= kv.push(es[i as int].name@));
                assert(listed_sounds(es.take(i + 1)) =~= listed_sounds(es.take(i as int)).push(
                    sound_view(es[i as int]),
                ));
                assert(sound_names(listed_sounds(es.take(i + 1))) =~= sound_names(
                    listed_sounds(es.take(i as int)),
                ).push(es[i as int].name@));
            }
        } else {
            proof {
                assert(listed_sounds(es.take(i + 1)) =~= listed_sounds(es.take(i as int)));
            }
        }
        i = i + 1;
    }
    proof {
        assert(es.take(i as int) =~= es);
    }
    let ghost ents = listed_sounds(es);
    let p = stable_order(&keys);
    let mut out: Vec<SoundInfo> = Vec::new();
    let mut k: usize = 0;
    while k < p.len()
        invariant
            k <= p@.len(),
            ents == listed_sounds(es),
            kept@.map_values(|e: SoundInfo| (e.name@, e.size_bytes, e.modified_at@)) == ents,
            keys@.map_values(|k: Vec<char>| k@) == sound_names(ents),
            is_stable_order(sound_names(ents), p@),
            out@.len() == k,
            forall|j: int|
                0 <= j < k ==> ((#[trigger] out@[j]).name@, out@[j].size_bytes, out@[j].modified_at@)
                    == ents[p@[j] as int],
        decreases p.len() - k,
    {
        let idx = p[k];
        proof {
            assert(idx < kept@.len());
            assert(ents[idx as int] == (
                kept@[idx as int].name@,
                kept@[idx as int].size_bytes,
                kept@[idx as int].modified_at@,
            ));
        }
        let e = SoundInfo {
            name: kept[idx].name.clone(),
            size_bytes: kept[idx].size_bytes,
            modified_at: kept[idx].modified_at.clone(),
        };
        out.push(e);
        k = k + 1;
    }
    proof {
        assert(out@.len() == p@.len());
    }
    out
}

} // verus!
