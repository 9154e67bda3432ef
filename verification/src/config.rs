//! The bot's settings (`config.json`): their default values and the checks
//! the control panel makes before it saves new ones.

use vstd::prelude::*;

use crate::error::{api_error, check_matches, ApiError, ApiErrorView, ErrorStatus};
use crate::text::{chars_of, trim, trim_chars};

verus! {

/// The default prefix of the control commands (`!pause`, `!join`, ...).
pub fn default_prefix() -> (p: String)
    ensures
        p@ == "!"@,
{
    String::from_str("!")
}

pub fn default_true() -> (b: bool)
    ensures
        b,
{
    true
}

/// The default folder of the sound files, next to the executable.
pub fn default_sounds_dir() -> (d: String)
    ensures
        d@ == "sounds"@,
{
    String::from_str("sounds")
}

/// The refusal that new settings draw, if any. Whether the similarity
/// threshold lies in `0.0..=1.0` is decided by the caller, which holds it.
pub open spec fn validate_config_spec(
    command_prefix: Seq<char>,
    threshold_in_range: bool,
    sounds_dir: Seq<char>,
) -> Option<ApiErrorView> {
    if trim(command_prefix).len() == 0 {
        Some(api_error(ErrorStatus::BadRequest, "Префикс команд не может быть пустым"@))
    } else if !threshold_in_range {
        Some(
            api_error(
                ErrorStatus::BadRequest,
                "Порог похожести должен быть в диапазоне от 0 до 1"@,
            ),
        )
    } else if trim(sounds_dir).len() == 0 {
        Some(api_error(ErrorStatus::BadRequest, "Папка со звуками не может быть пустой"@))
    } else {
        None
    }
}

/// Checks new settings from the panel: a non-blank command prefix, a
/// threshold in range and a non-blank sounds folder, in that order.
pub fn validate_config(command_prefix: &str, threshold_in_range: bool, sounds_dir: &str) -> (r:
    Result<(), ApiError>)
    ensures
        check_matches(r, validate_config_spec(command_prefix@, threshold_in_range, sounds_dir@)),
{
    if trim_chars(&chars_of(command_prefix)).len() == 0 {
        return Err(ApiError::bad_request(String::from_str("Префикс команд не может быть пустым")));
    }
    if !threshold_in_range {
        return Err(
            ApiError::bad_request(
                String::from_str("Порог похожести должен быть в диапазоне от 0 до 1"),
            ),
        );
    }
    if trim_chars(&chars_of(sounds_dir)).len() == 0 {
        return Err(
            ApiError::bad_request(String::from_str("Папка со звуками не может быть пустой")),
        );
    }
    Ok(())
}

} // verus!
