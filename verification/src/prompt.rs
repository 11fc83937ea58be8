use vstd::prelude::*;

use crate::errors::PromptError;
use vstd::string::StringSliceAdditionalSpecFns;

verus! {

/// Upper bound, in bytes, on an accepted prompt.
pub const PROMPT_MAX_BYTES: usize = 20_048_000;

/// Whether a character has the Unicode `White_Space` property: a
/// function of the character alone, computed by the standard library.
pub uninterp spec fn char_is_whitespace(c: char) -> bool;

/// Relies on char::is_whitespace of std: true exactly when the character
/// has the Unicode `White_Space` property.
pub assume_specification[ char::is_whitespace ](c: char) -> (r: bool)
    ensures
        r == char_is_whitespace(c),
;

/// A string is blank when every character is whitespace; trimming a
/// blank string leaves it empty.
pub open spec fn blank(s: Seq<char>) -> bool {
    forall|i: int| 0 <= i < s.len() ==> char_is_whitespace(#[trigger] s[i])
}

/// Whether the string holds nothing but whitespace.
pub fn is_blank(s: &str) -> (r: bool)
    ensures
        r == blank(s@),
{
    let n = s.unicode_len();
    let mut i: usize = 0;
    while i < n
        invariant
            i <= n,
            n == s@.len(),
            forall|k: int| 0 <= k < i ==> char_is_whitespace(#[trigger] s@[k]),
        decreases n - i,
    {
        if !s.get_char(i).is_whitespace() {
            return false;
        }
        i += 1;
    }
    true
}

/// The prompt text the inputs select: the prompt file's content when one
/// was given, else the inline prompt, else nothing.
pub open spec fn chosen_text(file_text: Option<&str>, prompt: Option<&str>) -> Seq<char> {
    match file_text {
        Some(t) => t@,
        None => match prompt {
            Some(p) => p@,
            None => Seq::empty(),
        },
    }
}

/// The bytes of the selected prompt text.
pub open spec fn chosen_bytes(file_text: Option<&str>, prompt: Option<&str>) -> Seq<u8> {
    match file_text {
        Some(t) => t.spec_bytes(),
        None => match prompt {
            Some(p) => p.spec_bytes(),
            None => Seq::empty(),
        },
    }
}

/// Selects and validates the prompt text: the content of the prompt file
/// when one was given (the file takes precedence), the inline prompt
/// otherwise.  A prompt must be supplied, must not be blank, and must
/// not exceed the size cap.
pub fn get_prompt(file_text: Option<&str>, prompt: Option<&str>) -> (r: Result<
    String,
    PromptError,
>)
    ensures
        match r {
            Ok(p) => {
                &&& p@ == chosen_text(file_text, prompt)
                &&& (file_text is Some || prompt is Some)
                &&& !blank(p@)
                &&& chosen_bytes(file_text, prompt).len() as usize <= PROMPT_MAX_BYTES
            },
            Err(e) => match e {
                PromptError::MissingSource => file_text is None && prompt is None,
                PromptError::MissingValue => (file_text is Some || prompt is Some) && blank(
                    chosen_text(file_text, prompt),
                ),
                PromptError::TooLarge { size } => {
                    &&& !blank(chosen_text(file_text, prompt))
                    &&& size == chosen_bytes(file_text, prompt).len() as usize
                    &&& size > PROMPT_MAX_BYTES
                },
            },
        },
{
    let chosen: &str = match file_text {
        Some(t) => t,
        None => match prompt {
            Some(p) => p,
            None => {
                return Err(PromptError::MissingSource);
            },
        },
    };
    if is_blank(chosen) {
        return Err(PromptError::MissingValue);
    }
    if chosen.len() > PROMPT_MAX_BYTES {
        return Err(PromptError::TooLarge { size: chosen.len() });
    }
    Ok(chosen.to_owned())
}

} // verus!
