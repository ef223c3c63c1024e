//! Text that goes to a peer's clipboard.

use crate::text::byte_length;
use vstd::prelude::*;
use vstd::string::StringExecFns;

verus! {

pub const MAX_CLIPBOARD_TEXT_BYTES: usize = 65_536;

#[derive(Debug, Clone, Copy, PartialEq, Eq, Structural)]
pub enum ClipboardTextError {
    TooLarge { bytes: usize, maximum: usize },
}

impl ClipboardTextError {
    /// What the error says.
    pub open spec fn spec_message(self) -> Seq<char> {
        match self {
            ClipboardTextError::TooLarge { bytes, maximum } => "clipboard UTF-8 text is "@
                + crate::text::decimal(bytes as nat) + " bytes; maximum is "@
                + crate::text::decimal(maximum as nat),
        }
    }

    /// The text for people.
    #[must_use]
    pub fn message(&self) -> (text: String)
        ensures
            text@ == self.spec_message(),
    {
        match self {
            ClipboardTextError::TooLarge { bytes, maximum } => {
                let mut text: String = "clipboard UTF-8 text is ".to_owned();
                crate::text::push_decimal(&mut text, *bytes as u64);
                text.append(" bytes; maximum is ");
                crate::text::push_decimal(&mut text, *maximum as u64);
                text
            },
        }
    }
}

/// The limit is on the bytes of the text in UTF-8.
pub open spec fn spec_validate_text(text: Seq<char>) -> Result<(), ClipboardTextError> {
    if crate::text::byte_len(text) > MAX_CLIPBOARD_TEXT_BYTES {
        Err(
            ClipboardTextError::TooLarge {
                bytes: crate::text::byte_len(text) as usize,
                maximum: MAX_CLIPBOARD_TEXT_BYTES,
            },
        )
    } else {
        Ok(())
    }
}

pub fn validate_text(text: &str) -> (result: Result<(), ClipboardTextError>)
    ensures
        result == spec_validate_text(text@),
{
    let bytes: usize = byte_length(text);
    if bytes > MAX_CLIPBOARD_TEXT_BYTES {
        return Err(ClipboardTextError::TooLarge { bytes, maximum: MAX_CLIPBOARD_TEXT_BYTES });
    }
    Ok(())
}

/// A text is taken up to its limit in bytes, and beyond it the refusal says how long it is.
pub proof fn law_clipboard_limit(text: Seq<char>)
    ensures
        vstd::utf8::encode_utf8(text).len() <= 65_536 ==> spec_validate_text(text) is Ok,
        65_536 < vstd::utf8::encode_utf8(text).len() <= usize::MAX ==> {
            &&& spec_validate_text(text) is Err
            &&& spec_validate_text(text)->Err_0->bytes == vstd::utf8::encode_utf8(text).len()
            &&& spec_validate_text(text)->Err_0->maximum == 65_536
        },
{
}

} // verus!
