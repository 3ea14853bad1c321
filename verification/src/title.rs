//! The validated title type. A title is trimmed on construction; validation
//! rejects a title that is empty after trimming or whose UTF-8 form exceeds
//! the maximum length in bytes.

use vstd::prelude::*;
use crate::app_error::{AppError, AppResult};
use crate::text::trim_spec;
use crate::text::trim_str;

verus! {

/// The maximum stored title length, in bytes of its UTF-8 form.
pub const MAX_TITLE_LEN: usize = 30;

/// The UTF-8 byte length of a character sequence.
pub open spec fn byte_len(s: Seq<char>) -> nat {
    vstd::utf8::encode_utf8(s).len()
}

/// Whether a trimmed title passes validation: non-empty and within the
/// maximum byte length.
pub open spec fn title_ok(t: Seq<char>) -> bool {
    t.len() > 0 && byte_len(t) <= MAX_TITLE_LEN
}

/// A raw title, trimmed of leading and trailing white space on construction.
/// Its view is the trimmed character sequence.
#[derive(Clone)]
pub struct Title {
    text: String,
}

impl View for Title {
    type V = Seq<char>;

    closed spec fn view(&self) -> Seq<char> {
        self.text@
    }
}

impl Title {
    /// Wraps a raw title, trimming white space from both ends.
    pub fn new(raw: String) -> (t: Title)
        ensures
            t@ == trim_spec(raw@),
    {
        let trimmed = trim_str(raw.as_str());
        Title { text: trimmed.to_owned() }
    }

    /// Returns the trimmed title when it is non-empty and at most
    /// `MAX_TITLE_LEN` bytes long; otherwise reports exactly which rule the
    /// title breaks.
    pub fn validated(&self) -> (r: AppResult<String>)
        ensures
            self@.len() == 0 ==> r == AppResult::<String>::Err(AppError::EmptyTodoTitle),
            self@.len() > 0 && byte_len(self@) > MAX_TITLE_LEN ==> (r matches Err(
                AppError::TooLongTodoTitle { input, expected_len },
            ) && input@ == self@ && expected_len == MAX_TITLE_LEN),
            title_ok(self@) ==> (r matches Ok(s) && s@ == self@),
    {
        broadcast use vstd::slice::axiom_spec_len;

        let title = self.text.clone();
        if title.as_str().is_empty() {
            Err(AppError::EmptyTodoTitle)
        } else if title.as_str().as_bytes().len() > MAX_TITLE_LEN {
            Err(AppError::TooLongTodoTitle { input: title, expected_len: MAX_TITLE_LEN })
        } else {
            Ok(title)
        }
    }
}

} // verus!
