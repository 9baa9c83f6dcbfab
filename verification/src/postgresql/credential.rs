//! Mounted credentials.

use crate::database::driver;
use crate::database::driver::Secret;
use crate::postgresql::error::PgError;
use crate::text::{chars_of, text_of};
use crate::utf8::read_utf8;
use vstd::prelude::*;

verus! {

/// The most bytes of a credential file.
pub const MAX_CREDENTIAL_BYTES: usize = 4096;

/// A text without one line ending at its end.
pub open spec fn without_line_end(text: Seq<char>) -> Seq<char> {
    if text.len() > 0 && text.last() == '\n' {
        let line = text.drop_last();
        if line.len() > 0 && line.last() == '\r' {
            line.drop_last()
        } else {
            line
        }
    } else {
        text
    }
}

/// The credential that a file's bytes hold, if they hold one: UTF-8 within the size limit,
/// which says something and has no NUL.
pub open spec fn credential(bytes: Seq<u8>) -> Option<Seq<char>> {
    let text = without_line_end(vstd::utf8::decode_utf8(bytes));
    if bytes.len() > MAX_CREDENTIAL_BYTES || !vstd::utf8::valid_utf8(bytes) || text.len() == 0
        || text.contains('\0') {
        None
    } else {
        Some(text)
    }
}

fn has_nul(chars: &Vec<char>, to: usize) -> (found: bool)
    requires
        to <= chars@.len(),
    ensures
        found == chars@.take(to as int).contains('\0'),
{
    let mut i: usize = 0;
    while i < to
        invariant
            i <= to <= chars@.len(),
            forall|j: int| 0 <= j < i ==> chars@[j] != '\0',
        decreases to - i,
    {
        if chars[i] == '\0' {
            assert(chars@.take(to as int)[i as int] == '\0');
            return true;
        }
        i += 1;
    }
    false
}

/// Reads a credential out of a file's bytes.
pub fn secret(bytes: &[u8]) -> (r: Result<Secret, PgError>)
    ensures
        match r {
            Ok(secret) => credential(bytes@) == Some(driver::secret_text(secret)),
            Err(error) => error == PgError::Credentials && credential(bytes@) is None,
        },
{
    if bytes.len() > MAX_CREDENTIAL_BYTES {
        return Err(PgError::Credentials);
    }
    match read_utf8(bytes) {
        None => Err(PgError::Credentials),
        Some(text) => {
            let chars = chars_of(text.as_str());
            let mut end: usize = chars.len();
            if end > 0 && chars[end - 1] == '\n' {
                end -= 1;
                if end > 0 && chars[end - 1] == '\r' {
                    end -= 1;
                }
            }
            assert(chars@.take(end as int) =~= without_line_end(text@));
            assert(chars@.subrange(0, end as int) =~= chars@.take(end as int));
            if end == 0 || has_nul(&chars, end) {
                return Err(PgError::Credentials);
            }
            Ok(Secret::conceal(text_of(&chars, 0, end)))
        },
    }
}

/// At most one line ending is taken from the end of a credential's text, with or without its
/// carriage return, and nothing else.
pub proof fn law_one_line_ending_is_taken(text: Seq<char>)
    ensures
        ({
            let kept = without_line_end(text);
            &&& kept.len() <= text.len() <= kept.len() + 2
            &&& kept == text.take(kept.len() as int)
            &&& text.len() == kept.len() + 1 ==> text[text.len() - 1] == '\n' && (kept.len() > 0
                ==> kept[kept.len() - 1] != '\r')
            &&& text.len() == kept.len() + 2 ==> text[text.len() - 2] == '\r' && text[text.len()
                - 1] == '\n'
            &&& text.len() == kept.len() && text.len() > 0 ==> text[text.len() - 1] != '\n'
        }),
{
    let kept = without_line_end(text);
    assert(kept =~= text.take(kept.len() as int));
}

/// A file holds a credential exactly when it has at most 4096 bytes of UTF-8 and its text,
/// without one line ending, is not empty and holds no NUL; that text is the credential.
pub proof fn law_credentials_are_short_texts(bytes: Seq<u8>)
    ensures
        ({
            let text = without_line_end(vstd::utf8::decode_utf8(bytes));
            &&& credential(bytes) is Some <==> bytes.len() <= 4096 && vstd::utf8::valid_utf8(bytes)
                && text.len() >= 1 && forall|i: int| 0 <= i < text.len() ==> #[trigger] text[i] != '\0'
            &&& credential(bytes) matches Some(held) ==> held == text
        }),
{
    let text = without_line_end(vstd::utf8::decode_utf8(bytes));
    if text.contains('\0') {
        let i = choose|i: int| 0 <= i < text.len() && text[i] == '\0';
        assert(text[i] == '\0');
    }
}

} // verus!
