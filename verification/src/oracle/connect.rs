//! Connection establishment: bounded connect strings, mounted credentials, and the choice of
//! the client library.

use crate::database::driver;
use crate::database::driver::Secret;
use crate::oracle::error::OracleAdapterError;
use crate::text;
use crate::text::{
    append_decimal, append_text, chars_of, contains, contains_char, lowered, owned, same, text_of,
    trimmed_start,
};
use crate::time::Duration;
use crate::utf8::read_utf8;
use vstd::prelude::*;

verus! {

/// The longest that establishing a connection may take, in seconds.
pub const MAX_CONNECT_TIMEOUT_SECS: u64 = 10;

/// The most bytes of a credential file.
pub const MAX_CREDENTIAL_BYTES: u64 = 65_536;

/// How a connection is made.
pub struct OracleAdapterConfig {
    /// Easy Connect string.
    pub connect_string: String,
    /// Where the client library is installed.
    pub instant_client_dir: String,
    /// Holds the user's name.
    pub username_file: String,
    /// Holds the password.
    pub password_file: String,
}

/// Whether a connect string names more than one address: a comma stands before any
/// parameters.
pub open spec fn names_several(connect_string: Seq<char>) -> bool {
    exists|i: int|
        0 <= i < connect_string.len() && #[trigger] connect_string[i] == ','
            && !connect_string.take(i).contains('?')
}

/// Why a connect string cannot be bounded, if it cannot.
pub open spec fn connect_refusal(connect_string: Seq<char>) -> Option<OracleAdapterError> {
    let normal = text::lower(connect_string);
    let start = text::trim_start(connect_string);
    if start.len() > 0 && start[0] == '(' {
        Some(OracleAdapterError::ConnectDescriptorUnsupported)
    } else if text::occurs(normal, "connect_timeout="@) || text::occurs(
        normal,
        "transport_connect_timeout="@,
    ) {
        Some(OracleAdapterError::ConnectTimeoutOverride)
    } else if text::occurs(normal, "retry_count="@) || text::occurs(normal, "retry_delay="@) {
        Some(OracleAdapterError::ConnectRetryUnsupported)
    } else if names_several(connect_string) {
        Some(OracleAdapterError::MultipleAddressUnsupported)
    } else {
        None
    }
}

/// How many seconds establishing a connection may take: those of the timeout, from one to
/// ten.
pub open spec fn connect_seconds(timeout: nat) -> nat {
    let seconds = timeout / 1_000_000_000;
    if seconds < 1 {
        1
    } else if seconds > MAX_CONNECT_TIMEOUT_SECS {
        MAX_CONNECT_TIMEOUT_SECS as nat
    } else {
        seconds
    }
}

/// What separates a connect string from one more parameter.
pub open spec fn separator(connect_string: Seq<char>) -> Seq<char> {
    if connect_string.contains('?') {
        "&"@
    } else {
        "?"@
    }
}

/// A connect string with bounds for connecting.
pub open spec fn bounded(connect_string: Seq<char>, timeout: nat) -> Seq<char> {
    connect_string + separator(connect_string) + "connect_timeout="@ + text::decimal(
        connect_seconds(timeout),
    ) + "&transport_connect_timeout="@ + text::decimal(connect_seconds(timeout))
}

fn has_several(connect_string: &str) -> (found: bool)
    ensures
        found == names_several(connect_string@),
{
    let chars = chars_of(connect_string);
    let mut i: usize = 0;
    while i < chars.len()
        invariant
            i <= chars@.len(),
            chars@ == connect_string@,
            forall|j: int| 0 <= j < i ==> chars@[j] != '?' && chars@[j] != ',',
        decreases chars.len() - i,
    {
        if chars[i] == ',' {
            assert(connect_string@[i as int] == ',');
            return true;
        }
        if chars[i] == '?' {
            assert forall|k: int|
                0 <= k < connect_string@.len() && #[trigger] connect_string@[k] == ','
                implies connect_string@.take(k).contains('?') by {
                assert(connect_string@.take(k)[i as int] == '?');
            }
            return false;
        }
        i += 1;
    }
    false
}

/// Adds bounds for connecting to a connect string, and refuses what would multiply or
/// replace them.
pub fn bounded_connect_string(connect_string: &str, timeout: &Duration) -> (r: Result<
    String,
    OracleAdapterError,
>)
    ensures
        match r {
            Ok(text) => connect_refusal(connect_string@) is None && text@ == bounded(
                connect_string@,
                timeout@,
            ),
            Err(error) => connect_refusal(connect_string@) == Some(error),
        },
{
    let normal = lowered(connect_string);
    let start = chars_of(trimmed_start(connect_string).as_str());
    if start.len() > 0 && start[0] == '(' {
        return Err(OracleAdapterError::ConnectDescriptorUnsupported);
    }
    if contains(normal.as_str(), "connect_timeout=") || contains(
        normal.as_str(),
        "transport_connect_timeout=",
    ) {
        return Err(OracleAdapterError::ConnectTimeoutOverride);
    }
    if contains(normal.as_str(), "retry_count=") || contains(normal.as_str(), "retry_delay=") {
        return Err(OracleAdapterError::ConnectRetryUnsupported);
    }
    if has_several(connect_string) {
        return Err(OracleAdapterError::MultipleAddressUnsupported);
    }
    let whole: u64 = timeout.as_secs();
    let seconds: u64 = if whole < 1 {
        1
    } else if whole > MAX_CONNECT_TIMEOUT_SECS {
        MAX_CONNECT_TIMEOUT_SECS
    } else {
        whole
    };
    let mut out = owned(connect_string);
    append_text(
        &mut out,
        if contains_char(connect_string, '?') {
            "&"
        } else {
            "?"
        },
    );
    append_text(&mut out, "connect_timeout=");
    append_decimal(&mut out, seconds);
    append_text(&mut out, "&transport_connect_timeout=");
    append_decimal(&mut out, seconds);
    Ok(out)
}

/// Checks what a credential path leads to before it is read.
pub fn check_credential_file(is_file: bool, len: u64, kind: &'static str) -> (r: Result<
    (),
    OracleAdapterError,
>)
    ensures
        r == if !is_file {
            Err::<(), OracleAdapterError>(OracleAdapterError::CredentialNotRegularFile(kind))
        } else if len > MAX_CREDENTIAL_BYTES {
            Err(OracleAdapterError::CredentialTooLarge(kind))
        } else {
            Ok(())
        },
{
    if !is_file {
        return Err(OracleAdapterError::CredentialNotRegularFile(kind));
    }
    if len > MAX_CREDENTIAL_BYTES {
        return Err(OracleAdapterError::CredentialTooLarge(kind));
    }
    Ok(())
}

/// A text without the line endings at its end.
pub open spec fn without_line_ends(text: Seq<char>) -> Seq<char>
    decreases text.len(),
{
    if text.len() > 0 && (text.last() == '\r' || text.last() == '\n') {
        without_line_ends(text.drop_last())
    } else {
        text
    }
}

/// Why a file's bytes hold no credential, if they hold none.
pub open spec fn credential_failure(bytes: Seq<u8>, kind: &'static str) -> Option<
    OracleAdapterError,
> {
    if bytes.len() > MAX_CREDENTIAL_BYTES {
        Some(OracleAdapterError::CredentialTooLarge(kind))
    } else if !vstd::utf8::valid_utf8(bytes) {
        Some(OracleAdapterError::InvalidCredentialEncoding(kind))
    } else if without_line_ends(vstd::utf8::decode_utf8(bytes)).len() == 0 {
        Some(OracleAdapterError::EmptyCredential(kind))
    } else {
        None
    }
}

/// Reads a credential out of a file's bytes.
pub fn read_credential(bytes: &[u8], kind: &'static str) -> (r: Result<Secret, OracleAdapterError>)
    ensures
        match r {
            Ok(secret) => credential_failure(bytes@, kind) is None && driver::secret_text(secret)
                == without_line_ends(vstd::utf8::decode_utf8(bytes@)),
            Err(error) => credential_failure(bytes@, kind) == Some(error),
        },
{
    if bytes.len() as u64 > MAX_CREDENTIAL_BYTES {
        return Err(OracleAdapterError::CredentialTooLarge(kind));
    }
    match read_utf8(bytes) {
        None => Err(OracleAdapterError::InvalidCredentialEncoding(kind)),
        Some(text) => {
            let chars = chars_of(text.as_str());
            let mut end: usize = chars.len();
            assert(chars@.take(end as int) =~= text@);
            while end > 0 && (chars[end - 1] == '\r' || chars[end - 1] == '\n')
                invariant
                    end <= chars@.len(),
                    without_line_ends(chars@.take(end as int)) == without_line_ends(text@),
                decreases end,
            {
                assert(chars@.take(end as int).drop_last() =~= chars@.take(end - 1));
                end -= 1;
            }
            if end == 0 {
                return Err(OracleAdapterError::EmptyCredential(kind));
            }
            assert(chars@.subrange(0, end as int) =~= chars@.take(end as int));
            Ok(Secret::conceal(text_of(&chars, 0, end)))
        },
    }
}

/// What is to be done about the process-wide client library.
#[derive(Clone, Copy, Debug, PartialEq, Eq, Structural)]
pub enum ClientStep {
    /// Initialize it from the directory.
    Initialize,
    /// Nothing: it was initialized from this directory.
    Ready,
}

/// Decides what to do about the client library, given which directory it was initialized
/// from, if this process did so, and whether it is initialized at all. The first directory
/// stays.
pub fn initialize_client(selected: Option<&str>, initialized: bool, directory: &str) -> (r: Result<
    ClientStep,
    OracleAdapterError,
>)
    ensures
        r == match selected {
            Some(existing) => if existing@ == directory@ {
                Ok::<ClientStep, OracleAdapterError>(ClientStep::Ready)
            } else {
                Err(OracleAdapterError::ClientDirectoryConflict)
            },
            None => if initialized {
                Err(OracleAdapterError::ClientAlreadyInitialized)
            } else {
                Ok(ClientStep::Initialize)
            },
        },
{
    match selected {
        Some(existing) => {
            if same(existing, directory) {
                Ok(ClientStep::Ready)
            } else {
                Err(OracleAdapterError::ClientDirectoryConflict)
            }
        },
        None => {
            if initialized {
                Err(OracleAdapterError::ClientAlreadyInitialized)
            } else {
                Ok(ClientStep::Initialize)
            }
        },
    }
}

/// A connect string that is accepted keeps its text and is bounded for one address: from one
/// to ten seconds, whatever the timeout is.
pub proof fn law_connecting_is_bounded(connect_string: Seq<char>, timeout: nat)
    ensures
        1 <= connect_seconds(timeout) <= MAX_CONNECT_TIMEOUT_SECS,
        connect_string.is_prefix_of(bounded(connect_string, timeout)),
        connect_refusal(connect_string) is None ==> !names_several(connect_string),
{
}

/// Connecting may take the whole seconds of the timeout, but one at least and ten at most.
pub proof fn law_connect_seconds_follow_the_timeout(timeout: nat)
    ensures
        1 <= connect_seconds(timeout) <= 10,
        1_000_000_000 <= timeout < 11_000_000_000 ==> connect_seconds(timeout) * 1_000_000_000
            <= timeout < (connect_seconds(timeout) + 1) * 1_000_000_000,
        timeout < 1_000_000_000 ==> connect_seconds(timeout) == 1,
        timeout >= 11_000_000_000 ==> connect_seconds(timeout) == 10,
{
}

/// A bounded connect string is the given one, then `?`, or `&` where parameters follow one
/// already, and then both timeouts, each in decimal digits of as many seconds as connecting
/// may take.
pub proof fn law_bounds_are_appended(connect_string: Seq<char>, timeout: nat)
    ensures
        ({
            let whole = bounded(connect_string, timeout);
            let rest = whole.skip(connect_string.len() as int);
            let digits = text::decimal(connect_seconds(timeout));
            &&& whole.take(connect_string.len() as int) == connect_string
            &&& rest.len() > 0
            &&& rest[0] == if connect_string.contains('?') {
                '&'
            } else {
                '?'
            }
            &&& rest.skip(1) == "connect_timeout="@ + digits + "&transport_connect_timeout="@
                + digits
            &&& text::all_digits(digits)
            &&& 1 <= text::value_of(digits) <= 10
            &&& text::value_of(digits) == connect_seconds(timeout)
        }),
{
    reveal_strlit("&");
    reveal_strlit("?");
    let whole = bounded(connect_string, timeout);
    let rest = whole.skip(connect_string.len() as int);
    let digits = text::decimal(connect_seconds(timeout));
    text::law_decimal_stands_for_its_number(connect_seconds(timeout));
    assert(whole.take(connect_string.len() as int) =~= connect_string);
    assert(separator(connect_string).len() == 1);
    assert(rest[0] == separator(connect_string)[0]);
    assert(rest.skip(1) =~= "connect_timeout="@ + digits + "&transport_connect_timeout="@ + digits);
}

/// A connect string is accepted exactly when it is no descriptor, sets no timeout and no retry
/// in any case, and has no comma before its parameters. Each other is refused for the first of
/// these.
pub proof fn law_accepted_connect_strings_can_be_bounded(connect_string: Seq<char>)
    ensures
        ({
            let start = text::trim_start(connect_string);
            let normal = text::lower(connect_string);
            let descriptor = start.len() > 0 && start[0] == '(';
            let times = text::occurs(normal, "connect_timeout="@) || text::occurs(
                normal,
                "transport_connect_timeout="@,
            );
            let retries = text::occurs(normal, "retry_count="@) || text::occurs(
                normal,
                "retry_delay="@,
            );
            let several = exists|i: int|
                0 <= i < connect_string.len() && #[trigger] connect_string[i] == ',' && forall|
                    j: int,
                |
                    0 <= j < i ==> #[trigger] connect_string[j] != '?';
            &&& connect_refusal(connect_string) is None <==> !descriptor && !times && !retries
                && !several
            &&& descriptor <==> connect_refusal(connect_string) == Some(
                OracleAdapterError::ConnectDescriptorUnsupported,
            )
            &&& !descriptor && times <==> connect_refusal(connect_string) == Some(
                OracleAdapterError::ConnectTimeoutOverride,
            )
            &&& !descriptor && !times && retries <==> connect_refusal(connect_string) == Some(
                OracleAdapterError::ConnectRetryUnsupported,
            )
            &&& !descriptor && !times && !retries && several <==> connect_refusal(connect_string)
                == Some(OracleAdapterError::MultipleAddressUnsupported)
        }),
{
    let several = exists|i: int|
        0 <= i < connect_string.len() && #[trigger] connect_string[i] == ',' && forall|j: int|
            0 <= j < i ==> #[trigger] connect_string[j] != '?';
    if several {
        let i = choose|i: int|
            0 <= i < connect_string.len() && #[trigger] connect_string[i] == ',' && forall|j: int|
                0 <= j < i ==> #[trigger] connect_string[j] != '?';
        assert(!connect_string.take(i).contains('?'));
        assert(names_several(connect_string));
    }
    if names_several(connect_string) {
        let i = choose|i: int|
            0 <= i < connect_string.len() && #[trigger] connect_string[i] == ','
                && !connect_string.take(i).contains('?');
        assert forall|j: int| 0 <= j < i implies #[trigger] connect_string[j] != '?' by {
            assert(connect_string.take(i)[j] == connect_string[j]);
        }
        assert(connect_string[i] == ',');
    }
}

/// What is left of a credential file's text is the text without the line endings at its end:
/// only those are taken away, and none is left.
pub proof fn law_line_endings_alone_are_taken(text: Seq<char>)
    ensures
        ({
            let kept = without_line_ends(text);
            &&& kept.len() <= text.len()
            &&& kept == text.take(kept.len() as int)
            &&& forall|i: int|
                kept.len() <= i < text.len() ==> #[trigger] text[i] == '\r' || text[i] == '\n'
            &&& kept.len() > 0 ==> kept[kept.len() - 1] != '\r' && kept[kept.len() - 1] != '\n'
        }),
    decreases text.len(),
{
    if text.len() > 0 && (text.last() == '\r' || text.last() == '\n') {
        let less = text.drop_last();
        law_line_endings_alone_are_taken(less);
        let kept = without_line_ends(text);
        assert(less.take(kept.len() as int) =~= text.take(kept.len() as int));
        assert forall|i: int| kept.len() <= i < text.len() implies #[trigger] text[i] == '\r'
            || text[i] == '\n' by {
            if i < less.len() {
                assert(less[i] == text[i]);
            }
        }
    } else {
        assert(text.take(text.len() as int) =~= text);
    }
}

/// A file holds a credential exactly when it has at most 65536 bytes of UTF-8 that are not all
/// line endings.
pub proof fn law_credentials_are_short_texts(bytes: Seq<u8>, kind: &'static str)
    ensures
        credential_failure(bytes, kind) is None <==> bytes.len() <= 65536 && vstd::utf8::valid_utf8(
            bytes,
        ) && without_line_ends(vstd::utf8::decode_utf8(bytes)).len() > 0,
        bytes.len() > 65536 <==> credential_failure(bytes, kind) == Some(
            OracleAdapterError::CredentialTooLarge(kind),
        ),
        bytes.len() <= 65536 && !vstd::utf8::valid_utf8(bytes) <==> credential_failure(bytes, kind)
            == Some(OracleAdapterError::InvalidCredentialEncoding(kind)),
{
}

} // verus!
