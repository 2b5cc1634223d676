//! Validation utilities for user input.

use crate::error::{ErrorView, OxideVaultError};
use crate::utils::text::{decimal_digits, decimal_string, lemma_boundary_in_tail};
use vstd::prelude::*;
use vstd::string::*;
use vstd::utf8::{
    decode_utf8, encode_utf8, encode_utf8_decode_utf8, encode_utf8_valid_utf8, is_char_boundary,
};

verus! {

/// The longest a Minecraft username may be, in bytes.
pub const MAX_USERNAME_LEN: usize = 16;

/// Whether Unicode counts a character as a letter or a number.
pub uninterp spec fn is_alphanumeric(c: char) -> bool;

/// `char::is_alphanumeric` of std: whether the character is alphabetic or
/// numeric by its Unicode properties. The result is only named.
#[verifier::external_body]
fn char_is_alphanumeric(c: char) -> (r: bool)
    ensures
        r == is_alphanumeric(c),
{
    c.is_alphanumeric()
}

/// Whether a character may stand in a username.
pub open spec fn username_char(c: char) -> bool {
    is_alphanumeric(c) || c == '_'
}

/// Whether every character of a text may stand in a username.
pub open spec fn username_chars(text: Seq<char>) -> bool {
    forall|i: int| 0 <= i < text.len() ==> username_char(#[trigger] text[i])
}

/// What is wrong with a username of `byte_len` bytes whose characters are
/// all allowed or not: nothing, or the first of the three rules that it
/// breaks, in words.
pub open spec fn username_verdict(byte_len: nat, all_allowed: bool) -> Option<Seq<char>> {
    if byte_len == 0 {
        Some("Username cannot be empty"@)
    } else if byte_len > MAX_USERNAME_LEN {
        Some("Username too long: "@ + decimal_digits(byte_len) + " characters (max 16)"@)
    } else if !all_allowed {
        Some("Username can only contain letters, numbers, and underscores"@)
    } else {
        None
    }
}

/// What is wrong with a username, if anything.
pub open spec fn username_problem(username: Seq<char>) -> Option<Seq<char>> {
    username_verdict(encode_utf8(username).len(), username_chars(username))
}

/// Judges a username by its length in bytes and by whether all of its
/// characters are allowed.
pub fn check_username(byte_len: usize, all_allowed: bool) -> (r: Result<(), OxideVaultError>)
    ensures
        match r {
            Ok(()) => username_verdict(byte_len as nat, all_allowed) is None,
            Err(e) => e@ is Validation && username_verdict(byte_len as nat, all_allowed) == Some(
                e@.detail(),
            ),
        },
{
    if byte_len == 0 {
        return Err(OxideVaultError::Validation(String::from_str("Username cannot be empty")));
    }
    if byte_len > MAX_USERNAME_LEN {
        let mut message = String::from_str("Username too long: ");
        message.append(decimal_string(byte_len as u64).as_str());
        message.append(" characters (max 16)");
        return Err(OxideVaultError::Validation(message));
    }
    if !all_allowed {
        return Err(
            OxideVaultError::Validation(
                String::from_str("Username can only contain letters, numbers, and underscores"),
            ),
        );
    }
    Ok(())
}

/// Validate a Minecraft username.
///
/// Minecraft usernames must be between 1 and 16 bytes long and contain
/// only alphanumeric characters and underscores.
pub fn validate_minecraft_username(username: &str) -> (r: Result<(), OxideVaultError>)
    ensures
        match r {
            Ok(()) => username_problem(username@) is None,
            Err(e) => e@ is Validation && username_problem(username@) == Some(e@.detail()),
        },
{
    let mut all_allowed: bool = true;
    for c in it: username.chars()
        invariant
            it.seq() == username@,
            all_allowed == username_chars(username@.take(it.index() as int)),
    {
        let allowed = char_is_alphanumeric(c) || c == '_';
        proof {
            let before = username@.take(it.index() as int);
            let after = username@.take(it.index() + 1);
            assert(after[it.index() as int] == c);
            if username_chars(before) && allowed {
                assert forall|i: int| 0 <= i < after.len() implies username_char(
                    #[trigger] after[i],
                ) by {
                    if i < before.len() {
                        assert(after[i] == before[i]);
                    }
                }
            }
            if username_chars(after) {
                assert forall|i: int| 0 <= i < before.len() implies username_char(
                    #[trigger] before[i],
                ) by {
                    assert(before[i] == after[i]);
                }
            }
        }
        all_allowed = all_allowed && allowed;
    }
    proof {
        assert(username@.take(username@.len() as int) =~= username@);
    }
    check_username(username.as_bytes().len(), all_allowed)
}

/// Whether the bytes of a text can be cut into the five groups of a UUID:
/// there are 32 of them and no character straddles a cut.
pub open spec fn uuid_cuts(bytes: Seq<u8>) -> bool {
    &&& bytes.len() == 32
    &&& is_char_boundary(bytes, 8)
    &&& is_char_boundary(bytes, 12)
    &&& is_char_boundary(bytes, 16)
    &&& is_char_boundary(bytes, 20)
}

/// The groups of 8, 4, 4, 4 and 12 bytes of a UUID, joined by dashes.
pub open spec fn dashed_uuid(bytes: Seq<u8>) -> Seq<char> {
    decode_utf8(bytes.subrange(0, 8)) + seq!['-'] + decode_utf8(bytes.subrange(8, 12)) + seq!['-']
        + decode_utf8(bytes.subrange(12, 16)) + seq!['-'] + decode_utf8(bytes.subrange(16, 20))
        + seq!['-'] + decode_utf8(bytes.subrange(20, 32))
}

/// Format a 32-character UUID string into the standard 8-4-4-4-12 format.
///
/// Returns `None` if the input is not exactly 32 bytes long, or if a
/// character of it lies across one of the four cuts.
pub fn format_uuid(uuid: &str) -> (r: Option<String>)
    ensures
        match r {
            Some(text) => uuid_cuts(uuid.spec_bytes()) && text@ == dashed_uuid(uuid.spec_bytes()),
            None => !uuid_cuts(uuid.spec_bytes()),
        },
{
    if uuid.as_bytes().len() != 32 {
        return None;
    }
    if !(uuid.is_char_boundary(8) && uuid.is_char_boundary(12) && uuid.is_char_boundary(16)
        && uuid.is_char_boundary(20)) {
        return None;
    }
    let ghost bytes = uuid.spec_bytes();
    proof {
        encode_utf8_valid_utf8(uuid@);
        lemma_boundary_in_tail(bytes, 8, 12);
        lemma_boundary_in_tail(bytes, 12, 16);
        lemma_boundary_in_tail(bytes, 16, 20);
    }
    let (first, rest) = uuid.split_at(8);
    assert(rest.spec_bytes() =~= bytes.subrange(8, 32));
    let (second, rest) = rest.split_at(4);
    assert(rest.spec_bytes() =~= bytes.subrange(12, 32));
    let (third, rest) = rest.split_at(4);
    assert(rest.spec_bytes() =~= bytes.subrange(16, 32));
    let (fourth, fifth) = rest.split_at(4);
    proof {
        assert(first.spec_bytes() =~= bytes.subrange(0, 8));
        assert(second.spec_bytes() =~= bytes.subrange(8, 12));
        assert(third.spec_bytes() =~= bytes.subrange(12, 16));
        assert(fourth.spec_bytes() =~= bytes.subrange(16, 20));
        assert(fifth.spec_bytes() =~= bytes.subrange(20, 32));
        encode_utf8_decode_utf8(first@);
        encode_utf8_decode_utf8(second@);
        encode_utf8_decode_utf8(third@);
        encode_utf8_decode_utf8(fourth@);
        encode_utf8_decode_utf8(fifth@);
        reveal_strlit("-");
        assert("-"@ =~= seq!['-']);
    }
    let mut text = String::from_str(first);
    text.append("-");
    text.append(second);
    text.append("-");
    text.append(third);
    text.append("-");
    text.append(fourth);
    text.append("-");
    text.append(fifth);
    Some(text)
}

} // verus!
