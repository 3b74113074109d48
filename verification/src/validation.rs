//! Device-token validation.

use vstd::prelude::*;

verus! {

/// Why a device token was rejected.
#[derive(Clone, Copy, PartialEq, Eq, Structural, Debug)]
pub enum TokenError {
    Empty,
    TooShort,
    TooLong,
    InvalidCharacters,
}

impl TokenError {
    /// What each rejection's description says.
    pub open spec fn spec_message(self) -> Seq<char> {
        match self {
            TokenError::Empty => "Device token cannot be empty"@,
            TokenError::TooShort => "Device token too short (minimum 20 characters)"@,
            TokenError::TooLong => "Device token too long (maximum 200 characters)"@,
            TokenError::InvalidCharacters => "Device token contains invalid characters"@,
        }
    }

    /// A short description of the rejection.
    pub fn message(&self) -> (r: &'static str)
        ensures
            r@ == self.spec_message(),
    {
        match self {
            TokenError::Empty => "Device token cannot be empty",
            TokenError::TooShort => "Device token too short (minimum 20 characters)",
            TokenError::TooLong => "Device token too long (maximum 200 characters)",
            TokenError::InvalidCharacters => "Device token contains invalid characters",
        }
    }
}

/// The characters a device token may contain: ASCII letters and digits,
/// `_`, `-`, `:` and `.`.
pub open spec fn valid_token_char(c: char) -> bool {
    ('A' <= c && c <= 'Z') || ('a' <= c && c <= 'z') || ('0' <= c && c <= '9') || c == '_'
        || c == '-' || c == ':' || c == '.'
}

/// A well-formed device token: 20 to 200 characters, all from the valid
/// set.
pub open spec fn valid_token(s: Seq<char>) -> bool {
    20 <= s.len() <= 200 && forall|i: int| 0 <= i < s.len() ==> valid_token_char(s[i])
}

/// The rejection a token earns, if any: emptiness is reported first,
/// then length, then the character set.
pub open spec fn token_error_of(s: Seq<char>) -> Option<TokenError> {
    if s.len() == 0 {
        Option::Some(TokenError::Empty)
    } else if s.len() < 20 {
        Option::Some(TokenError::TooShort)
    } else if s.len() > 200 {
        Option::Some(TokenError::TooLong)
    } else if exists|i: int| 0 <= i < s.len() && !valid_token_char(s[i]) {
        Option::Some(TokenError::InvalidCharacters)
    } else {
        Option::None
    }
}

/// Accepts a device token exactly when it is well formed, and names the
/// first violated rule otherwise: emptiness, then length, then the
/// character set.
pub fn validate_fcm_token(token: &str) -> (r: Result<(), TokenError>)
    ensures
        r == (match token_error_of(token@) {
            Option::Some(e) => Err::<(), TokenError>(e),
            Option::None => Ok::<(), TokenError>(()),
        }),
        r.is_ok() <==> valid_token(token@),
        r == Err::<(), TokenError>(TokenError::Empty) <==> token@.len() == 0,
        r == Err::<(), TokenError>(TokenError::TooShort) <==> 0 < token@.len() < 20,
        r == Err::<(), TokenError>(TokenError::TooLong) <==> token@.len() > 200,
        r == Err::<(), TokenError>(TokenError::InvalidCharacters) <==> (20 <= token@.len() <= 200
            && exists|i: int| 0 <= i < token@.len() && !valid_token_char(token@[i])),
{
    let len = token.unicode_len();
    if len == 0 {
        return Err(TokenError::Empty);
    }
    if len < 20 {
        return Err(TokenError::TooShort);
    }
    if len > 200 {
        return Err(TokenError::TooLong);
    }
    let mut i: usize = 0;
    while i < len
        invariant
            len == token@.len(),
            20 <= len <= 200,
            i <= len,
            forall|k: int| 0 <= k < i ==> valid_token_char(token@[k]),
        decreases len - i,
    {
        let c = token.get_char(i);
        let ok = ('A' <= c && c <= 'Z') || ('a' <= c && c <= 'z') || ('0' <= c && c <= '9')
            || c == '_' || c == '-' || c == ':' || c == '.';
        if !ok {
            return Err(TokenError::InvalidCharacters);
        }
        i += 1;
    }
    Ok(())
}

} // verus!
