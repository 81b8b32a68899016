//! The token by which a caller names one logical request.

use vstd::prelude::*;

verus! {

/// The longest key accepted, in characters.
pub const MAX_KEY_LENGTH: usize = 50;

/// Why a string is no idempotency key.
#[derive(Debug, Clone, Copy, PartialEq, Eq, Structural)]
pub enum ValidationError {
    /// The string is empty.
    Empty,
    /// The string has more than `MAX_KEY_LENGTH` characters.
    TooLong,
    /// The string holds a control character.
    UnsafeCharacter,
}

/// The control characters: the code points `U+0000` to `U+001F` and
/// `U+007F` to `U+009F`.
pub open spec fn is_control(c: char) -> bool {
    let u = c as u32;
    u <= 0x1F || (0x7F <= u <= 0x9F)
}

/// What is wrong with `s` as a key, if anything. An empty string is reported
/// as such, a string that is too long as that, whatever else it holds.
pub open spec fn key_defect(s: Seq<char>) -> Option<ValidationError> {
    if s.len() == 0 {
        Some(ValidationError::Empty)
    } else if s.len() > MAX_KEY_LENGTH {
        Some(ValidationError::TooLong)
    } else if exists|i: int| 0 <= i < s.len() && is_control(#[trigger] s[i]) {
        Some(ValidationError::UnsafeCharacter)
    } else {
        None
    }
}

/// A key is valid when it is not empty, has at most `MAX_KEY_LENGTH`
/// characters, and none of them is a control character.
pub open spec fn is_valid_key(s: Seq<char>) -> bool {
    &&& 0 < s.len() <= MAX_KEY_LENGTH
    &&& forall|i: int| 0 <= i < s.len() ==> !is_control(#[trigger] s[i])
}

/// A string is a valid key exactly when nothing is wrong with it.
pub proof fn lemma_valid_iff_no_defect(s: Seq<char>)
    ensures
        is_valid_key(s) <==> key_defect(s) is None,
{
}

/// Tells whether `c` is a control character.
pub fn control_character(c: char) -> (b: bool)
    ensures
        b == is_control(c),
{
    let u: u32 = c as u32;
    u <= 0x1F || (0x7F <= u && u <= 0x9F)
}

/// A validated idempotency key. Keys are taken as they come: nothing is
/// trimmed or folded, so two keys are the same key only if they agree
/// character by character.
#[derive(Debug, PartialEq, Eq, Hash)]
pub struct IdempotencyKey(String);

impl View for IdempotencyKey {
    type V = Seq<char>;

    closed spec fn view(&self) -> Seq<char> {
        self.0@
    }
}

impl IdempotencyKey {
    #[verifier::type_invariant]
    spec fn well_formed(&self) -> bool {
        is_valid_key(self.0@)
    }

    /// Validates `raw` and wraps it.
    pub fn parse(raw: String) -> (r: Result<IdempotencyKey, ValidationError>)
        ensures
            r is Ok <==> is_valid_key(raw@),
            match r {
                Ok(key) => key@ == raw@,
                Err(e) => key_defect(raw@) == Some(e),
            },
    {
        let length = raw.as_str().unicode_len();
        if length == 0 {
            return Err(ValidationError::Empty);
        }
        if length > MAX_KEY_LENGTH {
            return Err(ValidationError::TooLong);
        }
        let mut found = false;
        for c in it: raw.as_str().chars()
            invariant
                it.seq() == raw@,
                found == (exists|i: int| 0 <= i < it.index() && is_control(#[trigger] raw@[i])),
        {
            found = found || control_character(c);
        }
        if found {
            Err(ValidationError::UnsafeCharacter)
        } else {
            Ok(IdempotencyKey(raw))
        }
    }

    /// Lends the key as a string slice; every key in hand is valid.
    pub fn as_str(&self) -> (s: &str)
        ensures
            s@ == self@,
            is_valid_key(self@),
    {
        proof {
            use_type_invariant(self);
        }
        self.0.as_str()
    }

    /// Gives the key up as a plain string.
    pub fn into_inner(self) -> (s: String)
        ensures
            s@ == self@,
            is_valid_key(self@),
    {
        proof {
            use_type_invariant(&self);
        }
        self.0
    }

    /// Tells whether two keys are the same key.
    pub fn same(&self, other: &IdempotencyKey) -> (b: bool)
        ensures
            b == (self@ == other@),
    {
        self.0 == other.0
    }

}

impl Clone for IdempotencyKey {
    fn clone(&self) -> (copy: IdempotencyKey)
        ensures
            copy@ == self@,
    {
        proof {
            use_type_invariant(self);
        }
        IdempotencyKey(self.0.clone())
    }
}

} // verus!
