//! Client-supplied idempotency keys. A key scopes the retry-safety of one
//! logical publish action per user: it is an opaque token that must be
//! non-empty and no longer than 50 characters.

use vstd::prelude::*;

verus! {

/// Whether a string is acceptable as an idempotency key.
pub open spec fn valid_key(s: Seq<char>) -> bool {
    0 < s.len() <= 50
}

/// A validated idempotency key.
pub struct IdempotencyKey {
    key: String,
}

impl View for IdempotencyKey {
    type V = Seq<char>;

    closed spec fn view(&self) -> Seq<char> {
        self.key@
    }
}

impl IdempotencyKey {
    /// Accepts exactly the strings that [`valid_key`] allows and keeps the
    /// accepted string unchanged.
    pub fn parse(s: String) -> (r: Result<IdempotencyKey, String>)
        ensures
            r matches Ok(k) ==> k@ == s@ && valid_key(s@),
            r is Err <==> !valid_key(s@),
    {
        let n = s.as_str().unicode_len();
        if n == 0 {
            Err(String::from_str("the idempotency key cannot be empty"))
        } else if n > 50 {
            Err(String::from_str("the idempotency key must be no longer than 50 characters"))
        } else {
            Ok(IdempotencyKey { key: s })
        }
    }

    /// The key's characters.
    pub fn as_str(&self) -> (r: &str)
        ensures
            r@ == self@,
    {
        self.key.as_str()
    }

    /// The key's string.
    pub fn as_string(&self) -> (r: &String)
        ensures
            r@ == self@,
    {
        &self.key
    }

    /// Gives the key's string back.
    pub fn into_inner(self) -> (r: String)
        ensures
            r@ == self@,
    {
        self.key
    }
}

} // verus!
