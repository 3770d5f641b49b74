//! Input validation for the publish path.
//!
//! A publish request carries a title, an HTML body and a plain-text body; all
//! three must be non-empty. Subscriber addresses stored by the registration
//! flow are re-checked when delivery tasks are enqueued: a malformed address
//! is skipped rather than aborting the whole batch.

use vstd::prelude::*;
use vstd::string::StrSliceExecFns;

verus! {

/// The parsed body of a publish request.
pub struct BodyData {
    pub title: String,
    pub html_content: String,
    pub text_content: String,
}

impl BodyData {
    /// A publish body is acceptable when title, HTML content and plain-text
    /// content are all non-empty.
    pub open spec fn is_valid(&self) -> bool {
        &&& self.title@.len() > 0
        &&& self.html_content@.len() > 0
        &&& self.text_content@.len() > 0
    }

    /// Decides [`BodyData::is_valid`].
    pub fn validate(&self) -> (r: bool)
        ensures
            r == self.is_valid(),
    {
        !self.title.as_str().is_empty() && !self.html_content.as_str().is_empty()
            && !self.text_content.as_str().is_empty()
    }
}

/// An idempotency token must be non-empty; it is otherwise opaque.
pub open spec fn is_valid_idempotency_key(s: Seq<char>) -> bool {
    s.len() > 0
}

/// Decides [`is_valid_idempotency_key`].
pub fn validate_idempotency_key(s: &str) -> (r: bool)
    ensures
        r == is_valid_idempotency_key(s@),
{
    !s.is_empty()
}

/// Characters that may never appear in a subscriber address: ASCII
/// whitespace.
pub open spec fn forbidden_email_char(c: char) -> bool {
    c == ' ' || c == '\t' || c == '\n' || c == '\r'
}

/// Position `i` separates a non-empty local part from a non-empty domain
/// part.
pub open spec fn email_sep_at(s: Seq<char>, i: int) -> bool {
    0 < i < s.len() - 1 && s[i] == '@'
}

/// A subscriber address is valid when some `@` separates a non-empty local
/// part from a non-empty domain part and no whitespace occurs anywhere.
pub open spec fn is_valid_email(s: Seq<char>) -> bool {
    &&& exists|i: int| email_sep_at(s, i)
    &&& forall|j: int| 0 <= j < s.len() ==> !forbidden_email_char(#[trigger] s[j])
}

/// Decides [`is_valid_email`].
pub fn is_valid_subscriber_email(s: &str) -> (r: bool)
    ensures
        r == is_valid_email(s@),
{
    let n = s.unicode_len();
    let mut has_sep = false;
    let mut i: usize = 0;
    while i < n
        invariant
            n == s@.len(),
            i <= n,
            has_sep == exists|k: int| 0 <= k < i && email_sep_at(s@, k),
            forall|j: int| 0 <= j < i ==> !forbidden_email_char(#[trigger] s@[j]),
        decreases n - i,
    {
        let c = s.get_char(i);
        if c == ' ' || c == '\t' || c == '\n' || c == '\r' {
            assert(forbidden_email_char(s@[i as int]));
            return false;
        }
        if c == '@' && i > 0 && i + 1 < n {
            has_sep = true;
            assert(email_sep_at(s@, i as int));
        } else {
            assert(!email_sep_at(s@, i as int));
        }
        i = i + 1;
    }
    has_sep
}

} // verus!
