//! The older publish operation that sends to every confirmed subscriber
//! inline: its request body, its error taxonomy, and the validation of the
//! stored subscriber addresses. Fetching the rows and sending the e-mails
//! are the caller's concern.

use vstd::prelude::*;

use crate::domain::email_accepted;
use crate::domain::SubscriberEmail;

verus! {

/// The body of a broadcast request.
pub struct BodyData {
    pub title: String,
    pub content: Content,
}

/// The issue content of a broadcast request.
pub struct Content {
    pub text: String,
    pub html: String,
}

/// A subscriber whose stored address passed validation.
#[derive(Debug)]
pub struct ConfirmedSubscriber {
    pub email: SubscriberEmail,
}

/// Why a broadcast fails.
#[derive(Debug, PartialEq)]
pub enum PublishError {
    AuthError(String),
    UnexpectedError(String),
}

/// Validates the stored addresses of the confirmed subscribers, row by row:
/// a valid address becomes a recipient, an invalid one an error to log —
/// one outcome per row, in order.
pub fn get_confirmed_subscribers(rows: Vec<String>) -> (r: Vec<
    Result<ConfirmedSubscriber, String>,
>)
    ensures
        r@.len() == rows@.len(),
        forall|i: int|
            0 <= i < rows@.len() ==> match #[trigger] r@[i] {
                Ok(c) => email_accepted(rows@[i]@) && c.email@ == rows@[i]@,
                Err(m) => !email_accepted(rows@[i]@) && m@ == rows@[i]@
                    + " is not a valid email"@,
            },
{
    let mut out: Vec<Result<ConfirmedSubscriber, String>> = Vec::new();
    let mut i: usize = 0;
    while i < rows.len()
        invariant
            i <= rows@.len(),
            out@.len() == i,
            forall|j: int|
                0 <= j < i ==> match #[trigger] out@[j] {
                    Ok(c) => email_accepted(rows@[j]@) && c.email@ == rows@[j]@,
                    Err(m) => !email_accepted(rows@[j]@) && m@ == rows@[j]@
                        + " is not a valid email"@,
                },
        decreases rows@.len() - i,
    {
        let row = rows[i].clone();
        match SubscriberEmail::parse(row) {
            Ok(email) => out.push(Ok(ConfirmedSubscriber { email })),
            Err(m) => out.push(Err(m)),
        }
        i += 1;
    }
    out
}

} // verus!
