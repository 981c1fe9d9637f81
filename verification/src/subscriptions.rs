//! The sign-up flow's computations: validating a sign-up form, generating
//! the confirmation token, and spelling the confirmation link and e-mail
//! bodies. Storing the subscriber and sending the e-mail are the caller's
//! concern.

use vstd::prelude::*;

use crate::configuration::decimal_of;
use crate::configuration::decimal_string;
use crate::domain::email_accepted;
use crate::domain::valid_subscriber_name;
use crate::domain::NewSubscriber;
use crate::domain::SubscriberEmail;
use crate::domain::SubscriberName;

verus! {

/// The fields of the sign-up form.
pub struct FormData {
    pub name: String,
    pub email: String,
}

/// Validates a sign-up form: the name first, then the address; the first
/// failure's message is returned.
pub fn new_subscriber(form: FormData) -> (r: Result<NewSubscriber, String>)
    ensures
        !valid_subscriber_name(form.name@) ==> (r matches Err(m) && m@ == form.name@
            + " is not a valid subscriber name"@),
        valid_subscriber_name(form.name@) && !email_accepted(form.email@) ==> (r matches Err(m)
            && m@ == form.email@ + " is not a valid email"@),
        r matches Ok(ns) ==> ns.name@ == form.name@ && ns.email@ == form.email@
            && valid_subscriber_name(form.name@) && email_accepted(form.email@),
{
    let FormData { name, email } = form;
    let name = match SubscriberName::parse(name) {
        Ok(n) => n,
        Err(m) => {
            return Err(m);
        },
    };
    let email = match SubscriberEmail::parse(email) {
        Ok(e) => e,
        Err(m) => {
            return Err(m);
        },
    };
    Ok(NewSubscriber { name, email })
}

/// Relies on rand's Alphanumeric distribution: a fresh random token of 25
/// alphanumeric (ASCII) characters. Nothing else is promised of the value.
#[verifier::external_body]
pub fn generate_subscription_token() -> (r: String)
    ensures
        r@.len() == 25,
{
    rand::distr::SampleString::sample_string(&rand::distr::Alphanumeric, &mut rand::rng(), 25)
}

/// Whether `pat` occurs in `s` as a contiguous run.
pub open spec fn contains_seq(s: Seq<char>, pat: Seq<char>) -> bool {
    exists|k: int|
        0 <= k && k + pat.len() <= s.len() && #[trigger] s.subrange(k, k + pat.len()) == pat
}

/// Whether `pat` occurs at position `k` of `s`.
fn matches_at(s: &str, pat: &str, k: usize) -> (r: bool)
    requires
        k + pat@.len() <= s@.len(),
    ensures
        r == (s@.subrange(k as int, k + pat@.len()) == pat@),
{
    let n = s.unicode_len();
    let m = pat.unicode_len();
    let mut j: usize = 0;
    while j < m
        invariant
            j <= m,
            m == pat@.len(),
            n == s@.len(),
            k + m <= n,
            forall|x: int| 0 <= x < j ==> s@[k + x] == pat@[x],
        decreases m - j,
    {
        if s.get_char(k + j) != pat.get_char(j) {
            proof {
                assert(s@.subrange(k as int, k + pat@.len())[j as int] != pat@[j as int]);
            }
            return false;
        }
        j += 1;
    }
    proof {
        assert(s@.subrange(k as int, k + pat@.len()) =~= pat@);
    }
    true
}

/// Whether `pat` occurs anywhere in `s`.
pub fn str_contains(s: &str, pat: &str) -> (r: bool)
    ensures
        r == contains_seq(s@, pat@),
{
    let n = s.unicode_len();
    let m = pat.unicode_len();
    if m > n {
        proof {
            assert(!contains_seq(s@, pat@));
        }
        return false;
    }
    if m == 0 {
        proof {
            assert(s@.subrange(0, 0 + pat@.len() as int) =~= pat@);
        }
        return true;
    }
    let mut k: usize = 0;
    while k <= n - m
        invariant
            k <= n - m + 1,
            0 < m <= n,
            n == s@.len(),
            m == pat@.len(),
            forall|x: int| 0 <= x < k ==> #[trigger] s@.subrange(x, x + pat@.len()) != pat@,
        decreases n - m + 1 - k,
    {
        if matches_at(s, pat, k) {
            return true;
        }
        k += 1;
    }
    proof {
        assert forall|x: int| 0 <= x && x + pat@.len() <= s@.len() implies #[trigger] s@.subrange(
            x,
            x + pat@.len(),
        ) != pat@ by {
            assert(x < n - m + 1);
        }
    }
    false
}

/// The link a new subscriber must visit to confirm: the application's base
/// URL — with the port appended when it serves a loopback or localhost
/// address — followed by the confirmation path and the token.
pub open spec fn confirmation_link_v(base_url: Seq<char>, app_port: int, token: Seq<char>) -> Seq<
    char,
> {
    let host = if contains_seq(base_url, "127.0.0.1"@) || contains_seq(base_url, "localhost"@) {
        base_url + ":"@ + decimal_of(app_port)
    } else {
        base_url
    };
    host + "/subscription/confirm?subscription_token="@ + token
}

/// Spells the confirmation link.
pub fn confirmation_link(base_url: &String, app_port: u16, token: &str) -> (r: String)
    ensures
        r@ == confirmation_link_v(base_url@, app_port as int, token@),
{
    let mut s = if str_contains(base_url.as_str(), "127.0.0.1") || str_contains(
        base_url.as_str(),
        "localhost",
    ) {
        let mut h = base_url.clone();
        h.append(":");
        let port = decimal_string(app_port as u64);
        h.append(port.as_str());
        h
    } else {
        base_url.clone()
    };
    s.append("/subscription/confirm?subscription_token=");
    s.append(token);
    proof {
        assert(s@ =~= confirmation_link_v(base_url@, app_port as int, token@));
    }
    s
}

/// The plain-text body of the confirmation e-mail.
pub fn confirmation_email_text(confirmation_link: &str) -> (r: String)
    ensures
        r@ == "Welcome to my Newsletter!\nVisit "@ + confirmation_link@
            + " to confirm your subscription"@,
{
    let mut s = String::from_str("Welcome to my Newsletter!\nVisit ");
    s.append(confirmation_link);
    s.append(" to confirm your subscription");
    proof {
        assert(s@ =~= "Welcome to my Newsletter!\nVisit "@ + confirmation_link@
            + " to confirm your subscription"@);
    }
    s
}

/// The HTML body of the confirmation e-mail.
pub fn confirmation_email_html(confirmation_link: &str) -> (r: String)
    ensures
        r@ == "Welcome to my Newsletter!<br />Click <a href=\""@ + confirmation_link@
            + "\">here</a> to confirm your subscription."@,
{
    let mut s = String::from_str("Welcome to my Newsletter!<br />Click <a href=\"");
    s.append(confirmation_link);
    s.append("\">here</a> to confirm your subscription.");
    proof {
        assert(s@ =~= "Welcome to my Newsletter!<br />Click <a href=\""@ + confirmation_link@
            + "\">here</a> to confirm your subscription."@);
    }
    s
}

/// The query parameters of the confirmation endpoint.
pub struct Parameters {
    pub subscription_token: String,
}

/// What the confirmation endpoint does once the token has been looked up:
/// a failed lookup is an internal error (500), an unknown token is
/// unauthorized (401), a known token's subscriber is to be confirmed.
pub fn confirm_lookup_action(lookup: Result<Option<u128>, String>) -> (r: Result<u128, u16>)
    ensures
        match lookup {
            Err(_) => r == Err::<u128, u16>(500u16),
            Ok(None) => r == Err::<u128, u16>(401u16),
            Ok(Some(id)) => r == Ok::<u128, u16>(id),
        },
{
    match lookup {
        Err(_) => Err(500),
        Ok(None) => Err(401),
        Ok(Some(id)) => Ok(id),
    }
}

/// The status the confirmation endpoint answers with once the subscriber's
/// row has been updated: 200 on success, 500 on a failed update.
pub fn confirm_update_status(updated: bool) -> (r: u16)
    ensures
        updated ==> r == 200,
        !updated ==> r == 500,
{
    if updated {
        200
    } else {
        500
    }
}

} // verus!
