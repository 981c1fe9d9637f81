//! Credentials, authentication errors, and the parsing of the HTTP Basic
//! authentication header. Checking a password against its stored hash is an
//! external collaborator's concern.

use vstd::prelude::*;
use vstd::string::StringSliceAdditionalSpecFns;
use vstd::utf8::encode_utf8;

verus! {

/// Why authentication failed.
#[derive(Debug, PartialEq)]
pub enum AuthError {
    InvalidCredentials(String),
    UnexpectedError(String),
}

/// A username and password pair, as presented by a client.
#[derive(Debug)]
pub struct Credentials {
    pub username: String,
    pub password: String,
}

/// Whether a new password's length (in bytes) is acceptable: at least 12
/// and at most 128.
pub fn new_password_length_ok(new_password: &str) -> (r: bool)
    ensures
        r == (12 <= (new_password.spec_bytes().len() as usize) <= 128),
{
    let n = new_password.len();
    12 <= n && n <= 128
}

/// Whether the header value opens with the Basic scheme marker.
pub open spec fn has_basic_prefix(h: Seq<char>) -> bool {
    h.len() >= 6 && h.subrange(0, 6) == "Basic "@
}

/// Strips the Basic scheme marker, if present.
fn strip_basic_prefix<'a>(h: &'a str) -> (r: Option<&'a str>)
    ensures
        match r {
            Some(rest) => has_basic_prefix(h@) && rest@ == h@.skip(6),
            None => !has_basic_prefix(h@),
        },
{
    proof {
        reveal_strlit("Basic ");
    }
    let n = h.unicode_len();
    if n < 6 {
        return None;
    }
    if h.get_char(0) == 'B' && h.get_char(1) == 'a' && h.get_char(2) == 's' && h.get_char(3) == 'i'
        && h.get_char(4) == 'c' && h.get_char(5) == ' ' {
        proof {
            assert(h@.subrange(0, 6) =~= "Basic "@);
        }
        let rest = h.substring_char(6, n);
        proof {
            assert(rest@ =~= h@.skip(6));
        }
        Some(rest)
    } else {
        proof {
            if has_basic_prefix(h@) {
                assert(h@.subrange(0, 6)[0] == 'B' && h@.subrange(0, 6)[1] == 'a' && h@.subrange(
                    0,
                    6,
                )[2] == 's' && h@.subrange(0, 6)[3] == 'i' && h@.subrange(0, 6)[4] == 'c'
                    && h@.subrange(0, 6)[5] == ' ');
            }
        }
        None
    }
}

/// What the standard base64 alphabet decodes a string to, if anything. The
/// exact coding is the base64 crate's; only named here.
pub uninterp spec fn base64_standard_decoded(s: Seq<char>) -> Option<Seq<u8>>;

/// Relies on base64's STANDARD engine: the result is a function of the
/// input characters alone.
#[verifier::external_body]
fn base64_decode(s: &str) -> (r: Option<Vec<u8>>)
    ensures
        match r {
            Some(v) => base64_standard_decoded(s@) == Some(v@),
            None => base64_standard_decoded(s@) is None,
        },
{
    match base64::Engine::decode(&base64::engine::general_purpose::STANDARD, s) {
        Ok(v) => Some(v),
        Err(_) => None,
    }
}

/// Relies on String::from_utf8: it succeeds exactly on the byte sequences
/// that are the UTF-8 encoding of some string, and returns that string.
#[verifier::external_body]
fn utf8_to_string(bytes: Vec<u8>) -> (r: Option<String>)
    ensures
        match r {
            Some(s) => encode_utf8(s@) == bytes@,
            None => forall|s: Seq<char>| encode_utf8(s) != bytes@,
        },
{
    match String::from_utf8(bytes) {
        Ok(s) => Some(s),
        Err(_) => None,
    }
}

/// Parses an `Authorization` header into Basic credentials: the scheme
/// marker is stripped, the remainder base64-decoded into UTF-8 text, and
/// that text split at its first colon into username and password.
pub fn basic_authentication(header: Option<&str>) -> (r: Result<Credentials, String>)
    ensures
        header is None ==> (r matches Err(m) && m@
            == "The \"Authorization\" header is missing"@),
        (header matches Some(h) && !has_basic_prefix(h@)) ==> (r matches Err(m) && m@
            == "The authorization scheme is not basic"@),
        (header matches Some(h) && has_basic_prefix(h@) && base64_standard_decoded(h@.skip(6))
            is None) ==> (r matches Err(m) && m@
            == "Failed to base64-decode the basic credential"@),
        r matches Ok(c) ==> (header matches Some(h) && has_basic_prefix(h@) && exists|s: Seq<char>|
            {
                &&& base64_standard_decoded(h@.skip(6)) == Some(#[trigger] encode_utf8(s))
                &&& exists|k: int|
                    0 <= k < s.len() && #[trigger] s[k] == ':' && (forall|x: int|
                        0 <= x < k ==> s[x] != ':') && c.username@ == s.subrange(0, k)
                        && c.password@ == s.skip(k + 1)
            }),
        r matches Err(m) ==> (header matches Some(h) ==> (has_basic_prefix(h@) ==> (
        base64_standard_decoded(h@.skip(6)) matches Some(bytes) ==> ({
            ||| (m@ == "The decoded credential string is not a valid UTF-8 sequence"@ && forall|
                s: Seq<char>,
            |
                #[trigger] encode_utf8(s) != bytes)
            ||| (m@ == "A password must be provided in the \"Basic\" auth"@ && exists|s: Seq<char>|
                #[trigger] encode_utf8(s) == bytes && (forall|x: int|
                    0 <= x < s.len() ==> s[x] != ':'))
        })))),
{
    let h = match header {
        None => {
            return Err(String::from_str("The \"Authorization\" header is missing"));
        },
        Some(h) => h,
    };
    let payload = match strip_basic_prefix(h) {
        None => {
            return Err(String::from_str("The authorization scheme is not basic"));
        },
        Some(p) => p,
    };
    let bytes = match base64_decode(payload) {
        None => {
            return Err(String::from_str("Failed to base64-decode the basic credential"));
        },
        Some(b) => b,
    };
    let ghost bytes_v = bytes@;
    let decoded = match utf8_to_string(bytes) {
        None => {
            return Err(
                String::from_str("The decoded credential string is not a valid UTF-8 sequence"),
            );
        },
        Some(s) => s,
    };
    let ds = decoded.as_str();
    let n = ds.unicode_len();
    let mut k: usize = 0;
    while k < n
        invariant
            k <= n,
            n == ds@.len(),
            ds@ == decoded@,
            header == Some(h),
            has_basic_prefix(h@),
            base64_standard_decoded(h@.skip(6)) == Some(bytes_v),
            encode_utf8(decoded@) == bytes_v,
            forall|x: int| 0 <= x < k ==> ds@[x] != ':',
        decreases n - k,
    {
        if ds.get_char(k) == ':' {
            let username = String::from_str(ds.substring_char(0, k));
            let password = String::from_str(ds.substring_char(k + 1, n));
            let c = Credentials { username, password };
            proof {
                assert(password@ =~= decoded@.skip(k + 1));
                assert(base64_standard_decoded(h@.skip(6)) == Some(encode_utf8(decoded@)));
            }
            return Ok(c);
        }
        k += 1;
    }
    proof {
        assert(encode_utf8(decoded@) == bytes_v);
    }
    Err(String::from_str("A password must be provided in the \"Basic\" auth"))
}

} // verus!
