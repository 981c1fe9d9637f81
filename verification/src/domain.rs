//! Validated subscriber data: e-mail addresses and display names.

use vstd::prelude::*;

verus! {

/// Whether the e-mail validator accepts `s`. The exact predicate (the HTML5
/// e-mail shape) is the validator crate's; only named here.
pub uninterp spec fn email_accepted(s: Seq<char>) -> bool;

/// Relies on validator::ValidateEmail::validate_email: the verdict is a
/// function of the characters alone, and the source rejects an empty string
/// and a string without '@' outright.
#[verifier::external_body]
fn validate_email(s: &String) -> (r: bool)
    ensures
        r == email_accepted(s@),
        r ==> s@.len() > 0,
        r ==> exists|i: int| 0 <= i < s@.len() && s@[i] == '@',
{
    validator::ValidateEmail::validate_email(&s)
}

/// The e-mail address of a subscriber, accepted by the validator.
#[derive(Debug, Clone)]
pub struct SubscriberEmail {
    email: String,
}

impl View for SubscriberEmail {
    type V = Seq<char>;

    closed spec fn view(&self) -> Seq<char> {
        self.email@
    }
}

impl SubscriberEmail {
    /// Accepts exactly the addresses the e-mail validator accepts and keeps
    /// an accepted address unchanged.
    pub fn parse(s: String) -> (r: Result<SubscriberEmail, String>)
        ensures
            r matches Ok(e) ==> e@ == s@ && email_accepted(s@),
            r is Err <==> !email_accepted(s@),
            r matches Err(m) ==> m@ == s@ + " is not a valid email"@,
    {
        if validate_email(&s) {
            Ok(SubscriberEmail { email: s })
        } else {
            Err(s.concat(" is not a valid email"))
        }
    }

    /// The address's characters.
    pub fn as_str(&self) -> (r: &str)
        ensures
            r@ == self@,
    {
        self.email.as_str()
    }
}

/// Whether `c` has the Unicode `White_Space` property: what the standard
/// library's trimming treats as whitespace.
pub open spec fn is_whitespace_char(c: char) -> bool {
    ||| c == '\u{0009}'
    ||| c == '\u{000A}'
    ||| c == '\u{000B}'
    ||| c == '\u{000C}'
    ||| c == '\u{000D}'
    ||| c == ' '
    ||| c == '\u{0085}'
    ||| c == '\u{00A0}'
    ||| c == '\u{1680}'
    ||| c == '\u{2000}'
    ||| c == '\u{2001}'
    ||| c == '\u{2002}'
    ||| c == '\u{2003}'
    ||| c == '\u{2004}'
    ||| c == '\u{2005}'
    ||| c == '\u{2006}'
    ||| c == '\u{2007}'
    ||| c == '\u{2008}'
    ||| c == '\u{2009}'
    ||| c == '\u{200A}'
    ||| c == '\u{2028}'
    ||| c == '\u{2029}'
    ||| c == '\u{202F}'
    ||| c == '\u{205F}'
    ||| c == '\u{3000}'
}

/// Whether `s` trims to the empty string: every character is whitespace.
pub open spec fn trimmed_empty(s: Seq<char>) -> bool {
    forall|i: int| 0 <= i < s.len() ==> is_whitespace_char(#[trigger] s[i])
}

/// The characters a subscriber name may not contain.
pub open spec fn forbidden_name_char(c: char) -> bool {
    ||| c == '/'
    ||| c == '('
    ||| c == ')'
    ||| c == '"'
    ||| c == '<'
    ||| c == '>'
    ||| c == '\\'
    ||| c == '{'
    ||| c == '}'
}

/// Whether `s` contains a forbidden character.
pub open spec fn has_forbidden_char(s: Seq<char>) -> bool {
    exists|i: int| 0 <= i < s.len() && forbidden_name_char(#[trigger] s[i])
}

/// The number of extended grapheme clusters of a string. The segmentation
/// rules are the unicode-segmentation crate's; only named here.
pub uninterp spec fn grapheme_count(s: Seq<char>) -> nat;

/// Relies on unicode_segmentation::UnicodeSegmentation::graphemes: the
/// number of extended grapheme clusters, a function of the characters alone.
#[verifier::external_body]
fn count_graphemes(s: &String) -> (n: usize)
    ensures
        n == grapheme_count(s@),
{
    unicode_segmentation::UnicodeSegmentation::graphemes(s.as_str(), true).count()
}

/// Whether a string is acceptable as a subscriber name: it does not trim to
/// nothing, is at most 256 grapheme clusters long, and contains no forbidden
/// character.
pub open spec fn valid_subscriber_name(s: Seq<char>) -> bool {
    &&& !trimmed_empty(s)
    &&& grapheme_count(s) <= 256
    &&& !has_forbidden_char(s)
}

/// Whether `c` has the Unicode `White_Space` property.
fn is_whitespace(c: char) -> (r: bool)
    ensures
        r == is_whitespace_char(c),
{
    c == '\u{0009}' || c == '\u{000A}' || c == '\u{000B}' || c == '\u{000C}' || c == '\u{000D}'
        || c == ' ' || c == '\u{0085}' || c == '\u{00A0}' || c == '\u{1680}' || c == '\u{2000}'
        || c == '\u{2001}' || c == '\u{2002}' || c == '\u{2003}' || c == '\u{2004}' || c
        == '\u{2005}' || c == '\u{2006}' || c == '\u{2007}' || c == '\u{2008}' || c == '\u{2009}'
        || c == '\u{200A}' || c == '\u{2028}' || c == '\u{2029}' || c == '\u{202F}' || c
        == '\u{205F}' || c == '\u{3000}'
}

/// Whether `c` is one of the characters a subscriber name may not contain.
fn is_forbidden(c: char) -> (r: bool)
    ensures
        r == forbidden_name_char(c),
{
    c == '/' || c == '(' || c == ')' || c == '"' || c == '<' || c == '>' || c == '\\' || c == '{'
        || c == '}'
}

/// Whether `s` trims to the empty string.
fn is_trimmed_empty(s: &String) -> (r: bool)
    ensures
        r == trimmed_empty(s@),
{
    let st = s.as_str();
    let n = st.unicode_len();
    let mut i: usize = 0;
    while i < n
        invariant
            i <= n,
            n == st@.len(),
            st@ == s@,
            forall|j: int| 0 <= j < i ==> is_whitespace_char(#[trigger] st@[j]),
        decreases n - i,
    {
        let c = st.get_char(i);
        if !is_whitespace(c) {
            return false;
        }
        i += 1;
    }
    true
}

/// Whether `s` contains a forbidden character.
fn contains_forbidden_char(s: &String) -> (r: bool)
    ensures
        r == has_forbidden_char(s@),
{
    let st = s.as_str();
    let n = st.unicode_len();
    let mut i: usize = 0;
    while i < n
        invariant
            i <= n,
            n == st@.len(),
            st@ == s@,
            forall|j: int| 0 <= j < i ==> !forbidden_name_char(#[trigger] st@[j]),
        decreases n - i,
    {
        let c = st.get_char(i);
        if is_forbidden(c) {
            return true;
        }
        i += 1;
    }
    false
}

/// The display name of a subscriber.
#[derive(Debug)]
pub struct SubscriberName {
    name: String,
}

impl View for SubscriberName {
    type V = Seq<char>;

    closed spec fn view(&self) -> Seq<char> {
        self.name@
    }
}

impl SubscriberName {
    /// Accepts exactly the strings that [`valid_subscriber_name`] allows and
    /// keeps an accepted name unchanged.
    pub fn parse(input: String) -> (r: Result<SubscriberName, String>)
        ensures
            r matches Ok(n) ==> n@ == input@ && valid_subscriber_name(input@),
            r is Err <==> !valid_subscriber_name(input@),
            r matches Err(m) ==> m@ == input@ + " is not a valid subscriber name"@,
    {
        let is_empty_input = is_trimmed_empty(&input);
        let is_too_long = count_graphemes(&input) > 256;
        let has_forbidden = contains_forbidden_char(&input);
        if is_empty_input || is_too_long || has_forbidden {
            Err(input.concat(" is not a valid subscriber name"))
        } else {
            Ok(SubscriberName { name: input })
        }
    }

    /// The name's characters.
    pub fn as_str(&self) -> (r: &str)
        ensures
            r@ == self@,
    {
        self.name.as_str()
    }
}

/// A sign-up that passed validation: a name and an address.
#[derive(Debug)]
pub struct NewSubscriber {
    pub name: SubscriberName,
    pub email: SubscriberEmail,
}

} // verus!
