//! HTTP response descriptors, as the idempotency store persists them: a
//! status code, an ordered list of header name/value pairs (values are raw
//! bytes), and a body of raw bytes.

use vstd::prelude::*;
use vstd::utf8::encode_utf8;

verus! {

/// One response header: a name and a raw byte value.
#[derive(Debug)]
pub struct HeaderPair {
    pub name: String,
    pub value: Vec<u8>,
}

/// Ghost image of a header pair.
#[verifier::ext_equal]
pub struct HeaderPairV {
    pub name: Seq<char>,
    pub value: Seq<u8>,
}

impl View for HeaderPair {
    type V = HeaderPairV;

    open spec fn view(&self) -> HeaderPairV {
        HeaderPairV { name: self.name@, value: self.value@ }
    }
}

/// An HTTP response reduced to what is persisted and replayed: callers
/// (the HTTP layer) are responsible for actually transmitting it.
#[derive(Debug)]
pub struct HttpResponseDescriptor {
    pub status: u16,
    pub headers: Vec<HeaderPair>,
    pub body: Vec<u8>,
}

/// Ghost image of a response descriptor.
#[verifier::ext_equal]
pub struct ResponseV {
    pub status: u16,
    pub headers: Seq<HeaderPairV>,
    pub body: Seq<u8>,
}

impl View for HttpResponseDescriptor {
    type V = ResponseV;

    open spec fn view(&self) -> ResponseV {
        ResponseV {
            status: self.status,
            headers: self.headers@.map_values(|h: HeaderPair| h@),
            body: self.body@,
        }
    }
}

/// The response that redirects a browser to `location`: status 303 with a
/// single `location` header and an empty body.
pub open spec fn see_other_v(location: Seq<char>) -> ResponseV {
    ResponseV {
        status: 303,
        headers: seq![HeaderPairV { name: "location"@, value: encode_utf8(location) }],
        body: seq![],
    }
}

/// Builds the redirect response for `location`.
pub fn see_other(location: &str) -> (r: HttpResponseDescriptor)
    ensures
        r@ == see_other_v(location@),
{
    let mut headers: Vec<HeaderPair> = Vec::new();
    headers.push(
        HeaderPair {
            name: String::from_str("location"),
            value: vstd::slice::slice_to_vec(location.as_bytes()),
        },
    );
    let r = HttpResponseDescriptor { status: 303, headers, body: Vec::new() };
    proof {
        assert(r@.headers =~= see_other_v(location@).headers);
        assert(r@ =~= see_other_v(location@));
    }
    r
}

impl HttpResponseDescriptor {
    /// A copy whose ghost image equals this one's, field for field.
    pub fn duplicate(&self) -> (r: Self)
        ensures
            r@ == self@,
    {
        let mut headers: Vec<HeaderPair> = Vec::new();
        let mut i: usize = 0;
        while i < self.headers.len()
            invariant
                i <= self.headers.len(),
                headers@.len() == i,
                forall|j: int| 0 <= j < i ==> #[trigger] headers@[j]@ == self.headers@[j]@,
            decreases self.headers.len() - i,
        {
            let h = &self.headers[i];
            let nh = HeaderPair { name: h.name.clone(), value: clone_bytes(&h.value) };
            proof {
                assert(nh@ =~= self.headers@[i as int]@);
            }
            headers.push(nh);
            i += 1;
        }
        let r = HttpResponseDescriptor {
            status: self.status,
            headers,
            body: clone_bytes(&self.body),
        };
        proof {
            assert(r@.headers =~= self@.headers);
            assert(r@ =~= self@);
        }
        r
    }
}

/// A copy of a byte vector with an equal ghost image.
pub fn clone_bytes(v: &Vec<u8>) -> (r: Vec<u8>)
    ensures
        r@ == v@,
{
    let r = v.clone();
    proof {
        assert(r@ =~= v@);
    }
    r
}

} // verus!
