//! The HTTP-equivalent response that the idempotency store persists and
//! replays: a plain serializable record of status code, headers and body,
//! not a live framework response object.

use vstd::prelude::*;

verus! {

/// One response header: a name/value pair.
#[derive(Debug, PartialEq)]
pub struct Header {
    pub name: String,
    pub value: String,
}

impl View for Header {
    type V = (Seq<char>, Seq<char>);

    open spec fn view(&self) -> (Seq<char>, Seq<char>) {
        (self.name@, self.value@)
    }
}

/// The ghost image of a stored response.
pub struct ResponseView {
    pub status_code: u16,
    pub headers: Seq<(Seq<char>, Seq<char>)>,
    pub body: Seq<u8>,
}

/// The response of a publish request as the idempotency store keeps it:
/// status code, ordered headers, body bytes.
#[derive(Debug, PartialEq)]
pub struct StoredResponse {
    pub status_code: u16,
    pub headers: Vec<Header>,
    pub body: Vec<u8>,
}

impl View for StoredResponse {
    type V = ResponseView;

    open spec fn view(&self) -> ResponseView {
        ResponseView {
            status_code: self.status_code,
            headers: self.headers@.map_values(|h: Header| h@),
            body: self.body@,
        }
    }
}

impl StoredResponse {
    /// An exact copy, written out so that verified callers know the copy
    /// holds the same status, headers and body as the original.
    pub fn duplicate(&self) -> (r: StoredResponse)
        ensures
            r@ == self@,
    {
        let mut headers: Vec<Header> = Vec::new();
        let mut i: usize = 0;
        while i < self.headers.len()
            invariant
                i <= self.headers.len(),
                headers@.map_values(|h: Header| h@) =~= self.headers@.take(i as int).map_values(
                    |h: Header| h@,
                ),
            decreases self.headers.len() - i,
        {
            let h = Header {
                name: self.headers[i].name.clone(),
                value: self.headers[i].value.clone(),
            };
            headers.push(h);
            proof {
                assert(self.headers@.take(i as int + 1).map_values(|h: Header| h@)
                    =~= self.headers@.take(i as int).map_values(|h: Header| h@).push(
                    self.headers@[i as int]@,
                ));
            }
            i = i + 1;
        }
        let r = StoredResponse {
            status_code: self.status_code,
            headers,
            body: self.body.clone(),
        };
        proof {
            assert(self.headers@.take(self.headers@.len() as int) =~= self.headers@);
            assert(r@.body =~= self@.body);
        }
        r
    }
}

/// The ghost image of a redirect response pointing at `location`.
pub open spec fn see_other_view(location: Seq<char>) -> ResponseView {
    ResponseView {
        status_code: 303,
        headers: seq![("Location"@, location)],
        body: Seq::empty(),
    }
}

/// A see-other redirect: status 303 with a single Location header and an
/// empty body. This is the response a successful publish persists.
pub fn see_other(location: &str) -> (r: StoredResponse)
    ensures
        r@ == see_other_view(location@),
{
    let mut headers: Vec<Header> = Vec::new();
    headers.push(
        Header { name: String::from_str("Location"), value: String::from_str(location) },
    );
    let r = StoredResponse { status_code: 303, headers, body: Vec::new() };
    proof {
        assert(r@.headers =~= see_other_view(location@).headers);
        assert(r@.body =~= see_other_view(location@).body);
    }
    r
}

} // verus!
