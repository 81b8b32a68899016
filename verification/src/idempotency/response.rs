//! The snapshot of a response that is kept for replay.

use vstd::prelude::*;
use vstd::slice::slice_to_vec;
use vstd::utf8::encode_utf8;

verus! {

/// The lowest status code a response can carry.
pub const MIN_STATUS_CODE: u16 = 100;

/// The highest status code a response can carry.
pub const MAX_STATUS_CODE: u16 = 999;

/// The status codes a response can carry.
pub open spec fn is_status_code(code: int) -> bool {
    MIN_STATUS_CODE <= code <= MAX_STATUS_CODE
}

/// One header of a response: its name, and its value as raw bytes.
#[derive(Debug, PartialEq, Eq)]
pub struct HeaderPair {
    pub name: String,
    pub value: Vec<u8>,
}

impl View for HeaderPair {
    type V = (Seq<char>, Seq<u8>);

    open spec fn view(&self) -> (Seq<char>, Seq<u8>) {
        (self.name@, self.value@)
    }
}

impl Clone for HeaderPair {
    fn clone(&self) -> (copy: HeaderPair)
        ensures
            copy@ == self@,
    {
        HeaderPair { name: self.name.clone(), value: self.value.clone() }
    }
}

/// What a response is, as a mathematical value: its status code, its headers
/// in order, and its body.
pub struct ResponseView {
    pub status_code: u16,
    pub headers: Seq<(Seq<char>, Seq<u8>)>,
    pub body: Seq<u8>,
}

/// The headers of a list, each as a pair of name and value.
pub open spec fn headers_view(headers: Seq<HeaderPair>) -> Seq<(Seq<char>, Seq<u8>)> {
    headers.map_values(|h: HeaderPair| h@)
}

/// Why a response cannot be snapshotted, or a snapshot not be read back.
#[derive(Debug, Clone, Copy, PartialEq, Eq, Structural)]
pub enum ResponseError {
    /// The status code lies outside `MIN_STATUS_CODE..=MAX_STATUS_CODE`.
    InvalidStatusCode,
    /// The blob of headers ends in the middle of a header.
    TruncatedHeaders,
    /// The name of a header in the blob is not UTF-8.
    InvalidHeaderName,
    /// Some columns of the response are filled and others are not.
    IncompleteRow,
}

/// A snapshot of a response: status code, headers in the order in which they
/// were given, and body. A snapshot cannot be changed once it is made.
#[derive(Debug, PartialEq, Eq)]
pub struct SavedResponse {
    status_code: u16,
    headers: Vec<HeaderPair>,
    body: Vec<u8>,
}

impl View for SavedResponse {
    type V = ResponseView;

    closed spec fn view(&self) -> ResponseView {
        ResponseView {
            status_code: self.status_code,
            headers: headers_view(self.headers@),
            body: self.body@,
        }
    }
}

/// A copy of a list of headers.
pub fn copy_headers(headers: &Vec<HeaderPair>) -> (copy: Vec<HeaderPair>)
    ensures
        headers_view(copy@) == headers_view(headers@),
{
    let mut copy: Vec<HeaderPair> = Vec::new();
    let mut i: usize = 0;
    while i < headers.len()
        invariant
            i <= headers.len(),
            copy.len() == i,
            forall|j: int| 0 <= j < i ==> (#[trigger] copy@[j])@ == headers@[j]@,
        decreases headers.len() - i,
    {
        copy.push(headers[i].clone());
        i += 1;
    }
    assert(headers_view(copy@) =~= headers_view(headers@));
    copy
}

impl SavedResponse {
    #[verifier::type_invariant]
    spec fn well_formed(&self) -> bool {
        is_status_code(self.status_code as int)
    }

    /// Takes a snapshot. Headers keep their order, and a name may occur more
    /// than once.
    pub fn new(status_code: u16, headers: Vec<HeaderPair>, body: Vec<u8>) -> (r: Result<
        SavedResponse,
        ResponseError,
    >)
        ensures
            match r {
                Ok(response) => is_status_code(status_code as int) && response@ == (ResponseView {
                    status_code,
                    headers: headers_view(headers@),
                    body: body@,
                }),
                Err(e) => !is_status_code(status_code as int) && e
                    == ResponseError::InvalidStatusCode,
            },
    {
        if status_code < MIN_STATUS_CODE || status_code > MAX_STATUS_CODE {
            Err(ResponseError::InvalidStatusCode)
        } else {
            Ok(SavedResponse { status_code, headers, body })
        }
    }

    /// The snapshot of a redirect: status 303, the one header `location`,
    /// and `body`.
    pub fn see_other(location: &str, body: Vec<u8>) -> (response: SavedResponse)
        ensures
            response@ == (ResponseView {
                status_code: 303,
                headers: seq![("location"@, encode_utf8(location@))],
                body: body@,
            }),
    {
        let mut headers: Vec<HeaderPair> = Vec::new();
        headers.push(
            HeaderPair { name: "location".to_owned(), value: slice_to_vec(location.as_bytes()) },
        );
        assert(headers_view(headers@) =~= seq![("location"@, encode_utf8(location@))]);
        SavedResponse { status_code: 303, headers, body }
    }

    /// The status code, always one a response can carry.
    pub fn status_code(&self) -> (code: u16)
        ensures
            code == self@.status_code,
            is_status_code(code as int),
    {
        proof {
            use_type_invariant(self);
        }
        self.status_code
    }

    /// The headers, in order.
    pub fn headers(&self) -> (headers: &Vec<HeaderPair>)
        ensures
            headers_view(headers@) == self@.headers,
    {
        &self.headers
    }

    /// The body.
    pub fn body(&self) -> (body: &Vec<u8>)
        ensures
            body@ == self@.body,
    {
        &self.body
    }
}

impl Clone for SavedResponse {
    fn clone(&self) -> (copy: SavedResponse)
        ensures
            copy@ == self@,
    {
        proof {
            use_type_invariant(self);
        }
        SavedResponse {
            status_code: self.status_code,
            headers: copy_headers(&self.headers),
            body: self.body.clone(),
        }
    }
}

} // verus!
