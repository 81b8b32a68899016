//! How a snapshot is laid out in the columns of its row: the status code as
//! a small integer, the headers as one blob, the body as another.
//!
//! In the blob of headers each header stands in order as four fields: the
//! length of the name in bytes, the name in UTF-8, the length of the value,
//! the value. A length is eight bytes, least significant first.

use super::response::{
    headers_view, is_status_code, HeaderPair, ResponseError, ResponseView, SavedResponse,
};
use vstd::bytes::{
    lemma_auto_spec_u64_to_from_le_bytes, spec_u64_from_le_bytes, spec_u64_to_le_bytes,
    u64_from_le_bytes, u64_to_le_bytes,
};
use vstd::prelude::*;
use vstd::slice::{slice_subrange, slice_to_vec};
use vstd::utf8::{
    decode_utf8, encode_utf8, encode_utf8_decode_utf8, encode_utf8_valid_utf8, valid_utf8,
};

verus! {

/// A header as a pair of name and value.
pub type HeaderView = (Seq<char>, Seq<u8>);

/// A run of bytes behind its length.
pub open spec fn chunk(bytes: Seq<u8>) -> Seq<u8> {
    spec_u64_to_le_bytes(bytes.len() as u64) + bytes
}

/// One header in the blob.
pub open spec fn header_blob(header: HeaderView) -> Seq<u8> {
    chunk(encode_utf8(header.0)) + chunk(header.1)
}

/// The blob of a list of headers.
pub open spec fn headers_blob(headers: Seq<HeaderView>) -> Seq<u8>
    decreases headers.len(),
{
    if headers.len() == 0 {
        Seq::empty()
    } else {
        header_blob(headers[0]) + headers_blob(headers.drop_first())
    }
}

/// Whether the lengths of name and value can be written down.
pub open spec fn fits(header: HeaderView) -> bool {
    encode_utf8(header.0).len() <= u64::MAX && header.1.len() <= u64::MAX
}

/// Whether every header of the list can be written down.
pub open spec fn all_fit(headers: Seq<HeaderView>) -> bool {
    forall|i: int| 0 <= i < headers.len() ==> fits(#[trigger] headers[i])
}

/// Splits a run of bytes behind its length off the front of `bytes`: the run,
/// and what follows it. There is none if `bytes` ends before the run does.
pub open spec fn split_chunk(bytes: Seq<u8>) -> Option<(Seq<u8>, Seq<u8>)> {
    if bytes.len() < 8 {
        None
    } else {
        let n = spec_u64_from_le_bytes(bytes.subrange(0, 8)) as int;
        if n > bytes.len() - 8 {
            None
        } else {
            Some((bytes.subrange(8, 8 + n), bytes.subrange(8 + n, bytes.len() as int)))
        }
    }
}

/// Splits one header off the front of a blob: the header, and what follows.
pub open spec fn split_header(bytes: Seq<u8>) -> Result<(HeaderView, Seq<u8>), ResponseError> {
    match split_chunk(bytes) {
        None => Err(ResponseError::TruncatedHeaders),
        Some((name, after_name)) => if !valid_utf8(name) {
            Err(ResponseError::InvalidHeaderName)
        } else {
            match split_chunk(after_name) {
                None => Err(ResponseError::TruncatedHeaders),
                Some((value, rest)) => Ok(((decode_utf8(name), value), rest)),
            }
        },
    }
}

/// The headers that a blob holds, or what is wrong with the first header
/// that cannot be read.
pub open spec fn parse_headers(bytes: Seq<u8>) -> Result<Seq<HeaderView>, ResponseError>
    decreases bytes.len(),
{
    if bytes.len() == 0 {
        Ok(Seq::empty())
    } else {
        match split_header(bytes) {
            Err(e) => Err(e),
            Ok((header, rest)) => match parse_headers(rest) {
                Err(e) => Err(e),
                Ok(headers) => Ok(seq![header] + headers),
            },
        }
    }
}

/// What follows a header is shorter than the blob it was split off.
pub proof fn lemma_split_header_shrinks(bytes: Seq<u8>)
    ensures
        split_header(bytes) matches Ok((_, rest)) ==> rest.len() + 16 <= bytes.len(),
{
}

/// A run behind its length, with anything after it, splits into the run and
/// what is after it.
pub proof fn lemma_split_chunk(run: Seq<u8>, rest: Seq<u8>)
    requires
        run.len() <= u64::MAX,
    ensures
        split_chunk(chunk(run) + rest) == Some((run, rest)),
{
    lemma_auto_spec_u64_to_from_le_bytes();
    let prefix = spec_u64_to_le_bytes(run.len() as u64);
    let bytes = chunk(run) + rest;
    assert(bytes.subrange(0, 8) =~= prefix);
    assert(bytes.subrange(8, 8 + run.len() as int) =~= run);
    assert(bytes.subrange(8 + run.len() as int, bytes.len() as int) =~= rest);
}

/// A header in the blob, with anything after it, splits into the header and
/// what is after it.
pub proof fn lemma_split_header(header: HeaderView, rest: Seq<u8>)
    requires
        fits(header),
    ensures
        split_header(header_blob(header) + rest) == Ok::<(HeaderView, Seq<u8>), ResponseError>(
            (header, rest),
        ),
{
    let name = encode_utf8(header.0);
    assert(header_blob(header) + rest =~= chunk(name) + (chunk(header.1) + rest));
    lemma_split_chunk(name, chunk(header.1) + rest);
    lemma_split_chunk(header.1, rest);
    encode_utf8_valid_utf8(header.0);
    encode_utf8_decode_utf8(header.0);
}

/// The blob of two lists, one after the other, is the blob of the first
/// followed by the blob of the second.
pub proof fn lemma_headers_blob_concat(first: Seq<HeaderView>, second: Seq<HeaderView>)
    ensures
        headers_blob(first + second) == headers_blob(first) + headers_blob(second),
    decreases first.len(),
{
    if first.len() == 0 {
        assert(first + second =~= second);
        assert(headers_blob(first) + headers_blob(second) =~= headers_blob(second));
    } else {
        assert((first + second).drop_first() =~= first.drop_first() + second);
        lemma_headers_blob_concat(first.drop_first(), second);
        assert(headers_blob(first + second) =~= headers_blob(first) + headers_blob(second));
    }
}

/// Reading back what was written gives the headers that were written: each
/// name, each value, and their order.
pub proof fn law_headers_round_trip(headers: Seq<HeaderView>)
    requires
        all_fit(headers),
    ensures
        parse_headers(headers_blob(headers)) == Ok::<Seq<HeaderView>, ResponseError>(headers),
    decreases headers.len(),
{
    if headers.len() > 0 {
        let rest = headers.drop_first();
        assert(all_fit(rest)) by {
            assert forall|i: int| 0 <= i < rest.len() implies fits(#[trigger] rest[i]) by {
                assert(rest[i] == headers[i + 1]);
            }
        }
        law_headers_round_trip(rest);
        let blob = headers_blob(headers);
        assert(blob == header_blob(headers[0]) + headers_blob(rest));
        lemma_split_header(headers[0], headers_blob(rest));
        lemma_split_header_shrinks(blob);
        assert(split_header(blob) matches Ok((header, after)) && header == headers[0] && after
            == headers_blob(rest));
        assert(blob.len() >= 16);
        assert(seq![headers[0]] + rest =~= headers);
    } else {
        assert(headers =~= Seq::<HeaderView>::empty());
    }
}

/// A snapshot as it lies in the columns of its row.
#[derive(Debug, PartialEq, Eq)]
pub struct StoredResponse {
    pub status_code: i16,
    pub headers: Vec<u8>,
    pub body: Vec<u8>,
}

/// The snapshot that the columns of a row hold, or what is wrong with them:
/// the status code is looked at first, then the headers from the front.
pub open spec fn decode_columns(status_code: i16, headers: Seq<u8>, body: Seq<u8>) -> Result<
    ResponseView,
    ResponseError,
> {
    if !is_status_code(status_code as int) {
        Err(ResponseError::InvalidStatusCode)
    } else {
        match parse_headers(headers) {
            Err(e) => Err(e),
            Ok(parsed) => Ok(
                ResponseView { status_code: status_code as u16, headers: parsed, body },
            ),
        }
    }
}

/// Reading back the columns that a snapshot was written to gives the
/// snapshot: status code, headers in order, and body.
pub proof fn law_columns_round_trip(response: ResponseView)
    requires
        is_status_code(response.status_code as int),
        all_fit(response.headers),
    ensures
        decode_columns(
            response.status_code as i16,
            headers_blob(response.headers),
            response.body,
        ) == Ok::<ResponseView, ResponseError>(response),
{
    law_headers_round_trip(response.headers);
}

/// Calls `String::from_utf8`, which turns bytes into a string if they are
/// UTF-8 and refuses them if they are not. Trusted: that it accepts exactly
/// the bytes that are valid UTF-8, and that the string it makes of them,
/// encoded again, is the bytes that were given.
#[verifier::external_body]
fn string_from_utf8(bytes: Vec<u8>) -> (r: Option<String>)
    ensures
        r is Some <==> valid_utf8(bytes@),
        r matches Some(s) ==> encode_utf8(s@) == bytes@,
{
    String::from_utf8(bytes).ok()
}

/// Appends `bytes` to `blob`.
fn append(blob: &mut Vec<u8>, bytes: &[u8])
    ensures
        final(blob)@ == old(blob)@ + bytes@,
{
    let mut i: usize = 0;
    while i < bytes.len()
        invariant
            i <= bytes.len(),
            blob@ == old(blob)@ + bytes@.take(i as int),
        decreases bytes.len() - i,
    {
        blob.push(bytes[i]);
        i += 1;
        assert(blob@ =~= old(blob)@ + bytes@.take(i as int));
    }
    assert(bytes@.take(i as int) =~= bytes@);
}

/// Appends `run` to `blob`, behind its length.
fn append_chunk(blob: &mut Vec<u8>, run: &[u8])
    ensures
        final(blob)@ == old(blob)@ + chunk(run@),
{
    let prefix = u64_to_le_bytes(run.len() as u64);
    append(blob, prefix.as_slice());
    append(blob, run);
    assert(blob@ =~= old(blob)@ + chunk(run@));
}

/// Writes a list of headers down as one blob.
pub fn encode_headers(headers: &Vec<HeaderPair>) -> (blob: Vec<u8>)
    ensures
        blob@ == headers_blob(headers_view(headers@)),
        all_fit(headers_view(headers@)),
{
    let ghost all = headers_view(headers@);
    let mut blob: Vec<u8> = Vec::new();
    let mut i: usize = 0;
    while i < headers.len()
        invariant
            i <= headers.len(),
            all == headers_view(headers@),
            blob@ == headers_blob(all.take(i as int)),
            forall|j: int| 0 <= j < i ==> fits(#[trigger] all[j]),
        decreases headers.len() - i,
    {
        let header = &headers[i];
        let ghost written = blob@;
        let name = header.name.as_str().as_bytes();
        let name_length = name.len();
        let value_length = header.value.len();
        append_chunk(&mut blob, name);
        append_chunk(&mut blob, header.value.as_slice());
        proof {
            let this = all[i as int];
            assert(this == header@);
            assert(encode_utf8(this.0).len() == name_length);
            assert(this.1.len() == value_length);
            assert(fits(this));
            let one = seq![this];
            assert(all.take(i + 1) =~= all.take(i as int) + one);
            lemma_headers_blob_concat(all.take(i as int), one);
            assert(one.drop_first() =~= Seq::<HeaderView>::empty());
            assert(headers_blob(one.drop_first()) =~= Seq::<u8>::empty());
            assert(headers_blob(one) =~= header_blob(this));
            assert(blob@ =~= written + header_blob(this));
        }
        i += 1;
    }
    assert(all.take(i as int) =~= all);
    blob
}

/// Finds the run of bytes behind its length at place `at` of `blob`: where
/// the run starts and where it ends.
fn take_chunk(blob: &Vec<u8>, at: usize) -> (r: Option<(usize, usize)>)
    requires
        at <= blob.len(),
    ensures
        match r {
            Some((start, end)) => at + 8 == start <= end <= blob.len() && split_chunk(
                blob@.subrange(at as int, blob.len() as int),
            ) == Some(
                (
                    blob@.subrange(start as int, end as int),
                    blob@.subrange(end as int, blob.len() as int),
                ),
            ),
            None => split_chunk(blob@.subrange(at as int, blob.len() as int)) is None,
        },
{
    let len = blob.len();
    let ghost tail = blob@.subrange(at as int, len as int);
    if len - at < 8 {
        return None;
    }
    let n = u64_from_le_bytes(slice_subrange(blob.as_slice(), at, at + 8));
    assert(tail.subrange(0, 8) =~= blob@.subrange(at as int, at + 8));
    let room = (len - at - 8) as u64;
    if n > room {
        return None;
    }
    let start = at + 8;
    let end = start + n as usize;
    assert(tail.subrange(8, 8 + n as int) =~= blob@.subrange(start as int, end as int));
    assert(tail.subrange(8 + n as int, tail.len() as int) =~= blob@.subrange(
        end as int,
        len as int,
    ));
    Some((start, end))
}

/// Reads the headers back from a blob, in their order. A blob that ends in
/// the middle of a header, or holds a name that is not UTF-8, is refused.
pub fn decode_headers(blob: &Vec<u8>) -> (r: Result<Vec<HeaderPair>, ResponseError>)
    ensures
        match r {
            Ok(headers) => parse_headers(blob@) == Ok::<Seq<HeaderView>, ResponseError>(
                headers_view(headers@),
            ),
            Err(e) => parse_headers(blob@) == Err::<Seq<HeaderView>, ResponseError>(e),
        },
{
    let len = blob.len();
    let mut headers: Vec<HeaderPair> = Vec::new();
    let mut at: usize = 0;
    assert(blob@.subrange(0, len as int) =~= blob@);
    assert(headers_view(headers@) =~= Seq::<HeaderView>::empty());
    while at < len
        invariant
            at <= len == blob.len(),
            match parse_headers(blob@.subrange(at as int, len as int)) {
                Ok(rest) => parse_headers(blob@) == Ok::<Seq<HeaderView>, ResponseError>(
                    headers_view(headers@) + rest,
                ),
                Err(e) => parse_headers(blob@) == Err::<Seq<HeaderView>, ResponseError>(e),
            },
        decreases len - at,
    {
        let ghost tail = blob@.subrange(at as int, len as int);
        let ghost before = headers_view(headers@);
        let (name_start, name_end) = match take_chunk(blob, at) {
            Some(bounds) => bounds,
            None => {
                return Err(ResponseError::TruncatedHeaders);
            },
        };
        let name_bytes = slice_to_vec(slice_subrange(blob.as_slice(), name_start, name_end));
        let name = match string_from_utf8(name_bytes) {
            Some(name) => name,
            None => {
                return Err(ResponseError::InvalidHeaderName);
            },
        };
        let (value_start, value_end) = match take_chunk(blob, name_end) {
            Some(bounds) => bounds,
            None => {
                return Err(ResponseError::TruncatedHeaders);
            },
        };
        let value = slice_to_vec(slice_subrange(blob.as_slice(), value_start, value_end));
        let header = HeaderPair { name, value };
        proof {
            encode_utf8_decode_utf8(header.name@);
            let rest = blob@.subrange(value_end as int, len as int);
            assert(split_header(tail) == Ok::<(HeaderView, Seq<u8>), ResponseError>(
                (header@, rest),
            ));
            assert(headers_view(headers@.push(header)) =~= before.push(header@));
            match parse_headers(rest) {
                Ok(others) => {
                    assert(before.push(header@) + others =~= before + (seq![header@] + others));
                },
                Err(_) => {},
            }
        }
        headers.push(header);
        at = value_end;
    }
    assert(headers_view(headers@) + Seq::<HeaderView>::empty() =~= headers_view(headers@));
    Ok(headers)
}

/// Lays a snapshot out in the columns of its row.
pub fn encode(response: &SavedResponse) -> (stored: StoredResponse)
    ensures
        stored.status_code == response@.status_code as i16,
        stored.headers@ == headers_blob(response@.headers),
        stored.body@ == response@.body,
        decode_columns(stored.status_code, stored.headers@, stored.body@) == Ok::<
            ResponseView,
            ResponseError,
        >(response@),
{
    let status_code = response.status_code() as i16;
    let headers = encode_headers(response.headers());
    let body = response.body().clone();
    proof {
        law_columns_round_trip(response@);
    }
    StoredResponse { status_code, headers, body }
}

/// Reads a snapshot back from the columns of its row. Columns that no
/// snapshot was written to are refused.
pub fn decode(stored: &StoredResponse) -> (r: Result<SavedResponse, ResponseError>)
    ensures
        match r {
            Ok(response) => decode_columns(stored.status_code, stored.headers@, stored.body@)
                == Ok::<ResponseView, ResponseError>(response@),
            Err(e) => decode_columns(stored.status_code, stored.headers@, stored.body@) == Err::<
                ResponseView,
                ResponseError,
            >(e),
        },
{
    if stored.status_code < 100 || stored.status_code > 999 {
        return Err(ResponseError::InvalidStatusCode);
    }
    let headers = match decode_headers(&stored.headers) {
        Ok(headers) => headers,
        Err(e) => {
            return Err(e);
        },
    };
    SavedResponse::new(stored.status_code as u16, headers, stored.body.clone())
}

/// What the three columns of a row, each of which may be empty, say of the
/// response: none is filled while the execution is in flight, all are once it
/// has finished, and anything in between is no row that was ever written.
pub open spec fn decode_nullable_columns(
    status_code: Option<i16>,
    headers: Option<Seq<u8>>,
    body: Option<Seq<u8>>,
) -> Result<Option<ResponseView>, ResponseError> {
    match (status_code, headers, body) {
        (None, None, None) => Ok(None),
        (Some(status_code), Some(headers), Some(body)) => match decode_columns(
            status_code,
            headers,
            body,
        ) {
            Ok(response) => Ok(Some(response)),
            Err(e) => Err(e),
        },
        _ => Err(ResponseError::IncompleteRow),
    }
}

/// The bytes of an optional column.
pub open spec fn column_view(column: Option<Vec<u8>>) -> Option<Seq<u8>> {
    match column {
        Some(bytes) => Some(bytes@),
        None => None,
    }
}

/// Reads the response of a row from its three columns, each of which may be
/// empty: no response while the execution is in flight, the snapshot once it
/// has finished.
pub fn decode_row(status_code: Option<i16>, headers: Option<Vec<u8>>, body: Option<Vec<u8>>) -> (r:
    Result<Option<SavedResponse>, ResponseError>)
    ensures
        match r {
            Ok(Some(response)) => decode_nullable_columns(
                status_code,
                column_view(headers),
                column_view(body),
            ) == Ok::<Option<ResponseView>, ResponseError>(Some(response@)),
            Ok(None) => decode_nullable_columns(
                status_code,
                column_view(headers),
                column_view(body),
            ) == Ok::<Option<ResponseView>, ResponseError>(None),
            Err(e) => decode_nullable_columns(status_code, column_view(headers), column_view(body))
                == Err::<Option<ResponseView>, ResponseError>(e),
        },
{
    match (status_code, headers, body) {
        (None, None, None) => Ok(None),
        (Some(status_code), Some(headers), Some(body)) => {
            let stored = StoredResponse { status_code, headers, body };
            match decode(&stored) {
                Ok(response) => Ok(Some(response)),
                Err(e) => Err(e),
            }
        },
        _ => Err(ResponseError::IncompleteRow),
    }
}

} // verus!
