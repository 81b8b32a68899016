use zero2prod::idempotency::codec::{
    decode, decode_headers, decode_row, encode, encode_headers, StoredResponse,
};
use zero2prod::idempotency::{HeaderPair, ResponseError, SavedResponse};

fn header(name: &str, value: &[u8]) -> HeaderPair {
    HeaderPair { name: name.to_string(), value: value.to_vec() }
}

#[test]
fn no_headers_make_an_empty_blob() {
    assert_eq!(encode_headers(&Vec::new()), Vec::<u8>::new());
    assert_eq!(decode_headers(&Vec::new()), Ok(Vec::new()));
}

#[test]
fn a_header_is_laid_out_as_lengths_and_bytes() {
    let blob = encode_headers(&vec![header("ab", b"xyz")]);
    let expected: Vec<u8> = vec![
        2, 0, 0, 0, 0, 0, 0, 0, b'a', b'b', 3, 0, 0, 0, 0, 0, 0, 0, b'x', b'y', b'z',
    ];
    assert_eq!(blob, expected);
}

#[test]
fn a_long_value_has_its_length_least_significant_byte_first() {
    let blob = encode_headers(&vec![header("n", &vec![7u8; 258])]);
    assert_eq!(&blob[0..9], &[1, 0, 0, 0, 0, 0, 0, 0, b'n']);
    assert_eq!(&blob[9..17], &[2, 1, 0, 0, 0, 0, 0, 0]);
    assert_eq!(blob.len(), 8 + 1 + 8 + 258);
}

#[test]
fn headers_come_back_in_order_with_repeated_names() {
    let headers = vec![
        header("set-cookie", b"a=1"),
        header("content-type", b"text/html"),
        header("set-cookie", b"b=2"),
        header("x-empty", b""),
        header("", b"nameless"),
        header("x-bytes", &[0, 255, 10, 13]),
        header("ünïcödé", "välue".as_bytes()),
    ];
    let blob = encode_headers(&headers);
    assert_eq!(decode_headers(&blob), Ok(headers));
}

#[test]
fn a_blob_cut_short_is_refused() {
    let blob = encode_headers(&vec![header("ab", b"xyz"), header("cd", b"")]);
    for cut in 1..blob.len() {
        // A blob cut between two headers is a shorter list, not an error.
        let whole_header = cut == 21;
        let result = decode_headers(&blob[..cut].to_vec());
        if whole_header {
            assert_eq!(result, Ok(vec![header("ab", b"xyz")]));
        } else {
            assert_eq!(result, Err(ResponseError::TruncatedHeaders), "cut at {}", cut);
        }
    }
}

#[test]
fn a_length_beyond_the_blob_is_refused() {
    let blob: Vec<u8> = vec![255, 255, 255, 255, 255, 255, 255, 255, b'a'];
    assert_eq!(decode_headers(&blob), Err(ResponseError::TruncatedHeaders));
    let blob: Vec<u8> = vec![2, 0, 0, 0, 0, 0, 0, 0, b'a'];
    assert_eq!(decode_headers(&blob), Err(ResponseError::TruncatedHeaders));
}

#[test]
fn a_name_that_is_not_utf8_is_refused() {
    let blob: Vec<u8> = vec![2, 0, 0, 0, 0, 0, 0, 0, 0xC3, 0x28, 0, 0, 0, 0, 0, 0, 0, 0];
    assert_eq!(decode_headers(&blob), Err(ResponseError::InvalidHeaderName));
    // The name is looked at before the value: a bad name with the value
    // missing is reported as a bad name.
    let blob: Vec<u8> = vec![1, 0, 0, 0, 0, 0, 0, 0, 0xFF];
    assert_eq!(decode_headers(&blob), Err(ResponseError::InvalidHeaderName));
}

#[test]
fn a_snapshot_survives_its_columns() {
    let response = SavedResponse::new(
        200,
        vec![header("content-type", b"application/json")],
        br#"{"status":"ok"}"#.to_vec(),
    )
    .unwrap();
    let stored = encode(&response);
    assert_eq!(stored.status_code, 200);
    assert_eq!(stored.body, br#"{"status":"ok"}"#.to_vec());
    assert_eq!(decode(&stored), Ok(response));
}

#[test]
fn every_status_code_survives_its_column() {
    for code in 100u16..=999 {
        let response = SavedResponse::new(code, Vec::new(), Vec::new()).unwrap();
        let stored = encode(&response);
        assert_eq!(stored.status_code, code as i16);
        assert_eq!(decode(&stored).unwrap().status_code(), code);
    }
}

#[test]
fn a_status_code_out_of_bounds_is_refused() {
    for code in [0u16, 1, 99, 1000, 32767, 65535] {
        assert_eq!(
            SavedResponse::new(code, Vec::new(), Vec::new()),
            Err(ResponseError::InvalidStatusCode)
        );
    }
    for code in [i16::MIN, -200, -1, 0, 99, 1000, i16::MAX] {
        let stored = StoredResponse { status_code: code, headers: Vec::new(), body: Vec::new() };
        assert_eq!(decode(&stored), Err(ResponseError::InvalidStatusCode));
    }
    // The status code is looked at before the headers.
    let stored = StoredResponse { status_code: 99, headers: vec![1], body: Vec::new() };
    assert_eq!(decode(&stored), Err(ResponseError::InvalidStatusCode));
    let stored = StoredResponse { status_code: 100, headers: vec![1], body: Vec::new() };
    assert_eq!(decode(&stored), Err(ResponseError::TruncatedHeaders));
}

#[test]
fn a_copy_of_a_snapshot_is_equal_to_it() {
    let response = SavedResponse::new(
        201,
        vec![header("location", b"/things/1"), header("location", b"/things/2")],
        vec![1, 2, 3],
    )
    .unwrap();
    let copy = response.clone();
    assert_eq!(copy, response);
    assert_eq!(copy.headers().len(), 2);
    assert_eq!(copy.headers()[1], header("location", b"/things/2"));
}

#[test]
fn a_row_without_a_response_reads_as_in_flight() {
    assert_eq!(decode_row(None, None, None), Ok(None));
}

#[test]
fn a_row_with_a_response_reads_as_the_snapshot() {
    let response = SavedResponse::new(204, vec![header("etag", b"\"1\"")], Vec::new()).unwrap();
    let stored = encode(&response);
    assert_eq!(
        decode_row(Some(stored.status_code), Some(stored.headers), Some(stored.body)),
        Ok(Some(response))
    );
    assert_eq!(
        decode_row(Some(99), Some(Vec::new()), Some(Vec::new())),
        Err(ResponseError::InvalidStatusCode)
    );
}

#[test]
fn a_row_with_some_columns_missing_is_refused() {
    let some = || Some(Vec::new());
    assert_eq!(decode_row(Some(200), None, None), Err(ResponseError::IncompleteRow));
    assert_eq!(decode_row(None, some(), None), Err(ResponseError::IncompleteRow));
    assert_eq!(decode_row(None, None, some()), Err(ResponseError::IncompleteRow));
    assert_eq!(decode_row(Some(200), some(), None), Err(ResponseError::IncompleteRow));
    assert_eq!(decode_row(Some(200), None, some()), Err(ResponseError::IncompleteRow));
    assert_eq!(decode_row(None, some(), some()), Err(ResponseError::IncompleteRow));
}

#[test]
fn names_that_only_look_like_utf8_are_refused() {
    // An overlong encoding, a surrogate, a code point beyond the last one,
    // and a sequence cut short.
    let names: [&[u8]; 4] = [&[0xC0, 0x80], &[0xED, 0xA0, 0x80], &[0xF4, 0x90, 0x80, 0x80], &[0xE2, 0x82]];
    for name in names {
        let mut blob = (name.len() as u64).to_le_bytes().to_vec();
        blob.extend_from_slice(name);
        blob.extend_from_slice(&0u64.to_le_bytes());
        assert_eq!(decode_headers(&blob), Err(ResponseError::InvalidHeaderName), "{:?}", name);
    }
}
