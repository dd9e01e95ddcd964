use shuttle_runtime::wire::{decode_response, encode_request, RequestMeta, WireError};

#[test]
fn request_metadata_encoding() {
    let meta = RequestMeta {
        method: "GET".to_string(),
        uri: "/".to_string(),
        version: "HTTP/1.1".to_string(),
        headers: vec![("a".to_string(), vec![1])],
    };
    let mut expected = vec![0x94, 0xa3, b'G', b'E', b'T', 0xa1, b'/', 0xa8];
    expected.extend(b"HTTP/1.1");
    expected.extend([0x91, 0x92, 0xa1, b'a', 0x91, 0x01]);
    assert_eq!(encode_request(&meta), expected);
}

#[test]
fn response_metadata_decoding() {
    let meta = decode_response(&vec![0x92, 0xcc, 0xc8, 0x91, 0x92, 0xa1, b'x', 0x91, 0x07]).unwrap();
    assert_eq!(meta.status, 200);
    assert_eq!(meta.headers, vec![("x".to_string(), vec![7])]);
}

#[test]
fn malformed_response_metadata() {
    assert_eq!(decode_response(&vec![0xc1]).err(), Some(WireError::Decode));
    assert_eq!(decode_response(&Vec::new()).err(), Some(WireError::Decode));
}
