use routecore::Body;
use routecore::Error;

fn body_of(chunks: &[&[u8]]) -> Body {
    Body::from_chunks(chunks.iter().map(|c| c.to_vec()).collect())
}

#[test]
fn collect_bytes_concatenates_chunks_without_bound() {
    let body = body_of(&[b"hello", b"world"]);
    let collected = body.collect_bytes(None);
    assert_eq!(collected.unwrap(), b"helloworld".to_vec());
}

#[test]
fn collect_bytes_over_bound_reports_actual_and_limit() {
    let body = body_of(&[b"hello", b"world"]);
    let collected = body.collect_bytes(Some(5));
    assert!(matches!(collected, Err(Error::RequestTooLarge(10, 5))));
}

#[test]
fn collect_bytes_at_exact_bound_succeeds() {
    let body = body_of(&[b"hello", b"world"]);
    let collected = body.collect_bytes(Some(10));
    assert_eq!(collected.unwrap(), b"helloworld".to_vec());
}

#[test]
fn collect_bytes_of_empty_stream_is_empty() {
    let body = body_of(&[]);
    let collected = body.collect_bytes(Some(0));
    assert_eq!(collected.unwrap(), Vec::<u8>::new());
}

#[test]
fn collect_bytes_preserves_chunk_order() {
    let body = body_of(&[b"c", b"a", b"b"]);
    let collected = body.collect_bytes(None);
    assert_eq!(collected.unwrap(), b"cab".to_vec());
}

#[test]
fn collect_str_decodes_valid_utf8() {
    let body = body_of(&[b"hello, ", b"world"]);
    let collected = body.collect_str(None);
    assert_eq!(collected.unwrap(), "hello, world".to_string());
}

#[test]
fn collect_str_rejects_invalid_utf8_with_encoding() {
    let body = body_of(&[&[0xff, 0xfe], b"tail"]);
    let collected = body.collect_str(None);
    assert!(matches!(collected, Err(Error::Encoding)));
}

#[test]
fn collect_bytes_still_succeeds_on_invalid_utf8() {
    let body = body_of(&[&[0xff, 0xfe], b"tail"]);
    let collected = body.collect_bytes(None);
    assert_eq!(collected.unwrap(), vec![0xff, 0xfe, b't', b'a', b'i', b'l']);
}

#[test]
fn collect_str_multibyte_utf8_across_chunks() {
    // A two-byte character split between chunks still decodes, since the
    // chunks are concatenated before validation.
    let euro = "é".as_bytes();
    let body = body_of(&[&euro[..1], &euro[1..]]);
    let collected = body.collect_str(None);
    assert_eq!(collected.unwrap(), "é".to_string());
}

#[test]
fn collect_str_size_bound_beats_encoding() {
    let body = body_of(&[&[0xff, 0xfe, 0xfd]]);
    let collected = body.collect_str(Some(2));
    assert!(matches!(collected, Err(Error::RequestTooLarge(3, 2))));
}

#[test]
fn faulted_body_surfaces_transport_fault() {
    let body = Body::from_fault("connection reset".to_string());
    let collected = body.collect_bytes(None);
    match collected {
        Err(Error::TransportFault(message)) => assert_eq!(message, "connection reset"),
        _ => panic!("expected a transport fault"),
    }
}

#[test]
fn faulted_body_fails_text_collection_too() {
    let body = Body::from_fault("broken pipe".to_string());
    let collected = body.collect_str(Some(100));
    assert!(matches!(collected, Err(Error::TransportFault(_))));
}

#[test]
fn error_accessors_report_their_variants() {
    assert!(Error::TransportFault("x".to_string()).is_transport_fault());
    assert!(!Error::Encoding.is_transport_fault());
    assert!(Error::Encoding.is_encoding());
    assert_eq!(Error::RequestTooLarge(10, 5).too_large_sizes(), Some((10, 5)));
    assert_eq!(Error::Encoding.too_large_sizes(), None);
}
