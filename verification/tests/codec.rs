use luke_desktop::codec::{decode_stored, encode_for_storage};
use luke_desktop::errors::AttachmentError;

#[test]
fn small_payload_is_stored_verbatim() {
    let payload = b"plain text".to_vec();
    let (stored, compressed) = encode_for_storage(&payload);
    assert!(!compressed);
    assert_eq!(stored, payload);
    assert_eq!(decode_stored(&stored).unwrap(), payload);
}

#[test]
fn large_payload_is_stored_compressed() {
    let payload = vec![9u8; 1024 * 1024 + 1];
    let (stored, compressed) = encode_for_storage(&payload);
    assert!(compressed);
    assert!(stored.len() < payload.len());
    // One complete gzip member: 10-byte header, body, 8-byte footer.
    assert!(stored.len() >= 18);
    assert_eq!(stored[0], 0x1f);
    assert_eq!(stored[1], 0x8b);
    assert_eq!(decode_stored(&stored).unwrap(), payload);
}

#[test]
fn decoding_sniffs_bytes_not_metadata() {
    // The read path is handed bytes alone: compressed content is
    // recognised by its magic prefix whatever any stored flag says.
    let payload = vec![3u8; 2 * 1024 * 1024];
    let (stored, _) = encode_for_storage(&payload);
    assert_eq!(decode_stored(&stored).unwrap(), payload);
    // Content without the prefix comes back as it is.
    let raw = b"no magic here".to_vec();
    assert_eq!(decode_stored(&raw).unwrap(), raw);
}

#[test]
fn corrupt_gzip_content_fails_to_decode() {
    let garbage = vec![0x1f, 0x8b, 0xff, 0x00, 0x01, 0x02];
    assert_eq!(decode_stored(&garbage).unwrap_err(), AttachmentError::DecompressionFailed);
}
