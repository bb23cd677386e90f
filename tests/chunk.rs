use pnghider::chunk::{Pngchunk, PNG_CUSTOMCHUNK, PNG_IEND};
use pnghider::Error;

#[test]
fn creates_png_chunk_content() {
    let mut testchunk: Pngchunk = Default::default();
    let content = "test";
    testchunk
        .create_from_content(PNG_CUSTOMCHUNK, content.as_bytes().to_vec())
        .unwrap();
    assert_eq!(&"test".as_bytes().to_vec(), testchunk.content())
}

#[test]
fn creates_png_chunk_length() {
    let mut testchunk: Pngchunk = Default::default();
    let content = "test";
    testchunk
        .create_from_content(PNG_CUSTOMCHUNK, content.as_bytes().to_vec())
        .unwrap();
    assert_eq!(16, testchunk.len())
}

#[test]
fn creates_png_chunk_flatten() {
    let mut testchunk: Pngchunk = Default::default();
    let content = "test";
    testchunk
        .create_from_content(PNG_CUSTOMCHUNK, content.as_bytes().to_vec())
        .unwrap();
    assert_eq!(
        [0, 0, 0, 4, 13, 37, 13, 37, 116, 101, 115, 116, 108, 61, 134, 51].to_vec(),
        testchunk.flatten()
    )
}

#[test]
fn new_chunk_is_empty() {
    let mut c = Pngchunk::new();
    assert_eq!(0, c.chunk_len());
    assert_eq!(12, c.len());
    assert!(c.content().is_empty());
    assert_eq!(vec![0u8; 12], c.flatten());
}

#[test]
fn checksum_covers_length_field() {
    // the checksum runs over length, type and content, so it differs from
    // the one a PNG end chunk carries, which leaves the length out
    let mut c = Pngchunk::new();
    c.create_from_content(PNG_IEND, Vec::new()).unwrap();
    assert_eq!(vec![0, 0, 0, 0, 73, 69, 78, 68, 234, 36, 96, 247], c.flatten());
    assert!(c.crc_matches());
}

#[test]
fn length_field_is_big_endian() {
    let mut c = Pngchunk::new();
    c.create_from_content(PNG_CUSTOMCHUNK, vec![7u8; 300]).unwrap();
    let bytes = c.flatten();
    assert_eq!(&bytes[0..4], &[0, 0, 1, 44]);
    assert_eq!(300, c.chunk_len());
    assert_eq!(312, c.len());
    assert_eq!(312, bytes.len());
}

#[test]
fn load_reads_back_built_chunk() {
    let mut c = Pngchunk::new();
    c.create_from_content(PNG_CUSTOMCHUNK, b"hello chunk".to_vec()).unwrap();
    let bytes = c.flatten();
    let mut d = Pngchunk::new();
    d.load_from_slice(bytes.clone()).unwrap();
    assert_eq!(c.content(), d.content());
    assert_eq!(c.chunk_len(), d.chunk_len());
    assert_eq!(bytes, d.flatten());
    assert!(d.crc_matches());
}

#[test]
fn load_ignores_trailing_bytes() {
    let mut c = Pngchunk::new();
    c.create_from_content(PNG_CUSTOMCHUNK, b"abc".to_vec()).unwrap();
    let mut bytes = c.flatten();
    let expected = bytes.clone();
    bytes.extend_from_slice(&[1, 2, 3, 4, 5]);
    let mut d = Pngchunk::new();
    d.load_from_slice(bytes).unwrap();
    assert_eq!(expected, d.flatten());
}

#[test]
fn load_rejects_short_buffer() {
    let mut d = Pngchunk::new();
    assert_eq!(Err(Error::MalformedChunk), d.load_from_slice(vec![0, 0, 0]));
    // declares 4 content bytes, but holds only 2 and no checksum
    assert_eq!(
        Err(Error::MalformedChunk),
        d.load_from_slice(vec![0, 0, 0, 4, 13, 37, 13, 37, 1, 2])
    );
    assert_eq!(0, d.chunk_len());
    assert_eq!(vec![0u8; 12], d.flatten());
}

#[test]
fn corrupted_content_fails_checksum() {
    let mut c = Pngchunk::new();
    c.create_from_content(PNG_CUSTOMCHUNK, b"test".to_vec()).unwrap();
    let mut bytes = c.flatten();
    bytes[9] ^= 0x01;
    let mut d = Pngchunk::new();
    d.load_from_slice(bytes).unwrap();
    assert!(!d.crc_matches());
}
