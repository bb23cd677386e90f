use pnghider::chunk::{PNG_CUSTOMCHUNK, PNG_IEND, PNG_MAGICBYTES};
use pnghider::container::{check_png, get_chunk_start, locate_chunk};
use pnghider::Error;

fn minimal_png() -> Vec<u8> {
    let mut v = PNG_MAGICBYTES.to_vec();
    v.extend_from_slice(&[0, 0, 0, 0, 73, 69, 78, 68, 174, 66, 96, 130]);
    v
}

#[test]
fn check_png_accepts_signature_at_start() {
    assert_eq!(Ok(()), check_png(&minimal_png()));
    assert_eq!(Ok(()), check_png(&PNG_MAGICBYTES.to_vec()));
}

#[test]
fn check_png_rejects_signature_elsewhere() {
    let mut v = vec![1, 2, 3, 4, 5];
    v.extend_from_slice(&PNG_MAGICBYTES);
    assert_eq!(Err(Error::NotPNG), check_png(&v));
}

#[test]
fn check_png_rejects_missing_signature() {
    assert_eq!(Err(Error::NotPNG), check_png(&Vec::new()));
    assert_eq!(Err(Error::NotPNG), check_png(&vec![137, 80, 78, 71, 13, 10, 26]));
}

#[test]
fn get_chunk_start_finds_type_field() {
    assert_eq!(Ok(12), get_chunk_start(&minimal_png(), &PNG_IEND));
}

#[test]
fn get_chunk_start_reports_missing_chunk() {
    assert_eq!(
        Err(Error::ChunkNotFound),
        get_chunk_start(&minimal_png(), &PNG_CUSTOMCHUNK)
    );
}

#[test]
fn locate_chunk_reads_end_chunk() {
    let (start, chunk) = locate_chunk(&minimal_png(), &PNG_IEND).unwrap();
    assert_eq!(8, start);
    assert_eq!(0, chunk.chunk_len());
    assert_eq!(12, chunk.len());
}

#[test]
fn locate_chunk_rejects_chunk_past_end() {
    let mut w = PNG_MAGICBYTES.to_vec();
    w.extend_from_slice(&[0, 0, 0, 9, 73, 69, 78, 68, 1, 2]);
    assert_eq!(Err(Error::MalformedChunk), locate_chunk(&w, &PNG_IEND).map(|_| ()));
}
