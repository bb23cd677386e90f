use vstd::prelude::*;

use crate::bytes::push_all;
use crate::chunk::{
    built, content_fits, lemma_parse_built_prefix, parsed, serialized, Pngchunk, PNG_CUSTOMCHUNK,
    PNG_IEND,
};
use crate::container::{
    has_signature, is_first, lemma_first_at, lemma_first_unique, located_chunk, locate_chunk,
};
use crate::envelope::{
    bytes_outcome, open_envelope, open_outcome, random_bytes, seal_envelope,
    seal_outcome,
};
use crate::error::Error;

verus! {

/// An empty IEND chunk as PNG writes it, its checksum taken over the type
/// alone: the end of every file this library writes.
pub const PNG_IEND_CHUNK: [u8; 12] = [0, 0, 0, 0, 73, 69, 78, 68, 174, 66, 96, 130];

/// Bytes that embedding adds besides the payload: the payload chunk's length,
/// type and checksum (12), nonce and salt (28), authentication tag (16), and
/// the fresh end chunk (12).
pub const EMBED_OVERHEAD: usize = 68;

/// Where the payload chunk goes in the PNG file `b`: right after the chunk
/// at the first occurrence of the IEND type.
pub open spec fn insertion_point_of(b: Seq<u8>) -> Result<int, Error> {
    match located_chunk(b, PNG_IEND@) {
        Ok((start, v)) => Ok(start + 12 + v.content.len()),
        Err(e) => Err(e),
    }
}

/// `b` with the payload chunk that carries `content` inserted at `at`, and a
/// fresh end chunk appended.
pub open spec fn spliced(b: Seq<u8>, at: int, content: Seq<u8>) -> Seq<u8> {
    b.subrange(0, at) + serialized(built(PNG_CUSTOMCHUNK@, content)) + b.subrange(at, b.len() as int)
        + PNG_IEND_CHUNK@
}

proof fn lemma_spliced_len(b: Seq<u8>, at: int, content: Seq<u8>)
    requires
        0 <= at <= b.len(),
        content_fits(content.len()),
    ensures
        spliced(b, at, content).len() == b.len() + content.len() + 24,
{
}

/// What inserting `content` at `at` gives, failures included.
pub open spec fn insert_outcome(b: Seq<u8>, at: int, content: Seq<u8>) -> Result<Seq<u8>, Error> {
    if content_fits(content.len()) {
        Ok(spliced(b, at, content))
    } else {
        Err(Error::ContentTooLarge)
    }
}

/// What hiding `payload` in `carrier` under `password`, `salt` and `nonce`
/// gives, failures included.
pub open spec fn embed_outcome(carrier: Seq<u8>, payload: Seq<u8>, password: Seq<u8>, salt: Seq<u8>, nonce: Seq<u8>) -> Result<Seq<u8>, Error> {
    match insertion_point_of(carrier) {
        Err(e) => Err(e),
        Ok(at) => match seal_outcome(password, salt, nonce, payload) {
            Err(e) => Err(e),
            Ok(envelope) => insert_outcome(carrier, at, envelope),
        },
    }
}

/// The content of the first payload chunk of the PNG file `carrier`.
pub open spec fn envelope_outcome(carrier: Seq<u8>) -> Result<Seq<u8>, Error> {
    match located_chunk(carrier, PNG_CUSTOMCHUNK@) {
        Ok((_, v)) => Ok(v.content),
        Err(e) => Err(e),
    }
}

/// What recovering the payload of `carrier` with `password` gives, failures
/// included.
pub open spec fn extract_outcome(carrier: Seq<u8>, password: Seq<u8>) -> Result<Seq<u8>, Error> {
    match envelope_outcome(carrier) {
        Ok(envelope) => open_outcome(password, envelope),
        Err(e) => Err(e),
    }
}

/// In `out`, made from `carrier`, the private chunk type first occurs where
/// the inserted payload chunk holds it.
pub open spec fn inserted_chunk_first(carrier: Seq<u8>, out: Seq<u8>) -> bool {
    match insertion_point_of(carrier) {
        Ok(at) => is_first(out, PNG_CUSTOMCHUNK@, at + 4),
        Err(_) => false,
    }
}

/// An envelope inserted into a PNG file is found and opened again, provided
/// the private chunk type does not occur in the file before the inserted
/// chunk's type field.
pub proof fn lemma_extract_inserted(
    carrier: Seq<u8>,
    envelope: Seq<u8>,
    password: Seq<u8>,
    payload: Seq<u8>,
)
    requires
        insertion_point_of(carrier) is Ok,
        content_fits(envelope.len()),
        open_outcome(password, envelope) == Ok::<Seq<u8>, Error>(payload),
        inserted_chunk_first(carrier, spliced(carrier, insertion_point_of(carrier)->Ok_0, envelope)),
    ensures
        extract_outcome(spliced(carrier, insertion_point_of(carrier)->Ok_0, envelope), password)
            == Ok::<Seq<u8>, Error>(payload),
{
    let at = insertion_point_of(carrier)->Ok_0;
    let out = spliced(carrier, at, envelope);
    let tag = PNG_CUSTOMCHUNK@;
    let (start, v) = located_chunk(carrier, PNG_IEND@)->Ok_0;
    assert(has_signature(carrier));
    lemma_first_at(carrier, PNG_IEND@);
    assert(at <= carrier.len()) by {
        let rest = carrier.subrange(start, carrier.len() as int);
        assert(parsed(rest) == Some(v));
    }
    assert(out.subrange(0, 8) =~= carrier.subrange(0, 8));
    assert(has_signature(out));
    lemma_first_unique(out, tag, at + 4);
    let ser = serialized(built(tag, envelope));
    let rest = carrier.subrange(at, carrier.len() as int) + PNG_IEND_CHUNK@;
    assert(out.subrange(at, out.len() as int) =~= ser + rest);
    lemma_parse_built_prefix(tag, envelope, rest);
}

/// Index right after the chunk at the first IEND occurrence of the PNG file
/// `carrier`.
pub fn insertion_point(carrier: &Vec<u8>) -> (r: Result<usize, Error>)
    ensures
        match r {
            Ok(at) => insertion_point_of(carrier@) == Ok::<int, Error>(at as int) && at
                <= carrier@.len(),
            Err(e) => insertion_point_of(carrier@) == Err::<int, Error>(e),
        },
{
    let (start, end_chunk) = locate_chunk(carrier, &PNG_IEND)?;
    let total: usize = carrier.len();
    assert(start + end_chunk@.content.len() + 12 <= total);
    Ok(start + end_chunk.len())
}

/// `carrier` with the payload chunk that carries `content` inserted at `at`,
/// and a fresh end chunk appended.
pub fn insert_chunk(carrier: &Vec<u8>, at: usize, content: Vec<u8>) -> (r: Result<Vec<u8>, Error>)
    requires
        at <= carrier@.len(),
    ensures
        bytes_outcome(r) == insert_outcome(carrier@, at as int, content@),
{
    let mut chunk = Pngchunk::new();
    chunk.create_from_content(PNG_CUSTOMCHUNK, content)?;
    let bytes = chunk.flatten();
    let mut out: Vec<u8> = Vec::new();
    push_all(&mut out, vstd::slice::slice_subrange(carrier.as_slice(), 0, at));
    push_all(&mut out, bytes.as_slice());
    push_all(&mut out, vstd::slice::slice_subrange(carrier.as_slice(), at, carrier.len()));
    let trailer = PNG_IEND_CHUNK;
    push_all(&mut out, trailer.as_slice());
    Ok(out)
}

/// Hides `payload` in the PNG file `carrier`: encrypts it under the key for
/// `password` and `salt` with `nonce`, and inserts the envelope as a payload
/// chunk after the image's end chunk, followed by a fresh end chunk.
pub fn embed_payload_with(
    carrier: &Vec<u8>,
    payload: &[u8],
    password: &[u8],
    salt: &[u8; 16],
    nonce: &[u8; 12],
) -> (r: Result<Vec<u8>, Error>)
    ensures
        bytes_outcome(r) == embed_outcome(carrier@, payload@, password@, salt@, nonce@),
        r matches Ok(out) ==> out@.len() == carrier@.len() + payload@.len() + EMBED_OVERHEAD,
        r matches Ok(out) ==> (inserted_chunk_first(carrier@, out@) ==> extract_outcome(
            out@,
            password@,
        ) == Ok::<Seq<u8>, Error>(payload@)),
{
    let at = insertion_point(carrier)?;
    let envelope = seal_envelope(password, salt, nonce, payload)?;
    let ghost sealed = envelope@;
    let r = insert_chunk(carrier, at, envelope);
    proof {
        if r is Ok {
            assert(r->Ok_0@ == spliced(carrier@, at as int, sealed));
            lemma_spliced_len(carrier@, at as int, sealed);
            if inserted_chunk_first(carrier@, r->Ok_0@) {
                lemma_extract_inserted(carrier@, sealed, password@, payload@);
            }
        }
    }
    r
}

/// Hides `payload` in the PNG file `carrier` under `password`, with a fresh
/// random salt and nonce. Where the random source fails, nothing is written
/// and the error is `IO`.
pub fn embed_payload(carrier: &Vec<u8>, payload: &[u8], password: &[u8]) -> (r: Result<
    Vec<u8>,
    Error,
>)
    ensures
        r == Err::<Vec<u8>, Error>(Error::IO) || exists|salt: Seq<u8>, nonce: Seq<u8>|
            salt.len() == 16 && nonce.len() == 12 && bytes_outcome(r) == embed_outcome(
                carrier@,
                payload@,
                password@,
                salt,
                nonce,
            ),
        r matches Ok(out) ==> out@.len() == carrier@.len() + payload@.len() + EMBED_OVERHEAD,
        r matches Ok(out) ==> (inserted_chunk_first(carrier@, out@) ==> extract_outcome(
            out@,
            password@,
        ) == Ok::<Seq<u8>, Error>(payload@)),
{
    let salt: [u8; 16] = match random_bytes() {
        Some(b) => b,
        None => return Err(Error::IO),
    };
    let nonce: [u8; 12] = match random_bytes() {
        Some(b) => b,
        None => return Err(Error::IO),
    };
    let r = embed_payload_with(carrier, payload, password, &salt, &nonce);
    assert(bytes_outcome(r) == embed_outcome(carrier@, payload@, password@, salt@, nonce@));
    r
}

/// The content of the first payload chunk of the PNG file `carrier`.
pub fn extract_envelope(carrier: &Vec<u8>) -> (r: Result<Vec<u8>, Error>)
    ensures
        bytes_outcome(r) == envelope_outcome(carrier@),
{
    let (_, chunk) = locate_chunk(carrier, &PNG_CUSTOMCHUNK)?;
    Ok(chunk.content().clone())
}

/// Recovers the payload hidden in the PNG file `carrier` with `password`.
pub fn extract_payload(carrier: &Vec<u8>, password: &[u8]) -> (r: Result<Vec<u8>, Error>)
    ensures
        bytes_outcome(r) == extract_outcome(carrier@, password@),
{
    let envelope = extract_envelope(carrier)?;
    open_envelope(password, envelope.as_slice())
}

} // verus!
