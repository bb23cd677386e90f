use vstd::prelude::*;

use crate::chunk::{be_value, parsed, ChunkView, Pngchunk, PNG_MAGICBYTES};
use crate::error::Error;
use crate::search::{find_sequence, occurs_at};

verus! {

/// The buffer starts with the PNG signature.
pub open spec fn has_signature(b: Seq<u8>) -> bool {
    b.len() >= 8 && b.subrange(0, 8) == PNG_MAGICBYTES@
}

/// `needle` occurs somewhere in `haystack`.
pub open spec fn occurs(haystack: Seq<u8>, needle: Seq<u8>) -> bool {
    exists|i: int| occurs_at(haystack, needle, i)
}

/// `i` is the lowest index at which `needle` occurs in `haystack`.
pub open spec fn is_first(haystack: Seq<u8>, needle: Seq<u8>, i: int) -> bool {
    occurs_at(haystack, needle, i) && forall|j: int| 0 <= j < i ==> !occurs_at(haystack, needle, j)
}

/// The lowest index at which `needle` occurs in `haystack`.
pub open spec fn first_at(haystack: Seq<u8>, needle: Seq<u8>) -> int
    recommends
        occurs(haystack, needle),
{
    choose|i: int| is_first(haystack, needle, i)
}

/// There is one lowest index.
pub proof fn lemma_first_unique(haystack: Seq<u8>, needle: Seq<u8>, i: int)
    requires
        is_first(haystack, needle, i),
    ensures
        occurs(haystack, needle),
        first_at(haystack, needle) == i,
{
    let k = first_at(haystack, needle);
    assert(is_first(haystack, needle, k));
    if k < i {
        assert(!occurs_at(haystack, needle, k));
    } else if i < k {
        assert(!occurs_at(haystack, needle, i));
    }
}

/// Where `needle` occurs at all, `first_at` is its lowest index.
pub proof fn lemma_first_at(haystack: Seq<u8>, needle: Seq<u8>)
    requires
        occurs(haystack, needle),
    ensures
        is_first(haystack, needle, first_at(haystack, needle)),
{
    let k = choose|k: int| occurs_at(haystack, needle, k);
    lemma_first_exists(haystack, needle, k);
}

proof fn lemma_first_exists(haystack: Seq<u8>, needle: Seq<u8>, k: int)
    requires
        occurs_at(haystack, needle, k),
    ensures
        exists|i: int| is_first(haystack, needle, i),
    decreases k,
{
    if exists|j: int| 0 <= j < k && occurs_at(haystack, needle, j) {
        let j = choose|j: int| 0 <= j < k && occurs_at(haystack, needle, j);
        lemma_first_exists(haystack, needle, j);
    } else {
        assert(is_first(haystack, needle, k));
    }
}

/// The chunk whose type first occurs in `b`, with the index its length field
/// starts at; `b` must be a PNG file.
pub open spec fn located_chunk(b: Seq<u8>, tag: Seq<u8>) -> Result<(int, ChunkView), Error> {
    if !has_signature(b) {
        Err(Error::NotPNG)
    } else if !occurs(b, tag) {
        Err(Error::ChunkNotFound)
    } else {
        let i = first_at(b, tag);
        if i < 4 {
            Err(Error::MalformedChunk)
        } else {
            match parsed(b.subrange(i - 4, b.len() as int)) {
                Some(v) => Ok((i - 4, v)),
                None => Err(Error::MalformedChunk),
            }
        }
    }
}

/// Succeeds exactly where `val` starts with the PNG signature; a signature
/// found at any other place is no signature.
pub fn check_png(val: &Vec<u8>) -> (r: Result<(), Error>)
    ensures
        has_signature(val@) ==> r is Ok,
        !has_signature(val@) ==> r == Err::<(), Error>(Error::NotPNG),
{
    let magic = PNG_MAGICBYTES;
    assert(magic@.len() == 8);
    match find_sequence(val.as_slice(), magic.as_slice()) {
        Some(i) => {
            if i == 0 {
                Ok(())
            } else {
                assert(!occurs_at(val@, magic@, 0));
                Err(Error::NotPNG)
            }
        },
        None => {
            assert(!occurs_at(val@, magic@, 0));
            Err(Error::NotPNG)
        },
    }
}

/// Index of the first occurrence of `chunk_header` in `buffer`: where that
/// chunk's type field, not its length field, starts.
pub fn get_chunk_start(buffer: &Vec<u8>, chunk_header: &[u8; 4]) -> (r: Result<usize, Error>)
    ensures
        match r {
            Ok(i) => is_first(buffer@, chunk_header@, i as int),
            Err(e) => e == Error::ChunkNotFound && !occurs(buffer@, chunk_header@),
        },
{
    match find_sequence(buffer.as_slice(), chunk_header.as_slice()) {
        Some(i) => Ok(i),
        None => Err(Error::ChunkNotFound),
    }
}

/// Finds the first chunk of type `tag` in the PNG file `buffer` and reads
/// it, returning it with the index its length field starts at.
pub fn locate_chunk(buffer: &Vec<u8>, tag: &[u8; 4]) -> (r: Result<(usize, Pngchunk), Error>)
    ensures
        match r {
            Ok((start, chunk)) => located_chunk(buffer@, tag@) == Ok::<(int, ChunkView), Error>(
                (start as int, chunk@),
            ) && start + 12 + chunk@.content.len() <= buffer@.len(),
            Err(e) => located_chunk(buffer@, tag@) == Err::<(int, ChunkView), Error>(e),
        },
{
    check_png(buffer)?;
    let at = get_chunk_start(buffer, tag)?;
    proof {
        lemma_first_unique(buffer@, tag@, at as int);
    }
    if at < 4 {
        return Err(Error::MalformedChunk);
    }
    let start = at - 4;
    let rest = vstd::slice::slice_to_vec(
        vstd::slice::slice_subrange(buffer.as_slice(), start, buffer.len()),
    );
    let mut chunk = Pngchunk::new();
    let ghost rest_view = rest@;
    match chunk.load_from_slice(rest) {
        Ok(()) => {
            assert(chunk@.content =~= rest_view.subrange(8, 8 + be_value(rest_view.subrange(0, 4)) as int));
            Ok((start, chunk))
        },
        Err(e) => Err(e),
    }
}

} // verus!
