use vstd::prelude::*;
use vstd::slice::{slice_subrange, slice_to_vec};

use crate::bytes::push_all;
use crate::error::Error;

verus! {

/// The eight bytes every PNG file starts with.
pub const PNG_MAGICBYTES: [u8; 8] = [137, 80, 78, 71, 13, 10, 26, 10];

/// Type of the chunk that ends a PNG image.
pub const PNG_IEND: [u8; 4] = [73, 69, 78, 68];

/// Type of the private chunk that carries the payload. It follows no PNG
/// naming convention and is meant for this library alone.
pub const PNG_CUSTOMCHUNK: [u8; 4] = [13, 37, 13, 37];

/// Bytes of a chunk's length field.
pub const CHUNK_LEN_SIZE: usize = 4;

/// Bytes of a chunk's type field.
pub const CHUNK_HEADER_SIZE: usize = 4;

/// Bytes of a chunk's checksum field.
pub const CHUNK_CRC_SIZE: usize = 4;

/// A content of `n` bytes fits a chunk: the 32-bit length field can state
/// it, and the whole chunk's size is a `usize`.
pub open spec fn content_fits(n: nat) -> bool {
    n <= u32::MAX && n + 12 <= usize::MAX
}

/// CRC-32 (ISO-HDLC) of a byte sequence.
pub uninterp spec fn crc32_of(data: Seq<u8>) -> u32;

/// Relies on crc::Crc::<u32>::checksum with the CRC_32_ISO_HDLC algorithm:
/// the checksum depends on the bytes alone.
#[verifier::external_body]
fn crc32(data: &[u8]) -> (r: u32)
    ensures
        r == crc32_of(data@),
{
    crc::Crc::<u32>::new(&crc::CRC_32_ISO_HDLC).checksum(data)
}

/// Value of four bytes read as a big-endian unsigned integer.
pub open spec fn be_value(b: Seq<u8>) -> nat {
    (b[0] as nat) * 0x100_0000 + (b[1] as nat) * 0x1_0000 + (b[2] as nat) * 0x100 + (b[3] as nat)
}

/// The four big-endian bytes of `n`.
pub open spec fn be_bytes(n: u32) -> Seq<u8> {
    seq![(n >> 24u32) as u8, (n >> 16u32) as u8, (n >> 8u32) as u8, n as u8]
}

proof fn lemma_be_value_of_bytes(n: u32)
    ensures
        be_value(be_bytes(n)) == n,
{
    let b0 = (n >> 24u32) as u8;
    let b1 = (n >> 16u32) as u8;
    let b2 = (n >> 8u32) as u8;
    let b3 = n as u8;
    assert(n == (b0 as u32) * 0x100_0000u32 + (b1 as u32) * 0x1_0000u32 + (b2 as u32) * 0x100u32
        + (b3 as u32)) by (bit_vector)
        requires
            b0 == (n >> 24u32) as u8,
            b1 == (n >> 16u32) as u8,
            b2 == (n >> 8u32) as u8,
            b3 == n as u8,
    ;
}

/// A chunk as four byte sequences, in the order they are stored.
pub struct ChunkView {
    pub length: Seq<u8>,
    pub header: Seq<u8>,
    pub content: Seq<u8>,
    pub crc: Seq<u8>,
}

/// The checksum field for the given length field, type and content: the
/// CRC-32 of the three, concatenated, in big-endian order.
pub open spec fn crc_field(length: Seq<u8>, header: Seq<u8>, content: Seq<u8>) -> Seq<u8> {
    be_bytes(crc32_of(length + header + content))
}

/// The chunk of the given type that carries `content`.
pub open spec fn built(header: Seq<u8>, content: Seq<u8>) -> ChunkView {
    let length = be_bytes(content.len() as u32);
    ChunkView { length, header, content, crc: crc_field(length, header, content) }
}

/// The bytes of a chunk: length, type, content, checksum.
pub open spec fn serialized(v: ChunkView) -> Seq<u8> {
    v.length + v.header + v.content + v.crc
}

/// The chunk stored at the start of `bytes`, or `None` where the bytes end
/// before the chunk its length field declares. The checksum is taken as it
/// stands.
pub open spec fn parsed(bytes: Seq<u8>) -> Option<ChunkView> {
    if bytes.len() < 8 {
        None
    } else {
        let n = be_value(bytes.subrange(0, 4)) as int;
        if bytes.len() < 12 + n {
            None
        } else {
            Some(
                ChunkView {
                    length: bytes.subrange(0, 4),
                    header: bytes.subrange(4, 8),
                    content: bytes.subrange(8, 8 + n),
                    crc: bytes.subrange(8 + n, 12 + n),
                },
            )
        }
    }
}

/// The stored checksum is the one the other three fields call for.
pub open spec fn crc_valid(v: ChunkView) -> bool {
    v.crc == crc_field(v.length, v.header, v.content)
}

/// Reading back the bytes of a built chunk gives that chunk again: length,
/// type, content and checksum all survive the trip.
pub proof fn lemma_round_trip(header: Seq<u8>, content: Seq<u8>)
    requires
        header.len() == 4,
        content_fits(content.len()),
    ensures
        parsed(serialized(built(header, content))) == Some(built(header, content)),
{
    lemma_parse_built_prefix(header, content, Seq::empty());
    assert(serialized(built(header, content)) + Seq::empty() =~= serialized(built(header, content)));
}

/// Bytes that follow a built chunk do not change what is read from the start.
pub proof fn lemma_parse_built_prefix(header: Seq<u8>, content: Seq<u8>, rest: Seq<u8>)
    requires
        header.len() == 4,
        content_fits(content.len()),
    ensures
        parsed(serialized(built(header, content)) + rest) == Some(built(header, content)),
{
    let v = built(header, content);
    let b = serialized(v) + rest;
    let n = content.len() as int;
    lemma_be_value_of_bytes(content.len() as u32);
    assert(b.subrange(0, 4) =~= v.length);
    assert(b.subrange(4, 8) =~= v.header);
    assert(b.subrange(8, 8 + n) =~= v.content);
    assert(b.subrange(8 + n, 12 + n) =~= v.crc);
}

/// The checksum of a built chunk is the CRC-32 of its length field, type and
/// content, so a fresh computation over those fields always matches it.
pub proof fn lemma_built_crc_valid(header: Seq<u8>, content: Seq<u8>)
    requires
        header.len() == 4,
        content_fits(content.len()),
    ensures
        crc_valid(built(header, content)),
        built(header, content).crc == be_bytes(
            crc32_of(be_bytes(content.len() as u32) + header + content),
        ),
{
}

/// One chunk of a PNG file.
pub struct Pngchunk {
    length: [u8; 4],
    header: [u8; 4],
    content: Vec<u8>,
    crc: [u8; 4],
}

impl View for Pngchunk {
    type V = ChunkView;

    closed spec fn view(&self) -> ChunkView {
        ChunkView {
            length: self.length@,
            header: self.header@,
            content: self.content@,
            crc: self.crc@,
        }
    }
}

/// The chunk with zero length, zero type and zero checksum.
pub open spec fn empty_chunk() -> ChunkView {
    ChunkView {
        length: seq![0u8, 0u8, 0u8, 0u8],
        header: seq![0u8, 0u8, 0u8, 0u8],
        content: Seq::empty(),
        crc: seq![0u8, 0u8, 0u8, 0u8],
    }
}

impl Default for Pngchunk {
    fn default() -> (r: Self)
        ensures
            r@ == empty_chunk(),
    {
        Pngchunk::new()
    }
}

impl Pngchunk {
    /// The length field states the content's length.
    #[verifier::type_invariant]
    spec fn inv(&self) -> bool {
        &&& self.content@.len() == be_value(self.length@)
        &&& content_fits(self.content@.len())
    }

    pub fn new() -> (r: Self)
        ensures
            r@ == empty_chunk(),
    {
        let r = Pngchunk { length: [0, 0, 0, 0], header: [0, 0, 0, 0], content: Vec::new(), crc: [0, 0, 0, 0] };
        assert(r@.length =~= empty_chunk().length);
        assert(r@.header =~= empty_chunk().header);
        assert(r@.crc =~= empty_chunk().crc);
        assert(r@.content =~= empty_chunk().content);
        r
    }

    /// Checksum field for the given length field, type and content.
    fn calc_crc(length: &[u8; 4], header: &[u8; 4], content: &[u8]) -> (r: [u8; 4])
        ensures
            r@ == crc_field(length@, header@, content@),
    {
        let mut bytes: Vec<u8> = Vec::new();
        push_all(&mut bytes, length.as_slice());
        push_all(&mut bytes, header.as_slice());
        push_all(&mut bytes, content);
        let crc = crc32(bytes.as_slice());
        let r = [(crc >> 24u32) as u8, (crc >> 16u32) as u8, (crc >> 8u32) as u8, crc as u8];
        assert(r@ =~= crc_field(length@, header@, content@));
        r
    }

    /// Content length, as the length field states it.
    fn chunk_length(&self) -> (r: usize)
        ensures
            r == self@.content.len(),
            r == be_value(self@.length),
    {
        proof {
            use_type_invariant(self);
        }
        let b = &self.length;
        (b[0] as usize) * 0x100_0000 + (b[1] as usize) * 0x1_0000 + (b[2] as usize) * 0x100
            + (b[3] as usize)
    }

    /// Makes this the chunk of type `header` that carries `content`, with
    /// length and checksum computed. Content too long for a chunk leaves
    /// it unchanged.
    pub fn create_from_content(&mut self, header: [u8; 4], content: Vec<u8>) -> (r: Result<
        (),
        Error,
    >)
        ensures
            content_fits(content@.len()) ==> r is Ok && final(self)@ == built(header@, content@),
            !content_fits(content@.len()) ==> r == Err::<(), Error>(Error::ContentTooLarge)
                && final(self)@ == old(self)@,
    {
        if content.len() > 0xFFFF_FFFF || content.len() > usize::MAX - 12 {
            return Err(Error::ContentTooLarge);
        }
        let n = content.len() as u32;
        let length = [(n >> 24u32) as u8, (n >> 16u32) as u8, (n >> 8u32) as u8, n as u8];
        assert(length@ =~= be_bytes(n));
        proof {
            lemma_be_value_of_bytes(n);
        }
        let crc = Pngchunk::calc_crc(&length, &header, content.as_slice());
        *self = Pngchunk { length, header, content, crc };
        assert(self@ == built(header@, content@));
        Ok(())
    }

    /// Reads the chunk stored at the start of `slice`; the checksum is
    /// taken as it stands. Where the slice ends before the chunk does, this
    /// is left unchanged.
    pub fn load_from_slice(&mut self, slice: Vec<u8>) -> (r: Result<(), Error>)
        ensures
            match parsed(slice@) {
                Some(v) => r is Ok && final(self)@ == v,
                None => r == Err::<(), Error>(Error::MalformedChunk) && final(self)@ == old(self)@,
            },
    {
        if slice.len() < 8 {
            return Err(Error::MalformedChunk);
        }
        let length: [u8; 4] = [slice[0], slice[1], slice[2], slice[3]];
        let n: usize = (length[0] as usize) * 0x100_0000 + (length[1] as usize) * 0x1_0000 + (
        length[2] as usize) * 0x100 + (length[3] as usize);
        assert(length@ =~= slice@.subrange(0, 4));
        if slice.len() - 8 < 4 || slice.len() - 12 < n {
            return Err(Error::MalformedChunk);
        }
        let header: [u8; 4] = [slice[4], slice[5], slice[6], slice[7]];
        let content = slice_to_vec(slice_subrange(slice.as_slice(), 8, 8 + n));
        let crc: [u8; 4] = [slice[8 + n], slice[9 + n], slice[10 + n], slice[11 + n]];
        *self = Pngchunk { length, header, content, crc };
        assert(self@.header =~= slice@.subrange(4, 8));
        assert(self@.content =~= slice@.subrange(8, 8 + n));
        assert(self@.crc =~= slice@.subrange(8 + n, 12 + n));
        Ok(())
    }

    /// Content length, as the length field states it.
    pub fn chunk_len(&self) -> (r: usize)
        ensures
            r == self@.content.len(),
            r == be_value(self@.length),
    {
        self.chunk_length()
    }

    pub fn content(&self) -> (r: &Vec<u8>)
        ensures
            r@ == self@.content,
    {
        &self.content
    }

    /// Size of the whole chunk in bytes.
    pub fn len(&self) -> (r: usize)
        ensures
            r == serialized(self@).len(),
            r == self@.content.len() + 12,
    {
        proof {
            use_type_invariant(self);
        }
        CHUNK_LEN_SIZE + CHUNK_HEADER_SIZE + self.chunk_length() + CHUNK_CRC_SIZE
    }

    /// The chunk's bytes: length, type, content, checksum.
    pub fn flatten(&mut self) -> (r: Vec<u8>)
        ensures
            r@ == serialized(old(self)@),
            final(self)@ == old(self)@,
    {
        let mut bytes: Vec<u8> = Vec::new();
        push_all(&mut bytes, self.length.as_slice());
        push_all(&mut bytes, self.header.as_slice());
        push_all(&mut bytes, self.content.as_slice());
        push_all(&mut bytes, self.crc.as_slice());
        bytes
    }

    /// Whether the stored checksum is the one the other fields call for.
    pub fn crc_matches(&self) -> (r: bool)
        ensures
            r == crc_valid(self@),
    {
        let expected = Pngchunk::calc_crc(&self.length, &self.header, self.content.as_slice());
        let ok = expected[0] == self.crc[0] && expected[1] == self.crc[1] && expected[2]
            == self.crc[2] && expected[3] == self.crc[3];
        if ok {
            assert(expected@ =~= self.crc@);
        } else {
            assert(expected@ != self.crc@);
        }
        ok
    }
}

} // verus!
