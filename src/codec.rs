//! Compaction codec for the PNG streams that the pipeline's fixed encoder
//! writes: signature, one `IHDR`, one `IDAT`, `IEND`. The stored payload keeps
//! only the 13 header bytes and the compressed image data; lengths, tags,
//! checksums and the constant framing are rebuilt on the way back.
use vstd::prelude::*;

verus! {

/// CRC-32 (IEEE) of a byte sequence, as `crc32fast::hash` computes it.
pub uninterp spec fn crc32_of(b: Seq<u8>) -> u32;

/// Relies on `crc32fast::hash`: the CRC-32 checksum of the bytes, which
/// depends on the bytes alone.
#[verifier::external_body]
fn crc32(b: &Vec<u8>) -> (r: u32)
    ensures
        r == crc32_of(b@),
{
    crc32fast::hash(b.as_slice())
}

pub open spec fn png_signature() -> Seq<u8> {
    seq![137u8, 80u8, 78u8, 71u8, 13u8, 10u8, 26u8, 10u8]
}

pub open spec fn ihdr_tag() -> Seq<u8> {
    seq![73u8, 72u8, 68u8, 82u8]
}

pub open spec fn idat_tag() -> Seq<u8> {
    seq![73u8, 68u8, 65u8, 84u8]
}

/// The whole `IEND` chunk: zero length, tag, and the tag's checksum.
pub open spec fn iend_chunk() -> Seq<u8> {
    seq![0u8, 0u8, 0u8, 0u8, 73u8, 69u8, 78u8, 68u8, 174u8, 66u8, 96u8, 130u8]
}

/// Big-endian bytes of a 32-bit value.
pub open spec fn be32(v: u32) -> Seq<u8> {
    seq![(v >> 24u32) as u8, (v >> 16u32) as u8, (v >> 8u32) as u8, v as u8]
}

/// One PNG chunk: length, tag, data, checksum of tag and data.
pub open spec fn chunk(tag: Seq<u8>, data: Seq<u8>) -> Seq<u8> {
    be32(data.len() as u32) + tag + data + be32(crc32_of(tag + data))
}

/// The stream that the fixed encoder writes for the given header fields and
/// compressed image data.
pub open spec fn png_stream(header: Seq<u8>, data: Seq<u8>) -> Seq<u8> {
    png_signature() + chunk(ihdr_tag(), header) + chunk(idat_tag(), data) + iend_chunk()
}

/// Header fields of the encoder's one configuration: non-zero width and
/// height, 8 bits per sample, truecolour with or without alpha, no
/// interlacing.
pub open spec fn header_ok(h: Seq<u8>) -> bool {
    &&& h.len() == 13
    &&& (h[0] != 0 || h[1] != 0 || h[2] != 0 || h[3] != 0)
    &&& (h[4] != 0 || h[5] != 0 || h[6] != 0 || h[7] != 0)
    &&& h[8] == 8
    &&& (h[9] == 2 || h[9] == 6)
    &&& h[10] == 0
    &&& h[11] == 0
    &&& h[12] == 0
}

/// Length of the framing around the image data in a stream.
pub open spec fn framing_len() -> int {
    57
}

pub open spec fn stream_header(x: Seq<u8>) -> Seq<u8> {
    x.subrange(16, 29)
}

pub open spec fn stream_data(x: Seq<u8>) -> Seq<u8> {
    x.subrange(41, x.len() - 16)
}

/// A stream in the encoder's fixed shape: the only streams the codec takes.
pub open spec fn stream_ok(x: Seq<u8>) -> bool {
    &&& x.len() > framing_len()
    &&& x.len() - framing_len() <= u32::MAX
    &&& header_ok(stream_header(x))
    &&& x == png_stream(stream_header(x), stream_data(x))
}

/// What the codec stores for a stream: the header fields, then the image data.
pub open spec fn compacted(x: Seq<u8>) -> Seq<u8> {
    stream_header(x) + stream_data(x)
}

/// A payload from which a well-formed stream can be rebuilt.
pub open spec fn payload_ok(p: Seq<u8>) -> bool {
    &&& p.len() > 13
    &&& p.len() - 13 <= u32::MAX
    &&& header_ok(p.subrange(0, 13))
}

/// The stream rebuilt from a payload.
pub open spec fn expanded(p: Seq<u8>) -> Seq<u8> {
    png_stream(p.subrange(0, 13), p.subrange(13, p.len() as int))
}

/// A stored payload from which no well-formed stream can be rebuilt.
#[derive(Debug, Clone, Copy, PartialEq, Eq)]
pub enum CodecError {
    Corrupted,
}

fn push_bytes(out: &mut Vec<u8>, src: &Vec<u8>)
    ensures
        final(out)@ == old(out)@ + src@,
{
    let mut i: usize = 0;
    while i < src.len()
        invariant
            i <= src@.len(),
            out@ == old(out)@ + src@.subrange(0, i as int),
        decreases src@.len() - i,
    {
        out.push(src[i]);
        i = i + 1;
        assert(src@.subrange(0, i as int) =~= src@.subrange(0, i - 1) + seq![src@[i - 1]]);
    }
    assert(src@.subrange(0, src@.len() as int) =~= src@);
}

fn push_be32(out: &mut Vec<u8>, v: u32)
    ensures
        final(out)@ == old(out)@ + be32(v),
{
    out.push((v >> 24u32) as u8);
    out.push((v >> 16u32) as u8);
    out.push((v >> 8u32) as u8);
    out.push(v as u8);
    assert(final(out)@ =~= old(out)@ + be32(v));
}

fn slice_of(x: &Vec<u8>, lo: usize, hi: usize) -> (r: Vec<u8>)
    requires
        lo <= hi <= x@.len(),
    ensures
        r@ == x@.subrange(lo as int, hi as int),
{
    let mut r: Vec<u8> = Vec::new();
    let mut i: usize = lo;
    while i < hi
        invariant
            lo <= i <= hi <= x@.len(),
            r@ == x@.subrange(lo as int, i as int),
        decreases hi - i,
    {
        r.push(x[i]);
        i = i + 1;
        assert(r@ =~= x@.subrange(lo as int, i as int));
    }
    r
}

fn tag_vec(ihdr: bool) -> (r: Vec<u8>)
    ensures
        r@ == (if ihdr { ihdr_tag() } else { idat_tag() }),
{
    let r: Vec<u8> = if ihdr {
        vec![73u8, 72u8, 68u8, 82u8]
    } else {
        vec![73u8, 68u8, 65u8, 84u8]
    };
    assert(r@ =~= (if ihdr { ihdr_tag() } else { idat_tag() }));
    r
}

fn push_chunk(out: &mut Vec<u8>, ihdr: bool, data: &Vec<u8>)
    requires
        data@.len() <= u32::MAX,
    ensures
        final(out)@ == old(out)@ + chunk(if ihdr { ihdr_tag() } else { idat_tag() }, data@),
{
    let tag = tag_vec(ihdr);
    let mut covered = tag.clone();
    push_bytes(&mut covered, data);
    let sum = crc32(&covered);
    push_be32(out, data.len() as u32);
    push_bytes(out, &tag);
    push_bytes(out, data);
    push_be32(out, sum);
    let ghost t = if ihdr { ihdr_tag() } else { idat_tag() };
    assert(final(out)@ =~= old(out)@ + chunk(t, data@));
}

/// Writes the stream that the encoder produces for the given header fields
/// and image data.
fn assemble(header: &Vec<u8>, data: &Vec<u8>) -> (r: Vec<u8>)
    requires
        header@.len() == 13,
        data@.len() <= u32::MAX,
    ensures
        r@ == png_stream(header@, data@),
{
    let mut out: Vec<u8> = vec![137u8, 80u8, 78u8, 71u8, 13u8, 10u8, 26u8, 10u8];
    assert(out@ =~= png_signature());
    push_chunk(&mut out, true, header);
    push_chunk(&mut out, false, data);
    let trailer: Vec<u8> = vec![0u8, 0u8, 0u8, 0u8, 73u8, 69u8, 78u8, 68u8, 174u8, 66u8, 96u8, 130u8];
    assert(trailer@ =~= iend_chunk());
    push_bytes(&mut out, &trailer);
    out
}

fn header_fields_ok(h: &Vec<u8>) -> (r: bool)
    requires
        h@.len() == 13,
    ensures
        r == header_ok(h@),
{
    (h[0] != 0 || h[1] != 0 || h[2] != 0 || h[3] != 0)
        && (h[4] != 0 || h[5] != 0 || h[6] != 0 || h[7] != 0)
        && h[8] == 8
        && (h[9] == 2 || h[9] == 6)
        && h[10] == 0
        && h[11] == 0
        && h[12] == 0
}

fn same_bytes(a: &Vec<u8>, b: &Vec<u8>) -> (r: bool)
    ensures
        r == (a@ == b@),
{
    if a.len() != b.len() {
        return false;
    }
    let mut i: usize = 0;
    while i < a.len()
        invariant
            a@.len() == b@.len(),
            i <= a@.len(),
            forall|k: int| 0 <= k < i ==> a@[k] == b@[k],
        decreases a@.len() - i,
    {
        if a[i] != b[i] {
            return false;
        }
        i = i + 1;
    }
    assert(a@ =~= b@);
    true
}

/// Shrinks a stream of the encoder's fixed shape to its header fields and
/// image data; `None` for any other stream.
pub fn compact(x: &Vec<u8>) -> (r: Option<Vec<u8>>)
    ensures
        r.is_some() == stream_ok(x@),
        r.is_some() ==> r.unwrap()@ == compacted(x@),
{
    if x.len() <= 57 || (x.len() - 57) as u64 > 0xffff_ffffu64 {
        return None;
    }
    let header = slice_of(x, 16, 29);
    let data = slice_of(x, 41, x.len() - 16);
    if !header_fields_ok(&header) {
        return None;
    }
    let rebuilt = assemble(&header, &data);
    if !same_bytes(&rebuilt, x) {
        return None;
    }
    let mut out = header;
    push_bytes(&mut out, &data);
    Some(out)
}

/// Rebuilds the full stream from a stored payload, recomputing every length
/// and checksum; a payload without valid header fields or image data is
/// reported as corrupted.
pub fn decompact(p: &Vec<u8>) -> (r: Result<Vec<u8>, CodecError>)
    ensures
        r.is_ok() == payload_ok(p@),
        r.is_ok() ==> r.unwrap()@ == expanded(p@),
        r.is_err() ==> r == Err::<Vec<u8>, CodecError>(CodecError::Corrupted),
{
    if p.len() <= 13 || (p.len() - 13) as u64 > 0xffff_ffffu64 {
        return Err(CodecError::Corrupted);
    }
    let header = slice_of(p, 0, 13);
    if !header_fields_ok(&header) {
        return Err(CodecError::Corrupted);
    }
    let data = slice_of(p, 13, p.len());
    Ok(assemble(&header, &data))
}

proof fn lemma_stream_parts(h: Seq<u8>, d: Seq<u8>)
    requires
        h.len() == 13,
        d.len() <= u32::MAX,
    ensures
        png_stream(h, d).len() == d.len() + framing_len(),
        stream_header(png_stream(h, d)) == h,
        stream_data(png_stream(h, d)) == d,
{
    let x = png_stream(h, d);
    assert(stream_header(x) =~= h);
    assert(stream_data(x) =~= d);
}

/// Every stream of the encoder's shape comes back byte for byte:
/// `decompact(compact(x)) == x`.
pub proof fn lemma_round_trip(x: Seq<u8>)
    requires
        stream_ok(x),
    ensures
        payload_ok(compacted(x)),
        expanded(compacted(x)) == x,
{
    let p = compacted(x);
    assert(p.subrange(0, 13) =~= stream_header(x));
    assert(p.subrange(13, p.len() as int) =~= stream_data(x));
}

/// Every payload that decompacts is what `compact` makes of the rebuilt
/// stream: `compact(decompact(p)) == p`.
pub proof fn lemma_payload_round_trip(p: Seq<u8>)
    requires
        payload_ok(p),
    ensures
        stream_ok(expanded(p)),
        compacted(expanded(p)) == p,
{
    let h = p.subrange(0, 13);
    let d = p.subrange(13, p.len() as int);
    lemma_stream_parts(h, d);
    assert(compacted(expanded(p)) =~= p);
}

} // verus!
