//! The binary persistence codec for documents.
//!
//! A document serializes to a flat byte layout: the 128-bit identifier,
//! the two timestamps, the length-prefixed UTF-8 title, the block count,
//! and then each block (identifier, timestamps, length-prefixed kind tag
//! and content) in display order. Integers are little-endian; lengths
//! and counts are 64-bit. Decoding consumes the whole buffer or fails.
//!
//! The layout is pinned by the spec-level `enc_*` functions, decoding by
//! the `dec_*` functions, and [`lemma_codec_round_trip`] proves that
//! decoding an encoded document yields the document back.

use vstd::prelude::*;

use vstd::bytes::*;
use vstd::utf8::*;

use crate::document::{blocks_view, Document, DocumentView, StoredBlock, StoredBlockView};

verus! {

/// The length-prefixed encoding of a string: the byte length of its
/// UTF-8 form, then the UTF-8 bytes.
pub open spec fn enc_str(s: Seq<char>) -> Seq<u8> {
    spec_u64_to_le_bytes(encode_utf8(s).len() as u64) + encode_utf8(s)
}

/// Whether a string's UTF-8 form fits the 64-bit length prefix.
pub open spec fn str_enc_ok(s: Seq<char>) -> bool {
    encode_utf8(s).len() <= u64::MAX
}

/// The encoding of one stored block.
pub open spec fn enc_block(b: StoredBlockView) -> Seq<u8> {
    spec_u128_to_le_bytes(b.id) + spec_u64_to_le_bytes(b.created_at) + spec_u64_to_le_bytes(
        b.updated_at,
    ) + enc_str(b.kind) + enc_str(b.content)
}

/// Whether a block's strings fit their length prefixes.
pub open spec fn block_enc_ok(b: StoredBlockView) -> bool {
    str_enc_ok(b.kind) && str_enc_ok(b.content)
}

/// The concatenated encodings of a sequence of blocks.
pub open spec fn enc_blocks(bs: Seq<StoredBlockView>) -> Seq<u8>
    decreases bs.len(),
{
    if bs.len() == 0 {
        Seq::<u8>::empty()
    } else {
        enc_block(bs[0]) + enc_blocks(bs.drop_first())
    }
}

/// The encoding of a whole document.
pub open spec fn enc_doc(d: DocumentView) -> Seq<u8> {
    spec_u128_to_le_bytes(d.id) + spec_u64_to_le_bytes(d.created_at) + spec_u64_to_le_bytes(
        d.updated_at,
    ) + enc_str(d.title) + spec_u64_to_le_bytes(d.blocks.len() as u64) + enc_blocks(d.blocks)
}

/// Whether a document fits the layout's 64-bit prefixes.
pub open spec fn doc_enc_ok(d: DocumentView) -> bool {
    &&& str_enc_ok(d.title)
    &&& d.blocks.len() <= u64::MAX
    &&& forall|i: int| 0 <= i < d.blocks.len() ==> block_enc_ok(#[trigger] d.blocks[i])
}

/// Reads a 64-bit little-endian integer at `pos`.
pub open spec fn dec_u64_at(b: Seq<u8>, pos: int) -> Option<(u64, int)> {
    if 0 <= pos && pos + 8 <= b.len() {
        Some((spec_u64_from_le_bytes(b.subrange(pos, pos + 8)), pos + 8))
    } else {
        None
    }
}

/// Reads a 128-bit little-endian integer at `pos`.
pub open spec fn dec_u128_at(b: Seq<u8>, pos: int) -> Option<(u128, int)> {
    if 0 <= pos && pos + 16 <= b.len() {
        Some((spec_u128_from_le_bytes(b.subrange(pos, pos + 16)), pos + 16))
    } else {
        None
    }
}

/// Reads a length-prefixed UTF-8 string at `pos`.
pub open spec fn dec_str_at(b: Seq<u8>, pos: int) -> Option<(Seq<char>, int)> {
    match dec_u64_at(b, pos) {
        Some((n, p)) => {
            if p + n <= b.len() && valid_utf8(b.subrange(p, p + n)) {
                Some((decode_utf8(b.subrange(p, p + n)), p + n))
            } else {
                None
            }
        },
        None => None,
    }
}

/// Reads one stored block at `pos`.
pub open spec fn dec_block_at(b: Seq<u8>, pos: int) -> Option<(StoredBlockView, int)> {
    match dec_u128_at(b, pos) {
        Some((id, p1)) => match dec_u64_at(b, p1) {
            Some((created_at, p2)) => match dec_u64_at(b, p2) {
                Some((updated_at, p3)) => match dec_str_at(b, p3) {
                    Some((kind, p4)) => match dec_str_at(b, p4) {
                        Some((content, p5)) => Some(
                            (StoredBlockView { id, kind, content, created_at, updated_at }, p5),
                        ),
                        None => None,
                    },
                    None => None,
                },
                None => None,
            },
            None => None,
        },
        None => None,
    }
}

/// Reads `count` stored blocks in order starting at `pos`.
pub open spec fn dec_blocks_at(b: Seq<u8>, pos: int, count: nat) -> Option<
    (Seq<StoredBlockView>, int),
>
    decreases count,
{
    if count == 0 {
        Some((Seq::<StoredBlockView>::empty(), pos))
    } else {
        match dec_block_at(b, pos) {
            Some((blk, p)) => match dec_blocks_at(b, p, (count - 1) as nat) {
                Some((rest, e)) => Some((seq![blk] + rest, e)),
                None => None,
            },
            None => None,
        }
    }
}

/// Decodes a whole document; the buffer must be consumed exactly.
pub open spec fn dec_doc(b: Seq<u8>) -> Option<DocumentView> {
    match dec_u128_at(b, 0) {
        Some((id, p1)) => match dec_u64_at(b, p1) {
            Some((created_at, p2)) => match dec_u64_at(b, p2) {
                Some((updated_at, p3)) => match dec_str_at(b, p3) {
                    Some((title, p4)) => match dec_u64_at(b, p4) {
                        Some((n, p5)) => match dec_blocks_at(b, p5, n as nat) {
                            Some((blocks, e)) => {
                                if e == b.len() {
                                    Some(DocumentView { id, title, blocks, created_at, updated_at })
                                } else {
                                    None
                                }
                            },
                            None => None,
                        },
                        None => None,
                    },
                    None => None,
                },
                None => None,
            },
            None => None,
        },
        None => None,
    }
}

/// Relies on `core::str::from_utf8`: it succeeds exactly on valid UTF-8
/// and decodes it, so the returned string's UTF-8 form is the input.
#[verifier::external_body]
fn bytes_to_string(v: &[u8]) -> (r: Option<String>)
    ensures
        (r is Some) == valid_utf8(v@),
        r matches Some(s) ==> encode_utf8(s@) == v@,
{
    match core::str::from_utf8(v) {
        Ok(s) => Some(s.to_string()),
        Err(_) => None,
    }
}

/// Appends the length-prefixed encoding of a string.
fn append_string(out: &mut Vec<u8>, s: &String)
    ensures
        final(out)@ == old(out)@ + enc_str(s@),
{
    let bytes: &[u8] = s.as_str().as_bytes();
    let mut prefix = u64_to_le_bytes(bytes.len() as u64);
    out.append(&mut prefix);
    out.extend_from_slice(bytes);
}

/// Appends the encoding of one stored block.
fn append_block(out: &mut Vec<u8>, b: &StoredBlock)
    ensures
        final(out)@ == old(out)@ + enc_block(b@),
{
    let mut idb = u128_to_le_bytes(b.id);
    out.append(&mut idb);
    let mut cb = u64_to_le_bytes(b.created_at);
    out.append(&mut cb);
    let mut ub = u64_to_le_bytes(b.updated_at);
    out.append(&mut ub);
    append_string(out, &b.kind);
    append_string(out, &b.content);
}

/// Concatenating one more block's encoding extends the encoding of the
/// sequence.
proof fn lemma_enc_blocks_push(bs: Seq<StoredBlockView>, b: StoredBlockView)
    ensures
        enc_blocks(bs.push(b)) == enc_blocks(bs) + enc_block(b),
    decreases bs.len(),
{
    if bs.len() == 0 {
        assert(bs.push(b)[0] == b);
        assert(bs.push(b).drop_first() =~= Seq::<StoredBlockView>::empty());
        assert(enc_blocks(Seq::<StoredBlockView>::empty()) == Seq::<u8>::empty());
        assert(enc_blocks(bs.push(b)) == enc_block(b) + Seq::<u8>::empty());
        assert(enc_block(b) + Seq::<u8>::empty() =~= enc_block(b));
        assert(bs =~= Seq::<StoredBlockView>::empty());
        assert(enc_blocks(bs) + enc_block(b) =~= enc_block(b));
    } else {
        assert(bs.push(b).drop_first() =~= bs.drop_first().push(b));
        lemma_enc_blocks_push(bs.drop_first(), b);
        assert(enc_blocks(bs.push(b)) == enc_block(bs[0]) + (enc_blocks(bs.drop_first())
            + enc_block(b)));
        assert(enc_block(bs[0]) + (enc_blocks(bs.drop_first()) + enc_block(b)) =~= (enc_block(
            bs[0],
        ) + enc_blocks(bs.drop_first())) + enc_block(b));
    }
}

/// Serializes a document into the flat byte layout.
pub fn encode_document(doc: &Document) -> (r: Vec<u8>)
    ensures
        r@ == enc_doc(doc@),
{
    let mut out: Vec<u8> = Vec::new();
    let mut idb = u128_to_le_bytes(doc.id);
    out.append(&mut idb);
    let mut cb = u64_to_le_bytes(doc.created_at);
    out.append(&mut cb);
    let mut ub = u64_to_le_bytes(doc.updated_at);
    out.append(&mut ub);
    append_string(&mut out, &doc.title);
    let mut nb = u64_to_le_bytes(doc.blocks.len() as u64);
    out.append(&mut nb);
    let ghost header = out@;
    let n: usize = doc.blocks.len();
    let mut i: usize = 0;
    while i < n
        invariant
            n == doc.blocks.len(),
            i <= n,
            out@ == header + enc_blocks(doc@.blocks.take(i as int)),
        decreases n - i,
    {
        append_block(&mut out, &doc.blocks[i]);
        proof {
            assert(doc@.blocks.take(i + 1) =~= doc@.blocks.take(i as int).push(
                doc@.blocks[i as int],
            ));
            lemma_enc_blocks_push(doc@.blocks.take(i as int), doc@.blocks[i as int]);
            assert(header + enc_blocks(doc@.blocks.take(i as int)) + enc_block(
                doc@.blocks[i as int],
            ) =~= header + enc_blocks(doc@.blocks.take(i + 1)));
        }
        i = i + 1;
    }
    proof {
        assert(doc@.blocks.take(n as int) =~= doc@.blocks);
        assert(out@ =~= enc_doc(doc@));
    }
    out
}

/// Reads a 64-bit little-endian integer at `pos`.
fn read_u64(bytes: &[u8], pos: usize) -> (r: Option<(u64, usize)>)
    ensures
        (match r {
            Some((v, p)) => dec_u64_at(bytes@, pos as int) == Some((v, p as int)),
            None => dec_u64_at(bytes@, pos as int) is None,
        }),
{
    if pos <= bytes.len() && bytes.len() - pos >= 8 {
        let v = u64_from_le_bytes(&bytes[pos..pos + 8]);
        Some((v, pos + 8))
    } else {
        None
    }
}

/// Reads a 128-bit little-endian integer at `pos`.
fn read_u128(bytes: &[u8], pos: usize) -> (r: Option<(u128, usize)>)
    ensures
        (match r {
            Some((v, p)) => dec_u128_at(bytes@, pos as int) == Some((v, p as int)),
            None => dec_u128_at(bytes@, pos as int) is None,
        }),
{
    if pos <= bytes.len() && bytes.len() - pos >= 16 {
        let v = u128_from_le_bytes(&bytes[pos..pos + 16]);
        Some((v, pos + 16))
    } else {
        None
    }
}

/// Reads a length-prefixed UTF-8 string at `pos`.
fn read_string(bytes: &[u8], pos: usize) -> (r: Option<(String, usize)>)
    ensures
        (match r {
            Some((s, p)) => dec_str_at(bytes@, pos as int) == Some((s@, p as int)),
            None => dec_str_at(bytes@, pos as int) is None,
        }),
{
    match read_u64(bytes, pos) {
        None => None,
        Some((n, p)) => {
            if n <= (bytes.len() - p) as u64 {
                let nn: usize = n as usize;
                match bytes_to_string(&bytes[p..p + nn]) {
                    Some(s) => {
                        proof {
                            encode_utf8_decode_utf8(s@);
                        }
                        Some((s, p + nn))
                    },
                    None => None,
                }
            } else {
                None
            }
        },
    }
}

/// Reads one stored block at `pos`.
fn read_block(bytes: &[u8], pos: usize) -> (r: Option<(StoredBlock, usize)>)
    ensures
        (match r {
            Some((blk, p)) => dec_block_at(bytes@, pos as int) == Some((blk@, p as int)),
            None => dec_block_at(bytes@, pos as int) is None,
        }),
{
    match read_u128(bytes, pos) {
        None => None,
        Some((id, p1)) => match read_u64(bytes, p1) {
            None => None,
            Some((created_at, p2)) => match read_u64(bytes, p2) {
                None => None,
                Some((updated_at, p3)) => match read_string(bytes, p3) {
                    None => None,
                    Some((kind, p4)) => match read_string(bytes, p4) {
                        None => None,
                        Some((content, p5)) => Some(
                            (StoredBlock { id, kind, content, created_at, updated_at }, p5),
                        ),
                    },
                },
            },
        },
    }
}

/// Reads `count` stored blocks in order starting at `pos`.
fn read_blocks(bytes: &[u8], pos: usize, count: u64) -> (r: Option<(Vec<StoredBlock>, usize)>)
    ensures
        (match r {
            Some((v, p)) => dec_blocks_at(bytes@, pos as int, count as nat) == Some(
                (blocks_view(v@), p as int),
            ),
            None => dec_blocks_at(bytes@, pos as int, count as nat) is None,
        }),
    decreases count,
{
    if count == 0 {
        let v: Vec<StoredBlock> = Vec::new();
        proof {
            assert(blocks_view(v@) =~= Seq::<StoredBlockView>::empty());
        }
        Some((v, pos))
    } else {
        match read_block(bytes, pos) {
            None => None,
            Some((blk, p)) => match read_blocks(bytes, p, count - 1) {
                None => None,
                Some((rest, e)) => {
                    let mut v = rest;
                    v.insert(0, blk);
                    proof {
                        assert(blocks_view(v@) =~= seq![blk@] + blocks_view(
                            v@.drop_first(),
                        ));
                        assert(v@.drop_first() =~= v@.subrange(1, v@.len() as int));
                    }
                    Some((v, e))
                },
            },
        }
    }
}

/// A 64-bit value reads back from its own encoding.
proof fn lemma_dec_u64_at(b: Seq<u8>, pos: int, v: u64)
    requires
        0 <= pos,
        pos + 8 <= b.len(),
        b.subrange(pos, pos + 8) == spec_u64_to_le_bytes(v),
    ensures
        dec_u64_at(b, pos) == Some((v, pos + 8)),
{
    lemma_auto_spec_u64_to_from_le_bytes();
}

/// A 128-bit value reads back from its own encoding.
proof fn lemma_dec_u128_at(b: Seq<u8>, pos: int, v: u128)
    requires
        0 <= pos,
        pos + 16 <= b.len(),
        b.subrange(pos, pos + 16) == spec_u128_to_le_bytes(v),
    ensures
        dec_u128_at(b, pos) == Some((v, pos + 16)),
{
    lemma_auto_spec_u128_to_from_le_bytes();
    assert(spec_u128_to_le_bytes(v).len() == 16);
}

/// A segment of a region of `b` that holds `e` equals the matching
/// segment of `e`.
proof fn lemma_subrange_of_region(b: Seq<u8>, pos: int, e: Seq<u8>, lo: int, hi: int)
    requires
        0 <= pos,
        pos + e.len() <= b.len(),
        b.subrange(pos, pos + e.len() as int) == e,
        0 <= lo <= hi <= e.len(),
    ensures
        b.subrange(pos + lo, pos + hi) == e.subrange(lo, hi),
{
    assert forall|j: int| lo <= j < hi implies b[pos + j] == #[trigger] e[j] by {
        assert(b.subrange(pos, pos + e.len() as int)[j] == e[j]);
    }
    assert(b.subrange(pos + lo, pos + hi) =~= e.subrange(lo, hi));
}

/// A string reads back from its own length-prefixed encoding.
proof fn lemma_dec_str_at(b: Seq<u8>, pos: int, s: Seq<char>)
    requires
        str_enc_ok(s),
        0 <= pos,
        pos + enc_str(s).len() <= b.len(),
        b.subrange(pos, pos + enc_str(s).len() as int) == enc_str(s),
    ensures
        dec_str_at(b, pos) == Some((s, pos + enc_str(s).len())),
{
    let u = encode_utf8(s);
    let n = u.len() as int;
    let e = enc_str(s);
    lemma_auto_spec_u64_to_from_le_bytes();
    assert(spec_u64_to_le_bytes(u.len() as u64).len() == 8);
    assert(e.len() == 8 + n);
    assert(e.subrange(0, 8) =~= spec_u64_to_le_bytes(u.len() as u64));
    lemma_subrange_of_region(b, pos, e, 0, 8);
    lemma_dec_u64_at(b, pos, u.len() as u64);
    assert((u.len() as u64) as int == n);
    assert(e.subrange(8, 8 + n) =~= u);
    lemma_subrange_of_region(b, pos, e, 8, 8 + n);
    encode_utf8_valid_utf8(s);
    encode_utf8_decode_utf8(s);
}

/// A stored block reads back from its own encoding.
proof fn lemma_dec_block_at(b: Seq<u8>, pos: int, blk: StoredBlockView)
    requires
        block_enc_ok(blk),
        0 <= pos,
        pos + enc_block(blk).len() <= b.len(),
        b.subrange(pos, pos + enc_block(blk).len() as int) == enc_block(blk),
    ensures
        dec_block_at(b, pos) == Some((blk, pos + enc_block(blk).len())),
{
    let e = enc_block(blk);
    let k = enc_str(blk.kind);
    let c = enc_str(blk.content);
    lemma_auto_spec_u64_to_from_le_bytes();
    lemma_auto_spec_u128_to_from_le_bytes();
    assert(spec_u128_to_le_bytes(blk.id).len() == 16);
    assert(spec_u64_to_le_bytes(blk.created_at).len() == 8);
    assert(spec_u64_to_le_bytes(blk.updated_at).len() == 8);
    assert(e.len() == 32 + k.len() + c.len());
    assert(e.subrange(0, 16) =~= spec_u128_to_le_bytes(blk.id));
    lemma_subrange_of_region(b, pos, e, 0, 16);
    lemma_dec_u128_at(b, pos, blk.id);
    assert(e.subrange(16, 24) =~= spec_u64_to_le_bytes(blk.created_at));
    lemma_subrange_of_region(b, pos, e, 16, 24);
    lemma_dec_u64_at(b, pos + 16, blk.created_at);
    assert(e.subrange(24, 32) =~= spec_u64_to_le_bytes(blk.updated_at));
    lemma_subrange_of_region(b, pos, e, 24, 32);
    lemma_dec_u64_at(b, pos + 24, blk.updated_at);
    assert(e.subrange(32, 32 + k.len() as int) =~= k);
    lemma_subrange_of_region(b, pos, e, 32, 32 + k.len() as int);
    lemma_dec_str_at(b, pos + 32, blk.kind);
    assert(e.subrange(32 + k.len() as int, 32 + k.len() + c.len() as int) =~= c);
    lemma_subrange_of_region(b, pos, e, 32 + k.len() as int, 32 + k.len() + c.len() as int);
    lemma_dec_str_at(b, pos + 32 + k.len() as int, blk.content);
}

/// A sequence of blocks reads back from its concatenated encodings.
proof fn lemma_dec_blocks_at(b: Seq<u8>, pos: int, bs: Seq<StoredBlockView>)
    requires
        forall|i: int| 0 <= i < bs.len() ==> block_enc_ok(#[trigger] bs[i]),
        0 <= pos,
        pos + enc_blocks(bs).len() <= b.len(),
        b.subrange(pos, pos + enc_blocks(bs).len() as int) == enc_blocks(bs),
    ensures
        dec_blocks_at(b, pos, bs.len()) == Some((bs, pos + enc_blocks(bs).len())),
    decreases bs.len(),
{
    if bs.len() == 0 {
        assert(dec_blocks_at(b, pos, 0) == Some((Seq::<StoredBlockView>::empty(), pos)));
        assert(bs =~= Seq::<StoredBlockView>::empty());
    } else {
        let blk = bs[0];
        let rest = bs.drop_first();
        let e = enc_blocks(bs);
        let eb = enc_block(blk);
        let er = enc_blocks(rest);
        assert(e == eb + er);
        assert(e.subrange(0, eb.len() as int) =~= eb);
        lemma_subrange_of_region(b, pos, e, 0, eb.len() as int);
        lemma_dec_block_at(b, pos, blk);
        let p = pos + eb.len() as int;
        assert(e.subrange(eb.len() as int, e.len() as int) =~= er);
        lemma_subrange_of_region(b, pos, e, eb.len() as int, e.len() as int);
        assert(b.subrange(p, p + er.len() as int) == er);
        assert(forall|i: int| 0 <= i < rest.len() ==> block_enc_ok(#[trigger] rest[i]));
        lemma_dec_blocks_at(b, p, rest);
        assert(seq![blk] + rest =~= bs);
        assert((bs.len() - 1) as nat == rest.len());
    }
}

/// Round-trip law: decoding the encoding of any document yields the
/// document back, whenever its strings and block count fit the
/// layout's 64-bit prefixes.
pub proof fn lemma_codec_round_trip(d: DocumentView)
    requires
        doc_enc_ok(d),
    ensures
        dec_doc(enc_doc(d)) == Some(d),
{
    let b = enc_doc(d);
    let t = enc_str(d.title);
    let nb = spec_u64_to_le_bytes(d.blocks.len() as u64);
    let eb = enc_blocks(d.blocks);
    lemma_auto_spec_u64_to_from_le_bytes();
    lemma_auto_spec_u128_to_from_le_bytes();
    assert(spec_u128_to_le_bytes(d.id).len() == 16);
    assert(spec_u64_to_le_bytes(d.created_at).len() == 8);
    assert(spec_u64_to_le_bytes(d.updated_at).len() == 8);
    assert(b.len() == 32 + t.len() + 8 + eb.len());
    assert(b.subrange(0, b.len() as int) =~= b);
    assert(b.subrange(0, 16) =~= spec_u128_to_le_bytes(d.id));
    lemma_dec_u128_at(b, 0, d.id);
    assert(b.subrange(16, 24) =~= spec_u64_to_le_bytes(d.created_at));
    lemma_dec_u64_at(b, 16, d.created_at);
    assert(b.subrange(24, 32) =~= spec_u64_to_le_bytes(d.updated_at));
    lemma_dec_u64_at(b, 24, d.updated_at);
    assert(b.subrange(32, 32 + t.len() as int) =~= t);
    lemma_dec_str_at(b, 32, d.title);
    let p4 = 32 + t.len() as int;
    assert(b.subrange(p4, p4 + 8) =~= nb);
    lemma_dec_u64_at(b, p4, d.blocks.len() as u64);
    let p5 = p4 + 8;
    assert(b.subrange(p5, p5 + eb.len() as int) =~= eb);
    lemma_dec_blocks_at(b, p5, d.blocks);
    assert((d.blocks.len() as u64) as nat == d.blocks.len());
    assert(p5 + eb.len() == b.len());
}

/// Whatever a 64-bit read yields, the consumed bytes are exactly the
/// value's encoding.
proof fn lemma_dec_u64_sound(b: Seq<u8>, pos: int, v: u64, p: int)
    requires
        dec_u64_at(b, pos) == Some((v, p)),
    ensures
        0 <= pos,
        p == pos + 8,
        p <= b.len(),
        b.subrange(pos, p) == spec_u64_to_le_bytes(v),
{
    lemma_auto_spec_u64_to_from_le_bytes();
    assert(b.subrange(pos, pos + 8).len() == 8);
    assert(spec_u64_to_le_bytes(spec_u64_from_le_bytes(b.subrange(pos, pos + 8))) == b.subrange(
        pos,
        pos + 8,
    ));
}

/// Whatever a 128-bit read yields, the consumed bytes are exactly the
/// value's encoding.
proof fn lemma_dec_u128_sound(b: Seq<u8>, pos: int, v: u128, p: int)
    requires
        dec_u128_at(b, pos) == Some((v, p)),
    ensures
        0 <= pos,
        p == pos + 16,
        p <= b.len(),
        b.subrange(pos, p) == spec_u128_to_le_bytes(v),
{
    lemma_auto_spec_u128_to_from_le_bytes();
    assert(b.subrange(pos, pos + 16).len() == 16);
    assert(spec_u128_to_le_bytes(spec_u128_from_le_bytes(b.subrange(pos, pos + 16))) == b.subrange(
        pos,
        pos + 16,
    ));
}

/// Whatever a string read yields, the consumed bytes are exactly the
/// string's length-prefixed encoding.
proof fn lemma_dec_str_sound(b: Seq<u8>, pos: int, s: Seq<char>, p: int)
    requires
        dec_str_at(b, pos) == Some((s, p)),
    ensures
        0 <= pos,
        str_enc_ok(s),
        p == pos + enc_str(s).len(),
        p <= b.len(),
        b.subrange(pos, p) == enc_str(s),
{
    let n = dec_u64_at(b, pos).unwrap().0;
    let p1 = dec_u64_at(b, pos).unwrap().1;
    lemma_dec_u64_sound(b, pos, n, p1);
    let u = b.subrange(p1, p1 + n as int);
    decode_utf8_encode_utf8(u);
    assert(encode_utf8(s) == u);
    assert(u.len() == n);
    assert((encode_utf8(s).len() as u64) == n);
    assert(b.subrange(pos, p) =~= b.subrange(pos, p1) + b.subrange(p1, p));
    assert(b.subrange(pos, p) =~= enc_str(s));
}

/// Whatever a block read yields, the consumed bytes are exactly the
/// block's encoding.
proof fn lemma_dec_block_sound(b: Seq<u8>, pos: int, blk: StoredBlockView, p: int)
    requires
        dec_block_at(b, pos) == Some((blk, p)),
    ensures
        0 <= pos,
        block_enc_ok(blk),
        p == pos + enc_block(blk).len(),
        p <= b.len(),
        b.subrange(pos, p) == enc_block(blk),
{
    let p1 = dec_u128_at(b, pos).unwrap().1;
    lemma_dec_u128_sound(b, pos, blk.id, p1);
    let p2 = dec_u64_at(b, p1).unwrap().1;
    lemma_dec_u64_sound(b, p1, blk.created_at, p2);
    let p3 = dec_u64_at(b, p2).unwrap().1;
    lemma_dec_u64_sound(b, p2, blk.updated_at, p3);
    let p4 = dec_str_at(b, p3).unwrap().1;
    lemma_dec_str_sound(b, p3, blk.kind, p4);
    lemma_dec_str_sound(b, p4, blk.content, p);
    assert(b.subrange(pos, p2) =~= b.subrange(pos, p1) + b.subrange(p1, p2));
    assert(b.subrange(pos, p3) =~= b.subrange(pos, p2) + b.subrange(p2, p3));
    assert(b.subrange(pos, p4) =~= b.subrange(pos, p3) + b.subrange(p3, p4));
    assert(b.subrange(pos, p) =~= b.subrange(pos, p4) + b.subrange(p4, p));
    assert(b.subrange(pos, p) =~= enc_block(blk));
}

/// Whatever a sequence-of-blocks read yields, the consumed bytes are
/// exactly the blocks' concatenated encodings.
proof fn lemma_dec_blocks_sound(b: Seq<u8>, pos: int, count: nat, bs: Seq<StoredBlockView>, p: int)
    requires
        0 <= pos <= b.len(),
        dec_blocks_at(b, pos, count) == Some((bs, p)),
    ensures
        bs.len() == count,
        forall|i: int| 0 <= i < bs.len() ==> block_enc_ok(#[trigger] bs[i]),
        p == pos + enc_blocks(bs).len(),
        pos <= p <= b.len(),
        b.subrange(pos, p) == enc_blocks(bs),
    decreases count,
{
    if count == 0 {
        assert(bs =~= Seq::<StoredBlockView>::empty());
        assert(b.subrange(pos, pos) =~= Seq::<u8>::empty());
    } else {
        let blk = dec_block_at(b, pos).unwrap().0;
        let p1 = dec_block_at(b, pos).unwrap().1;
        lemma_dec_block_sound(b, pos, blk, p1);
        let rest = dec_blocks_at(b, p1, (count - 1) as nat).unwrap().0;
        lemma_dec_blocks_sound(b, p1, (count - 1) as nat, rest, p);
        assert(bs == seq![blk] + rest);
        assert(bs[0] == blk);
        assert(bs.drop_first() =~= rest);
        assert(enc_blocks(bs) == enc_block(blk) + enc_blocks(rest));
        assert(b.subrange(pos, p) =~= b.subrange(pos, p1) + b.subrange(p1, p));
        assert(b.subrange(pos, p) =~= enc_blocks(bs));
    }
}

/// Soundness of decoding: the decoder accepts exactly the valid
/// encodings. Whenever a byte sequence decodes to a document, that
/// document fits the layout's prefixes and its encoding is the byte
/// sequence itself — together with [`lemma_codec_round_trip`], the
/// layout is a bijection between such documents and their encodings.
pub proof fn lemma_codec_sound(b: Seq<u8>, d: DocumentView)
    requires
        dec_doc(b) == Some(d),
    ensures
        doc_enc_ok(d),
        enc_doc(d) == b,
{
    let p1 = dec_u128_at(b, 0).unwrap().1;
    lemma_dec_u128_sound(b, 0, d.id, p1);
    let p2 = dec_u64_at(b, p1).unwrap().1;
    lemma_dec_u64_sound(b, p1, d.created_at, p2);
    let p3 = dec_u64_at(b, p2).unwrap().1;
    lemma_dec_u64_sound(b, p2, d.updated_at, p3);
    let p4 = dec_str_at(b, p3).unwrap().1;
    lemma_dec_str_sound(b, p3, d.title, p4);
    let n = dec_u64_at(b, p4).unwrap().0;
    let p5 = dec_u64_at(b, p4).unwrap().1;
    lemma_dec_u64_sound(b, p4, n, p5);
    lemma_dec_blocks_sound(b, p5, n as nat, d.blocks, b.len() as int);
    assert(d.blocks.len() == n as nat);
    assert((d.blocks.len() as u64) == n);
    assert(b.subrange(0, p2) =~= b.subrange(0, p1) + b.subrange(p1, p2));
    assert(b.subrange(0, p3) =~= b.subrange(0, p2) + b.subrange(p2, p3));
    assert(b.subrange(0, p4) =~= b.subrange(0, p3) + b.subrange(p3, p4));
    assert(b.subrange(0, p5) =~= b.subrange(0, p4) + b.subrange(p4, p5));
    assert(b.subrange(0, b.len() as int) =~= b.subrange(0, p5) + b.subrange(p5, b.len() as int));
    assert(b.subrange(0, b.len() as int) =~= b);
    assert(enc_doc(d) =~= b);
}

/// Deserializes a document from the flat byte layout; the buffer must
/// be consumed exactly, else the data is rejected.
pub fn decode_document(bytes: &[u8]) -> (r: Option<Document>)
    ensures
        (match r {
            Some(d) => dec_doc(bytes@) == Some(d@),
            None => dec_doc(bytes@) is None,
        }),
{
    match read_u128(bytes, 0) {
        None => None,
        Some((id, p1)) => match read_u64(bytes, p1) {
            None => None,
            Some((created_at, p2)) => match read_u64(bytes, p2) {
                None => None,
                Some((updated_at, p3)) => match read_string(bytes, p3) {
                    None => None,
                    Some((title, p4)) => match read_u64(bytes, p4) {
                        None => None,
                        Some((n, p5)) => match read_blocks(bytes, p5, n) {
                            None => None,
                            Some((blocks, e)) => {
                                if e == bytes.len() {
                                    Some(Document { id, title, blocks, created_at, updated_at })
                                } else {
                                    None
                                }
                            },
                        },
                    },
                },
            },
        },
    }
}

} // verus!
