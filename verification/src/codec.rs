//! How file content is packed: compressed at rest, base64 inside JSON.

use vstd::prelude::*;
use vstd::string::*;

verus! {

/// Longest content, in bytes, that can be compressed: the packed form
/// writes the length in front, in 32 bits.
pub const MAX_RAW_LEN: usize = 0xFFFF_FFFF;

/// Longest packed block that is handed to the decoder. The decoder adds
/// the bytes of a length into a 32-bit counter, up to 255 for each byte
/// read; a block of at most this many bytes cannot make it overflow.
pub const MAX_BLOCK_LEN: usize = 16_000_000;

/// The block that `lz4_flex` packs `raw` into, its length in front.
pub uninterp spec fn lz4_block(raw: Seq<u8>) -> Seq<u8>;

/// The content that `lz4_flex` unpacks from `block`, `None` where it
/// refuses the block.
pub uninterp spec fn lz4_unblock(block: Seq<u8>) -> Option<Seq<u8>>;

/// The text that `base64` writes for `bytes` with the standard alphabet and
/// padding.
pub uninterp spec fn base64_padded(bytes: Seq<u8>) -> Seq<char>;

/// The bytes that `base64` reads from padded `text`, `None` where it refuses
/// the text.
pub uninterp spec fn base64_padded_bytes(text: Seq<char>) -> Option<Seq<u8>>;

/// The text that `base64` writes for `bytes` with the standard alphabet and
/// no padding.
pub uninterp spec fn base64_bare(bytes: Seq<u8>) -> Seq<char>;

/// The bytes that `base64` reads from unpadded `text`, `None` where it
/// refuses the text.
pub uninterp spec fn base64_bare_bytes(text: Seq<char>) -> Option<Seq<u8>>;

/// The views of an optional vector of bytes.
pub open spec fn bytes_view(bytes: Option<Vec<u8>>) -> Option<Seq<u8>> {
    match bytes {
        Some(v) => Some(v@),
        None => None,
    }
}

/// Whether content of `len` bytes can be packed: the length fits the 32
/// bits in front of the block, and the room that the packer sets aside for
/// the block, which it reckons from 110 times the length, can be counted
/// on this machine.
pub open spec fn packable(len: nat) -> bool {
    len <= MAX_RAW_LEN && len * 110 <= usize::MAX
}

/// Whether `block` is what content was packed into.
pub open spec fn is_packed(block: Seq<u8>) -> bool {
    exists|raw: Seq<u8>|
        packable(raw.len()) && block == #[trigger] lz4_block(raw) && lz4_unblock(block) == Some(
            raw,
        )
}

/// Calls `lz4_flex::compress_prepend_size`. The contract names the block
/// and claims what the crate documents of the pair: that
/// `decompress_size_prepended` gives the content back. It also claims the
/// cap that the source puts on the block: the packer writes into a buffer
/// of 24 bytes and 110 hundredths of the length of the content, and hands
/// out no more than it wrote. Content whose length does not fit the 32 bits
/// in front, or for which that buffer cannot be reckoned, is left out.
#[verifier::external_body]
fn lz4_pack(raw: &[u8]) -> (block: Vec<u8>)
    requires
        packable(raw@.len()),
    ensures
        block@ == lz4_block(raw@),
        lz4_unblock(block@) == Some(raw@),
        block@.len() <= 24 + raw@.len() * 110 / 100,
{
    lz4_flex::compress_prepend_size(raw)
}

/// Calls `lz4_flex::decompress_size_prepended`, which returns an error for a
/// block that it cannot unpack. The contract only names the result. The
/// decoder adds the bytes of a length into a 32-bit counter; a block that
/// is neither short enough to keep that counter from overflowing nor the
/// work of the packer, which writes no length above that of the content,
/// is left out.
#[verifier::external_body]
fn lz4_unpack(block: &[u8]) -> (raw: Option<Vec<u8>>)
    requires
        block@.len() <= MAX_BLOCK_LEN || is_packed(block@),
    ensures
        bytes_view(raw) == lz4_unblock(block@),
{
    match lz4_flex::decompress_size_prepended(block) {
        Ok(raw) => Some(raw),
        Err(_) => None,
    }
}

/// Calls `encode` of `base64::engine::general_purpose::STANDARD`. The
/// contract names the text and claims that the same engine decodes it to
/// the bytes it was made from.
#[verifier::external_body]
fn base64_write_padded(bytes: &[u8]) -> (text: String)
    ensures
        text@ == base64_padded(bytes@),
        base64_padded_bytes(text@) == Some(bytes@),
{
    base64::Engine::encode(&base64::engine::general_purpose::STANDARD, bytes)
}

/// Calls `decode` of `base64::engine::general_purpose::STANDARD`. The
/// contract only names the result.
#[verifier::external_body]
fn base64_read_padded(text: &str) -> (bytes: Option<Vec<u8>>)
    ensures
        bytes_view(bytes) == base64_padded_bytes(text@),
{
    match base64::Engine::decode(&base64::engine::general_purpose::STANDARD, text) {
        Ok(bytes) => Some(bytes),
        Err(_) => None,
    }
}

/// Calls `encode` of `base64::engine::general_purpose::STANDARD_NO_PAD`. The
/// contract names the text and claims that the same engine decodes it to
/// the bytes it was made from.
#[verifier::external_body]
fn base64_write_bare(bytes: &[u8]) -> (text: String)
    ensures
        text@ == base64_bare(bytes@),
        base64_bare_bytes(text@) == Some(bytes@),
{
    base64::Engine::encode(&base64::engine::general_purpose::STANDARD_NO_PAD, bytes)
}

/// Calls `decode` of `base64::engine::general_purpose::STANDARD_NO_PAD`.
/// The contract only names the result.
#[verifier::external_body]
fn base64_read_bare(text: &str) -> (bytes: Option<Vec<u8>>)
    ensures
        bytes_view(bytes) == base64_bare_bytes(text@),
{
    match base64::Engine::decode(&base64::engine::general_purpose::STANDARD_NO_PAD, text) {
        Ok(bytes) => Some(bytes),
        Err(_) => None,
    }
}

/// What `raw` is stored as: `None` where the content cannot be packed.
pub open spec fn spec_pack(raw: Seq<u8>) -> Option<Seq<u8>> {
    if packable(raw.len()) {
        Some(lz4_block(raw))
    } else {
        None
    }
}

/// What is read back from a `block`: nothing from a block that is too long
/// to be tried and is not known to be the work of the packer.
pub open spec fn spec_unpack(block: Seq<u8>) -> Option<Seq<u8>> {
    if block.len() <= MAX_BLOCK_LEN || is_packed(block) {
        lz4_unblock(block)
    } else {
        None
    }
}

/// What is read back from a `block` of which nothing is known: nothing
/// from a block that is too long to be tried.
pub open spec fn spec_unpack_any(block: Seq<u8>) -> Option<Seq<u8>> {
    if block.len() <= MAX_BLOCK_LEN {
        lz4_unblock(block)
    } else {
        None
    }
}

/// Packs content for storage. Content of up to four gibibytes is packed on
/// a machine that counts in 64 bits; the block is at most 24 bytes and a
/// tenth longer than the content.
pub fn pack(raw: &Vec<u8>) -> (block: Option<Vec<u8>>)
    ensures
        bytes_view(block) == spec_pack(raw@),
        block matches Some(b) ==> is_packed(b@) && spec_unpack(b@) == Some(raw@) && b.len() <= 24
            + raw.len() * 110 / 100,
        raw.len() <= 39_000_000 ==> block is Some,
{
    if raw.len() > MAX_RAW_LEN || raw.len() > usize::MAX / 110 {
        assert(!packable(raw@.len())) by (nonlinear_arith)
            requires
                raw@.len() > MAX_RAW_LEN || raw@.len() > usize::MAX / 110,
        ;
        return None;
    }
    assert(packable(raw@.len())) by (nonlinear_arith)
        requires
            raw@.len() <= MAX_RAW_LEN,
            raw@.len() <= usize::MAX / 110,
    ;
    Some(lz4_pack(raw.as_slice()))
}

/// Unpacks a block of which nothing is known.
pub fn unpack(block: &Vec<u8>) -> (raw: Option<Vec<u8>>)
    ensures
        bytes_view(raw) == spec_unpack_any(block@),
{
    if block.len() > MAX_BLOCK_LEN {
        return None;
    }
    lz4_unpack(block.as_slice())
}

/// Unpacks a block that content was packed into, however long it is: the
/// content comes back.
pub fn unpack_packed(block: &Vec<u8>) -> (raw: Vec<u8>)
    requires
        is_packed(block@),
    ensures
        spec_unpack(block@) == Some(raw@),
{
    match lz4_unpack(block.as_slice()) {
        Some(raw) => raw,
        None => {
            proof {
                assert(false);
            }
            Vec::new()
        },
    }
}

/// Writes bytes as padded base64, the form in which content leaves the
/// services inside JSON.
pub fn encode_padded(bytes: &Vec<u8>) -> (text: String)
    ensures
        text@ == base64_padded(bytes@),
        base64_padded_bytes(text@) == Some(bytes@),
{
    base64_write_padded(bytes.as_slice())
}

/// Reads padded base64.
pub fn decode_padded(text: &str) -> (bytes: Option<Vec<u8>>)
    ensures
        bytes_view(bytes) == base64_padded_bytes(text@),
{
    base64_read_padded(text)
}

/// Writes bytes as unpadded base64, the form of uploaded content and of
/// continuation tokens.
pub fn encode_bare(bytes: &Vec<u8>) -> (text: String)
    ensures
        text@ == base64_bare(bytes@),
        base64_bare_bytes(text@) == Some(bytes@),
{
    base64_write_bare(bytes.as_slice())
}

/// Reads unpadded base64.
pub fn decode_bare(text: &str) -> (bytes: Option<Vec<u8>>)
    ensures
        bytes_view(bytes) == base64_bare_bytes(text@),
{
    base64_read_bare(text)
}

} // verus!
