//! Identifier and hash engine: SHA-256 digests, uppercase hex encoding,
//! DID and schema-id derivation, and big-endian integer encoding.

use vstd::prelude::*;

use crate::bytes::append_bytes;
use sha2::Digest;

verus! {

/// The SHA-256 digest of a byte string. The algorithm is too long to state
/// here; the digest is a function of the input bytes alone.
pub uninterp spec fn sha256_of(data: Seq<u8>) -> Seq<u8>;

/// Relies on sha2::Sha256::digest: the digest depends on the input bytes
/// alone, and is exactly 32 bytes long.
#[verifier::external_body]
pub fn sha256(data: &Vec<u8>) -> (r: Vec<u8>)
    ensures
        r@ == sha256_of(data@),
        r@.len() == 32,
{
    sha2::Sha256::digest(data.as_slice()).to_vec()
}

/// The uppercase hexadecimal digit for a nibble value below 16.
pub open spec fn hex_digit(v: u8) -> u8 {
    if v < 10 {
        (48 + v) as u8
    } else {
        (55 + v) as u8
    }
}

/// Uppercase hex encoding: each byte becomes two digits, high nibble first.
pub open spec fn hex_upper_of(data: Seq<u8>) -> Seq<u8>
    decreases data.len(),
{
    if data.len() == 0 {
        Seq::empty()
    } else {
        hex_upper_of(data.drop_last()).push(hex_digit(data.last() / 16)).push(
            hex_digit(data.last() % 16),
        )
    }
}

/// Relies on hex::encode_upper: each input byte becomes two uppercase
/// hexadecimal digits, high nibble first, in input order.
#[verifier::external_body]
pub fn hex_encode_upper(data: &Vec<u8>) -> (r: Vec<u8>)
    ensures
        r@ == hex_upper_of(data@),
{
    hex::encode_upper(data.as_slice()).into_bytes()
}

/// The byte string `did:multiversx`, the fixed DID method prefix.
pub open spec fn did_prefix() -> Seq<u8> {
    seq![100u8, 105, 100, 58, 109, 117, 108, 116, 105, 118, 101, 114, 115, 120]
}

fn did_prefix_bytes() -> (r: Vec<u8>)
    ensures
        r@ == did_prefix(),
{
    let mut v: Vec<u8> = Vec::new();
    v.push(100);
    v.push(105);
    v.push(100);
    v.push(58);
    v.push(109);
    v.push(117);
    v.push(108);
    v.push(116);
    v.push(105);
    v.push(118);
    v.push(101);
    v.push(114);
    v.push(115);
    v.push(120);
    proof {
        assert(v@ =~= did_prefix());
    }
    v
}

/// The DID derived from an owner identity: the fixed method prefix followed
/// by the uppercase hex encoding of the SHA-256 digest of the identity bytes.
pub open spec fn did_of(owner: Seq<u8>) -> Seq<u8> {
    did_prefix() + hex_upper_of(sha256_of(owner))
}

/// Derives the DID for an owner identity. Deterministic: the result is a
/// function of the identity bytes alone, with no side effects.
pub fn generate_did(address: &Vec<u8>) -> (r: Vec<u8>)
    ensures
        r@ == did_of(address@),
{
    let mut r = did_prefix_bytes();
    let digest = sha256(address);
    let hex_hash = hex_encode_upper(&digest);
    append_bytes(&mut r, &hex_hash);
    r
}

/// The schema id derived from a (type, version) pair: the uppercase hex
/// encoding of the SHA-256 digest of their concatenation.
pub open spec fn schema_id_of(type_: Seq<u8>, version: Seq<u8>) -> Seq<u8> {
    hex_upper_of(sha256_of(type_ + version))
}

/// Derives the schema id for a (type, version) pair. Deterministic.
pub fn generate_schema_id(type_: &Vec<u8>, version: &Vec<u8>) -> (r: Vec<u8>)
    ensures
        r@ == schema_id_of(type_@, version@),
{
    let mut concatenated: Vec<u8> = Vec::new();
    append_bytes(&mut concatenated, type_);
    append_bytes(&mut concatenated, version);
    proof {
        assert(concatenated@ =~= type_@ + version@);
    }
    let digest = sha256(&concatenated);
    hex_encode_upper(&digest)
}

/// The 8-byte big-endian encoding of a 64-bit integer.
pub open spec fn u64_be_bytes(n: u64) -> Seq<u8> {
    seq![
        ((n >> 56) & 0xff) as u8,
        ((n >> 48) & 0xff) as u8,
        ((n >> 40) & 0xff) as u8,
        ((n >> 32) & 0xff) as u8,
        ((n >> 24) & 0xff) as u8,
        ((n >> 16) & 0xff) as u8,
        ((n >> 8) & 0xff) as u8,
        (n & 0xff) as u8,
    ]
}

/// Encodes a 64-bit integer as 8 big-endian bytes.
pub fn be_bytes_of_u64(n: u64) -> (r: Vec<u8>)
    ensures
        r@ == u64_be_bytes(n),
{
    proof {
        assert(((n >> 56) & 0xff) < 256 && ((n >> 48) & 0xff) < 256 && ((n >> 40) & 0xff) < 256
            && ((n >> 32) & 0xff) < 256 && ((n >> 24) & 0xff) < 256 && ((n >> 16) & 0xff) < 256
            && ((n >> 8) & 0xff) < 256 && (n & 0xff) < 256) by (bit_vector);
    }
    let mut v: Vec<u8> = Vec::new();
    v.push(((n >> 56) & 0xff) as u8);
    v.push(((n >> 48) & 0xff) as u8);
    v.push(((n >> 40) & 0xff) as u8);
    v.push(((n >> 32) & 0xff) as u8);
    v.push(((n >> 24) & 0xff) as u8);
    v.push(((n >> 16) & 0xff) as u8);
    v.push(((n >> 8) & 0xff) as u8);
    v.push((n & 0xff) as u8);
    proof {
        assert(v@ =~= u64_be_bytes(n));
    }
    v
}

proof fn lemma_hex_upper_len(data: Seq<u8>)
    ensures
        hex_upper_of(data).len() == 2 * data.len(),
    decreases data.len(),
{
    if data.len() > 0 {
        lemma_hex_upper_len(data.drop_last());
    }
}

proof fn lemma_hex_upper_index(data: Seq<u8>, i: int)
    requires
        0 <= i < data.len(),
    ensures
        hex_upper_of(data)[2 * i] == hex_digit(data[i] / 16),
        hex_upper_of(data)[2 * i + 1] == hex_digit(data[i] % 16),
    decreases data.len(),
{
    lemma_hex_upper_len(data.drop_last());
    if i < data.len() - 1 {
        lemma_hex_upper_index(data.drop_last(), i);
        assert(data.drop_last()[i] == data[i]);
    } else {
        assert(data.last() == data[i]);
    }
}

proof fn lemma_hex_digit_injective(x: u8, y: u8)
    requires
        x < 16,
        y < 16,
        hex_digit(x) == hex_digit(y),
    ensures
        x == y,
{
}

/// The uppercase hex encoding is injective: equal encodings come only from
/// equal byte strings.
proof fn lemma_hex_upper_injective(a: Seq<u8>, b: Seq<u8>)
    requires
        hex_upper_of(a) == hex_upper_of(b),
    ensures
        a == b,
{
    lemma_hex_upper_len(a);
    lemma_hex_upper_len(b);
    assert forall|i: int| 0 <= i < a.len() implies a[i] == b[i] by {
        lemma_hex_upper_index(a, i);
        lemma_hex_upper_index(b, i);
        lemma_hex_digit_injective(a[i] / 16, b[i] / 16);
        lemma_hex_digit_injective(a[i] % 16, b[i] % 16);
        assert(a[i] == 16 * (a[i] / 16) + a[i] % 16);
        assert(b[i] == 16 * (b[i] / 16) + b[i] % 16);
    }
    assert(a =~= b);
}

/// DID derivation is deterministic: the DID is a function of the owner
/// identity bytes alone.
pub proof fn lemma_did_deterministic(a: Seq<u8>, b: Seq<u8>)
    requires
        a == b,
    ensures
        did_of(a) == did_of(b),
{
}

/// DID derivation is collision-free up to the hash: two owner identities can
/// receive the same DID only if their SHA-256 digests collide.
pub proof fn lemma_did_collision_implies_digest_collision(a: Seq<u8>, b: Seq<u8>)
    requires
        did_of(a) == did_of(b),
    ensures
        sha256_of(a) == sha256_of(b),
{
    let p = did_prefix();
    let ha = hex_upper_of(sha256_of(a));
    let hb = hex_upper_of(sha256_of(b));
    assert((p + ha).len() == (p + hb).len());
    assert(ha.len() == hb.len());
    assert forall|i: int| 0 <= i < ha.len() implies ha[i] == hb[i] by {
        assert(ha[i] == (p + ha)[p.len() + i]);
        assert(hb[i] == (p + hb)[p.len() + i]);
    }
    assert(ha =~= hb);
    lemma_hex_upper_injective(sha256_of(a), sha256_of(b));
}

} // verus!
