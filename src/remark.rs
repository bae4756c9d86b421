//! The 32-byte remark of a relay-chain message, which carries an optional
//! asset identifier in the SCALE encoding.

use vstd::prelude::*;

use parity_scale_codec::{Decode, Encode};

use crate::account::{bytes_zero_from, lemma_u32_le_bytes_of_decoded, u32_from_le, u32_le_bytes, zeros};
use crate::{AssetId, TransferError};

verus! {

#[verifier::external_type_specification]
#[verifier::external_body]
pub struct ExCodecError(parity_scale_codec::Error);

/// The SCALE encoding of an `Option<u32>`: `0` for `None`; `1` and the
/// little-endian value for `Some`.
pub open spec fn option_u32_encoding(a: Option<u32>) -> Seq<u8> {
    match a {
        None => seq![0u8],
        Some(x) => seq![1u8] + u32_le_bytes(x),
    }
}

/// The `Option<u32>` that SCALE decoding reads from the front of `b`, bytes
/// after it being left unread; `None` when `b` does not start with one.
pub open spec fn option_u32_decoding(b: Seq<u8>) -> Option<Option<u32>> {
    if b.len() >= 1 && b[0] == 0 {
        Some(None)
    } else if b.len() >= 5 && b[0] == 1 {
        Some(Some(u32_from_le(b.subrange(1, 5))))
    } else {
        None
    }
}

/// A remark carrying `a`: its encoding, padded with zeroes to 32 bytes.
pub open spec fn remark_bytes(a: Option<u32>) -> Seq<u8> {
    option_u32_encoding(a) + zeros((32 - option_u32_encoding(a).len()) as nat)
}

/// The optional asset identifier that the remark `r` carries: `Some(a)`
/// exactly when `r` is the encoding of `a` padded with zeroes, `None` when it
/// is malformed.
pub open spec fn remark_asset(r: Seq<u8>) -> Option<Option<u32>> {
    match option_u32_decoding(r) {
        Some(v) => if r == remark_bytes(v) {
            Some(v)
        } else {
            None
        },
        None => None,
    }
}

/// Relies on `<Option<u32> as parity_scale_codec::Decode>::decode` reading a
/// byte slice: a variant byte (`0` or `1`, anything else an error), then for
/// `Some` four little-endian bytes (too few an error).
#[verifier::external_body]
fn scale_decode_option_u32(b: &[u8]) -> (r: Result<Option<u32>, parity_scale_codec::Error>)
    ensures
        match r {
            Ok(v) => option_u32_decoding(b@) == Some(v),
            Err(_) => option_u32_decoding(b@) is None,
        },
{
    let mut input: &[u8] = b;
    Option::<u32>::decode(&mut input)
}

/// Relies on `<Option<u32> as parity_scale_codec::Encode>::encode`: the
/// variant byte, then for `Some` the little-endian value.
#[verifier::external_body]
fn scale_encode_option_u32(a: &Option<u32>) -> (r: Vec<u8>)
    ensures
        r@ == option_u32_encoding(*a),
{
    a.encode()
}

/// The optional asset identifier that a remark carries: `Ok(a)` exactly
/// when the remark is `remark_bytes(a)` (so all zeroes give `Ok(None)`, the
/// native currency), `MalformedRemark` for anything else, trailing bytes
/// included.
pub fn decode_remark(remark: &[u8; 32]) -> (r: Result<Option<AssetId>, TransferError>)
    ensures
        r == match remark_asset(remark@) {
            Some(v) => Ok::<Option<AssetId>, TransferError>(v),
            None => Err::<Option<AssetId>, TransferError>(TransferError::MalformedRemark),
        },
{
    match scale_decode_option_u32(remark.as_slice()) {
        Ok(v) => {
            let start: usize = if v.is_some() {
                5
            } else {
                1
            };
            proof {
                assert(option_u32_encoding(v).len() == start);
            }
            if bytes_zero_from(remark, start) {
                proof {
                    if let Some(x) = v {
                        lemma_u32_le_bytes_of_decoded(remark@.subrange(1, 5));
                        assert(remark@.subrange(1, 5) =~= u32_le_bytes(x));
                    }
                    assert(remark@ =~= remark_bytes(v));
                }
                Ok(v)
            } else {
                proof {
                    if remark@ == remark_bytes(v) {
                        assert forall|i: int| start <= i < 32 implies remark@[i] == 0 by {
                            assert(remark_bytes(v)[i] == zeros((32 - start) as nat)[i - start]);
                        }
                    }
                }
                Err(TransferError::MalformedRemark)
            }
        },
        Err(_) => Err(TransferError::MalformedRemark),
    }
}

/// Turns 32 bytes into a remark.
pub fn encoded_to_remark(v: Vec<u8>) -> (r: [u8; 32])
    requires
        v.len() == 32,
    ensures
        r@ == v@,
{
    let mut out: [u8; 32] = [0u8; 32];
    let mut i: usize = 0;
    while i < 32
        invariant
            v.len() == 32,
            0 <= i <= 32,
            forall|j: int| 0 <= j < i ==> out@[j] == v@[j],
        decreases 32 - i,
    {
        out[i] = v[i];
        i = i + 1;
    }
    assert(out@ =~= v@);
    out
}

/// The remark that carries `asset`.
pub fn encode_remark(asset: Option<AssetId>) -> (r: [u8; 32])
    ensures
        r@ == remark_bytes(asset),
{
    let enc = scale_encode_option_u32(&asset);
    let mut out: [u8; 32] = [0u8; 32];
    let mut i: usize = 0;
    while i < enc.len()
        invariant
            enc@ == option_u32_encoding(asset),
            enc.len() <= 5,
            0 <= i <= enc.len(),
            forall|j: int| 0 <= j < i ==> out@[j] == enc@[j],
            forall|j: int| i <= j < 32 ==> out@[j] == 0,
        decreases enc.len() - i,
    {
        out[i] = enc[i];
        i = i + 1;
    }
    assert(out@ =~= remark_bytes(asset));
    out
}

/// A remark is well formed exactly when it is the padded encoding of an
/// optional asset identifier, and then it carries that identifier.
pub proof fn lemma_remark_asset_exact(r: Seq<u8>, a: Option<u32>)
    ensures
        remark_asset(r) == Some(a) <==> r == remark_bytes(a),
{
    lemma_remark_round_trip(a);
}

/// Decoding the remark that carries `a` gives `a` back, and the all-zero
/// remark carries the native currency.
pub proof fn lemma_remark_round_trip(a: Option<u32>)
    ensures
        option_u32_decoding(remark_bytes(a)) == Some(a),
        option_u32_decoding(zeros(32)) == Some(None::<u32>),
{
    let r = remark_bytes(a);
    if let Some(x) = a {
        assert(r.subrange(1, 5) =~= u32_le_bytes(x));
        crate::account::lemma_u32_le_round_trip(x);
    }
}

} // verus!
