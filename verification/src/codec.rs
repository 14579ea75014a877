//! The serialized forms that cross the wire.
//!
//! A [`NetworkPacket`](crate::NetworkPacket) is carried as its kind tag and
//! its payload, each preceded by its length as eight little-endian bytes.
//! A request or response payload additionally carries its correlation id as
//! eight little-endian bytes in front of the user payload.

use vstd::prelude::*;
use vstd::bytes::{
    lemma_auto_spec_u64_to_from_le_bytes, spec_u64_from_le_bytes, spec_u64_to_le_bytes,
    u64_from_le_bytes, u64_to_le_bytes,
};
use vstd::slice::{slice_subrange, slice_to_vec};
use vstd::string::StrSliceExecFns;
use vstd::utf8::{
    decode_utf8, decode_utf8_encode_utf8, encode_utf8, encode_utf8_decode_utf8,
    encode_utf8_valid_utf8, valid_utf8,
};

use crate::NetworkPacket;

verus! {

/// The serialized form of a packet with kind tag `kind` and payload `data`:
/// the tag's UTF-8 bytes and the payload, each length-prefixed.
pub open spec fn spec_encode_packet(kind: Seq<char>, data: Seq<u8>) -> Seq<u8> {
    let kb = encode_utf8(kind);
    spec_u64_to_le_bytes(kb.len() as u64) + kb + spec_u64_to_le_bytes(data.len() as u64) + data
}

/// What a byte string means as a packet, if anything: the kind tag and the
/// payload it carries.  Decoding fails on a short input, a length field that
/// disagrees with the input's length, or a tag that is not valid UTF-8.
pub open spec fn spec_decode_packet(b: Seq<u8>) -> Option<(Seq<char>, Seq<u8>)> {
    if b.len() < 16 {
        None
    } else {
        let klen = spec_u64_from_le_bytes(b.subrange(0, 8)) as int;
        if b.len() < 16 + klen {
            None
        } else {
            let kb = b.subrange(8, 8 + klen);
            let dlen = spec_u64_from_le_bytes(b.subrange(8 + klen, 16 + klen)) as int;
            if b.len() != 16 + klen + dlen || !valid_utf8(kb) {
                None
            } else {
                Some((decode_utf8(kb), b.subrange(16 + klen, b.len() as int)))
            }
        }
    }
}

/// Law: decoding an encoded packet gives back the kind tag and payload that
/// went in.
pub proof fn lemma_packet_round_trip(kind: Seq<char>, data: Seq<u8>)
    requires
        encode_utf8(kind).len() <= u64::MAX,
        data.len() <= u64::MAX,
    ensures
        spec_decode_packet(spec_encode_packet(kind, data)) == Some((kind, data)),
{
    broadcast use encode_utf8_valid_utf8, encode_utf8_decode_utf8;

    lemma_auto_spec_u64_to_from_le_bytes();
    let kb = encode_utf8(kind);
    let b = spec_encode_packet(kind, data);
    let klen = kb.len() as int;
    assert(b.subrange(0, 8) =~= spec_u64_to_le_bytes(kb.len() as u64));
    assert(b.subrange(8, 8 + klen) =~= kb);
    assert(b.subrange(8 + klen, 16 + klen) =~= spec_u64_to_le_bytes(data.len() as u64));
    assert(b.subrange(16 + klen, b.len() as int) =~= data);
}

/// Law: a byte string that decodes as a packet is exactly that packet's
/// encoding, so every byte string means at most one packet.
pub proof fn lemma_packet_unique_encoding(b: Seq<u8>, kind: Seq<char>, data: Seq<u8>)
    requires
        spec_decode_packet(b) == Some((kind, data)),
    ensures
        spec_encode_packet(kind, data) == b,
{
    lemma_auto_spec_u64_to_from_le_bytes();
    let klen = spec_u64_from_le_bytes(b.subrange(0, 8)) as int;
    let kb = b.subrange(8, 8 + klen);
    decode_utf8_encode_utf8(kb);
    assert(encode_utf8(kind) == kb);
    assert(spec_encode_packet(kind, data) =~= b);
}

/// Relies on String::from_utf8: it returns the string holding exactly the
/// given bytes when they are valid UTF-8, and an error otherwise.
#[verifier::external_body]
fn bytes_to_string(v: Vec<u8>) -> (r: Option<String>)
    ensures
        r is Some <==> valid_utf8(v@),
        r matches Some(s) ==> encode_utf8(s@) == v@,
{
    String::from_utf8(v).ok()
}

/// Serializes a packet's kind tag and payload.
pub fn encode_packet(kind: &str, data: &Vec<u8>) -> (r: Vec<u8>)
    ensures
        r@ == spec_encode_packet(kind@, data@),
{
    let mut kb = kind.as_bytes_vec();
    let mut r = u64_to_le_bytes(kb.len() as u64);
    r.append(&mut kb);
    let mut dlen = u64_to_le_bytes(data.len() as u64);
    r.append(&mut dlen);
    r.extend_from_slice(data.as_slice());
    assert(r@ =~= spec_encode_packet(kind@, data@));
    r
}

/// Deserializes a packet, if the bytes hold one.
pub fn decode_packet(b: &Vec<u8>) -> (r: Option<NetworkPacket>)
    ensures
        r is Some <==> spec_decode_packet(b@) is Some,
        r matches Some(p) ==> spec_decode_packet(b@) == Some((p.kind@, p.data@)),
{
    if b.len() < 16 {
        return None;
    }
    let klen64 = u64_from_le_bytes(slice_subrange(b.as_slice(), 0, 8));
    if klen64 > (b.len() as u64) - 16 {
        return None;
    }
    let klen = klen64 as usize;
    let kb = slice_to_vec(slice_subrange(b.as_slice(), 8, 8 + klen));
    let dlen64 = u64_from_le_bytes(slice_subrange(b.as_slice(), 8 + klen, 16 + klen));
    if dlen64 != (b.len() as u64) - 16 - klen64 {
        return None;
    }
    let data = slice_to_vec(slice_subrange(b.as_slice(), 16 + klen, b.len()));
    proof {
        assert(spec_u64_from_le_bytes(b@.subrange(0, 8)) as int == klen as int);
        assert(kb@ == b@.subrange(8, 8 + klen as int));
        assert(b@.len() == 16 + klen + data@.len());
    }
    match bytes_to_string(kb) {
        Some(kind) => {
            proof {
                encode_utf8_decode_utf8(kind@);
            }
            Some(NetworkPacket { kind, data })
        },
        None => None,
    }
}

/// The serialized form of a correlated payload: the correlation id as eight
/// little-endian bytes, then the user payload.
pub open spec fn spec_encode_correlated(id: u64, payload: Seq<u8>) -> Seq<u8> {
    spec_u64_to_le_bytes(id) + payload
}

/// What a byte string means as a correlated payload, if anything.
pub open spec fn spec_decode_correlated(b: Seq<u8>) -> Option<(u64, Seq<u8>)> {
    if b.len() < 8 {
        None
    } else {
        Some((spec_u64_from_le_bytes(b.subrange(0, 8)), b.subrange(8, b.len() as int)))
    }
}

/// Law: decoding an encoded correlated payload gives back the id and payload
/// that went in.
pub proof fn lemma_correlated_round_trip(id: u64, payload: Seq<u8>)
    ensures
        spec_decode_correlated(spec_encode_correlated(id, payload)) == Some((id, payload)),
{
    lemma_auto_spec_u64_to_from_le_bytes();
    let b = spec_encode_correlated(id, payload);
    assert(b.subrange(0, 8) =~= spec_u64_to_le_bytes(id));
    assert(b.subrange(8, b.len() as int) =~= payload);
}

/// Law: a byte string that decodes as a correlated payload is exactly that
/// payload's encoding.
pub proof fn lemma_correlated_unique_encoding(b: Seq<u8>, id: u64, payload: Seq<u8>)
    requires
        spec_decode_correlated(b) == Some((id, payload)),
    ensures
        spec_encode_correlated(id, payload) == b,
{
    lemma_auto_spec_u64_to_from_le_bytes();
    assert(spec_encode_correlated(id, payload) =~= b);
}

/// Prefixes a payload with its correlation id.
pub fn encode_correlated(id: u64, payload: &Vec<u8>) -> (r: Vec<u8>)
    ensures
        r@ == spec_encode_correlated(id, payload@),
{
    let mut r = u64_to_le_bytes(id);
    r.extend_from_slice(payload.as_slice());
    assert(r@ =~= spec_encode_correlated(id, payload@));
    r
}

/// Splits a correlated payload into its correlation id and the user payload.
pub fn decode_correlated(b: &Vec<u8>) -> (r: Option<(u64, Vec<u8>)>)
    ensures
        r is Some <==> spec_decode_correlated(b@) is Some,
        r matches Some(p) ==> spec_decode_correlated(b@) == Some((p.0, p.1@)),
{
    if b.len() < 8 {
        return None;
    }
    let id = u64_from_le_bytes(slice_subrange(b.as_slice(), 0, 8));
    let payload = slice_to_vec(slice_subrange(b.as_slice(), 8, b.len()));
    Some((id, payload))
}

} // verus!
