//! The RTU frame codec: wrapping a PDU with a one-byte station address and a
//! trailing CRC16 (low byte first), and the inverse, which validates the
//! checksum before handing the PDU bytes on.
//!
//! `lemma_corruption_rejected` is the corruption guarantee: corrupting any
//! single body byte of a valid frame — in particular flipping any single bit
//! — makes the checksum fail, so decoding reports `ChecksumMismatch` and the
//! frame is dropped whole.
#![allow(unused_imports)]
use vstd::prelude::*;

use crate::bytes::{copy_range, hi, lo, push_bytes};
use crate::crc::{compute_crc16, compute_crc16_prefix, crc16, lemma_crc16_detects_single_byte_change};
use crate::pdu::{
    decoded_request, decoded_response, encoded_request, encoded_response, is_request_function_code,
    is_response_function_code, lemma_request_round_trip, lemma_response_round_trip, request_valid,
    response_valid, DecodedResponse,
};
use crate::{Error, RequestModel, ResponseModel};

verus! {

/// The body of an RTU frame: the station address followed by the PDU bytes.
pub open spec fn frame_body(address: u8, pdu: Seq<u8>) -> Seq<u8> {
    seq![address] + pdu
}

/// A complete RTU frame: the body followed by its CRC16, low byte first.
pub open spec fn frame_bytes(address: u8, pdu: Seq<u8>) -> Seq<u8> {
    frame_body(address, pdu) + seq![
        lo(crc16(frame_body(address, pdu))),
        hi(crc16(frame_body(address, pdu))),
    ]
}

/// True when `f` is long enough to be a frame (address, at least one PDU
/// byte, two CRC bytes) and its trailing CRC16 matches its body.
pub open spec fn frame_crc_ok(f: Seq<u8>) -> bool {
    &&& f.len() >= 4
    &&& f[f.len() - 2] == lo(crc16(f.take(f.len() - 2)))
    &&& f[f.len() - 1] == hi(crc16(f.take(f.len() - 2)))
}

/// Wraps a PDU byte sequence into a complete RTU frame for station
/// `address`.
pub fn encode_frame(address: u8, pdu: &[u8]) -> (f: Vec<u8>)
    ensures
        f@ == frame_bytes(address, pdu@),
{
    let mut out: Vec<u8> = Vec::new();
    out.push(address);
    push_bytes(&mut out, pdu);
    proof {
        assert(out@ =~= frame_body(address, pdu@));
    }
    let c = compute_crc16(out.as_slice());
    out.push((c % 256) as u8);
    out.push((c / 256) as u8);
    proof {
        assert(out@ =~= frame_bytes(address, pdu@));
    }
    out
}

/// Validates and strips an RTU frame: checks the minimum length and the
/// CRC16, and on success returns the station address and the PDU bytes.
/// A too-short frame is `MalformedFrame`; a checksum failure is
/// `ChecksumMismatch`, and the whole frame must then be discarded.
pub fn decode_frame(f: &[u8]) -> (r: Result<(u8, Vec<u8>), Error>)
    ensures
        r is Ok <==> frame_crc_ok(f@),
        match r {
            Ok((address, pdu)) => address == f@[0] && pdu@ == f@.subrange(1, f@.len() - 2),
            Err(e) => e == (if f@.len() < 4 {
                Error::MalformedFrame
            } else {
                Error::ChecksumMismatch
            }),
        },
{
    let len = f.len();
    if len < 4 {
        return Err(Error::MalformedFrame);
    }
    let c = compute_crc16_prefix(f, len - 2);
    if f[len - 2] == (c % 256) as u8 && f[len - 1] == (c / 256) as u8 {
        let pdu = copy_range(f, 1, len - 2);
        Ok((f[0], pdu))
    } else {
        Err(Error::ChecksumMismatch)
    }
}

/// Framing a PDU and unframing it restores the address and the PDU: an
/// encoded frame always passes the checksum test.
pub proof fn lemma_frame_round_trip(address: u8, pdu: Seq<u8>)
    requires
        pdu.len() >= 1,
    ensures
        frame_crc_ok(frame_bytes(address, pdu)),
        frame_bytes(address, pdu)[0] == address,
        frame_bytes(address, pdu).subrange(1, frame_bytes(address, pdu).len() - 2) == pdu,
{
    let body = frame_body(address, pdu);
    let f = frame_bytes(address, pdu);
    assert(f.len() == body.len() + 2);
    assert(f.take(f.len() - 2) =~= body);
    assert(f.subrange(1, f.len() - 2) =~= pdu);
}

/// The whole client-side stack round-trips: a valid request, encoded as a
/// PDU and wrapped into an RTU frame, passes the checksum test, and stripping
/// the frame and decoding the PDU restores the address and the request.
pub proof fn lemma_request_stack_round_trip(address: u8, m: RequestModel)
    requires
        request_valid(m),
        m matches RequestModel::Custom(fc, _) ==> !is_request_function_code(fc),
    ensures
        frame_crc_ok(frame_bytes(address, encoded_request(m))),
        frame_bytes(address, encoded_request(m))[0] == address,
        decoded_request(
            frame_bytes(address, encoded_request(m)).subrange(
                1,
                frame_bytes(address, encoded_request(m)).len() - 2,
            ),
        ) == Some(m),
{
    lemma_request_round_trip(m);
    lemma_frame_round_trip(address, encoded_request(m));
}

/// The whole server-side stack round-trips in the same way for responses.
pub proof fn lemma_response_stack_round_trip(address: u8, m: ResponseModel)
    requires
        response_valid(m),
        m matches ResponseModel::ReadCoils(coils) ==> coils.len() % 8 == 0,
        m matches ResponseModel::ReadDiscreteInputs(coils) ==> coils.len() % 8 == 0,
        m matches ResponseModel::Custom(fc, _) ==> !is_response_function_code(fc) && fc < 0x80,
    ensures
        frame_crc_ok(frame_bytes(address, encoded_response(m))),
        frame_bytes(address, encoded_response(m))[0] == address,
        decoded_response(
            frame_bytes(address, encoded_response(m)).subrange(
                1,
                frame_bytes(address, encoded_response(m)).len() - 2,
            ),
        ) == DecodedResponse::Normal(m),
{
    lemma_response_round_trip(m);
    lemma_frame_round_trip(address, encoded_response(m));
}

/// Corrupting any single body byte of a frame with a valid checksum — in
/// particular, flipping any single bit of its address or payload — breaks
/// the checksum: the corrupted frame never passes the CRC test, so decoding
/// rejects it with `ChecksumMismatch`, deterministically.
pub proof fn lemma_corruption_rejected(f: Seq<u8>, g: Seq<u8>, j: int)
    requires
        frame_crc_ok(f),
        g.len() == f.len(),
        0 <= j < f.len() - 2,
        g[j] != f[j],
        forall|k: int| 0 <= k < g.len() && k != j ==> g[k] == f[k],
    ensures
        !frame_crc_ok(g),
{
    let n = f.len() - 2;
    assert(f.take(n)[j] != g.take(n)[j]);
    assert(forall|k: int| 0 <= k < n && k != j ==> f.take(n)[k] == g.take(n)[k]);
    lemma_crc16_detects_single_byte_change(f.take(n), g.take(n), j);
    let cf = crc16(f.take(n));
    let cg = crc16(g.take(n));
    if frame_crc_ok(g) {
        assert(g[n] == f[n] && g[n + 1] == f[n + 1]);
        assert(lo(cf) == lo(cg) && hi(cf) == hi(cg));
        assert(cf % 256 == cg % 256);
        assert(cf / 256 == cg / 256);
        assert(cf == 256 * (cf / 256) + cf % 256);
        assert(cg == 256 * (cg / 256) + cg % 256);
        assert(false);
    }
}

} // verus!
