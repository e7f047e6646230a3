//! The PDU codec: the mapping between typed requests / responses and the
//! function-code-plus-payload byte layout of the Modbus application protocol.
//!
//! `encoded_request` / `encoded_response` are the specification of the wire
//! layout; `request_valid` / `response_valid` are the per-function bounds the
//! standard puts on quantities and payload lengths.  The executable encoders
//! produce exactly the specified bytes or report `InvariantViolation`; the
//! executable decoders return exactly what `decoded_request` /
//! `decoded_response` say.  The round-trip lemmas prove that decoding an
//! encoded value restores it.
#![allow(unused_imports)]
use vstd::prelude::*;

use crate::bytes::{
    be16, coil_byte_count, copy_range, hi, lemma_be16_split, lemma_coils_round_trip,
    lemma_words_round_trip, lo, packed_coils, packed_words, push_bytes, push_packed_coils,
    push_packed_words, push_u16, read_packed_coils, read_packed_words, read_u16, unpacked_coils,
    unpacked_words,
};
use crate::{
    is_exception_code, spec_exception_from_code, Error, Exception, Request, RequestModel, Response,
    ResponseModel,
};

verus! {

pub const FC_READ_COILS: u8 = 0x01;

pub const FC_READ_DISCRETE_INPUTS: u8 = 0x02;

pub const FC_READ_HOLDING_REGISTERS: u8 = 0x03;

pub const FC_READ_INPUT_REGISTERS: u8 = 0x04;

pub const FC_WRITE_SINGLE_COIL: u8 = 0x05;

pub const FC_WRITE_SINGLE_REGISTER: u8 = 0x06;

pub const FC_READ_EXCEPTION_STATUS: u8 = 0x07;

pub const FC_DIAGNOSTICS: u8 = 0x08;

pub const FC_GET_COMM_EVENT_COUNTER: u8 = 0x0B;

pub const FC_GET_COMM_EVENT_LOG: u8 = 0x0C;

pub const FC_WRITE_MULTIPLE_COILS: u8 = 0x0F;

pub const FC_WRITE_MULTIPLE_REGISTERS: u8 = 0x10;

pub const FC_REPORT_SERVER_ID: u8 = 0x11;

pub const FC_READ_WRITE_MULTIPLE_REGISTERS: u8 = 0x17;

/// The largest quantity a read-coils or read-discrete-inputs request may ask
/// for.
pub const MAX_QUANTITY_READ_BITS: u16 = 2000;

/// The largest quantity a read-registers request may ask for.
pub const MAX_QUANTITY_READ_WORDS: u16 = 125;

/// The largest number of coils one write-multiple-coils request may carry.
pub const MAX_QUANTITY_WRITE_BITS: u16 = 1968;

/// The largest number of registers one write-multiple-registers request may
/// carry.
pub const MAX_QUANTITY_WRITE_WORDS: u16 = 123;

/// True on the function codes that have a typed [`Request`] variant.
pub open spec fn is_request_function_code(fc: u8) -> bool {
    fc == FC_READ_COILS || fc == FC_READ_DISCRETE_INPUTS || fc == FC_READ_HOLDING_REGISTERS || fc
        == FC_READ_INPUT_REGISTERS || fc == FC_WRITE_SINGLE_COIL || fc == FC_WRITE_SINGLE_REGISTER
        || fc == FC_READ_EXCEPTION_STATUS || fc == FC_DIAGNOSTICS || fc == FC_GET_COMM_EVENT_COUNTER
        || fc == FC_GET_COMM_EVENT_LOG || fc == FC_WRITE_MULTIPLE_COILS || fc
        == FC_WRITE_MULTIPLE_REGISTERS || fc == FC_REPORT_SERVER_ID || fc
        == FC_READ_WRITE_MULTIPLE_REGISTERS
}

/// True on the function codes that have a typed [`Response`] variant.
pub open spec fn is_response_function_code(fc: u8) -> bool {
    is_request_function_code(fc)
}

/// The per-function bounds a request must meet before it can be encoded:
/// quantities in the legal range of their function, and multi-item payloads
/// short enough for the one-byte byte-count field.
pub open spec fn request_valid(m: RequestModel) -> bool {
    match m {
        RequestModel::ReadCoils(_, q) => 1 <= q <= MAX_QUANTITY_READ_BITS,
        RequestModel::ReadDiscreteInputs(_, q) => 1 <= q <= MAX_QUANTITY_READ_BITS,
        RequestModel::WriteSingleCoil(_, _) => true,
        RequestModel::WriteMultipleCoils(_, coils) => 1 <= coils.len()
            <= MAX_QUANTITY_WRITE_BITS as int,
        RequestModel::ReadInputRegisters(_, q) => 1 <= q <= MAX_QUANTITY_READ_WORDS,
        RequestModel::ReadHoldingRegisters(_, q) => 1 <= q <= MAX_QUANTITY_READ_WORDS,
        RequestModel::WriteSingleRegister(_, _) => true,
        RequestModel::WriteMultipleRegisters(_, words) => 1 <= words.len()
            <= MAX_QUANTITY_WRITE_WORDS as int,
        RequestModel::ReadWriteMultipleRegisters(_, rq, _, words) => 1 <= rq
            <= MAX_QUANTITY_READ_WORDS && 1 <= words.len() <= MAX_QUANTITY_WRITE_WORDS as int,
        RequestModel::ReadExceptionStatus => true,
        RequestModel::Diagnostics(_, _) => true,
        RequestModel::GetCommEventCounter => true,
        RequestModel::GetCommEventLog => true,
        RequestModel::ReportServerId => true,
        RequestModel::Custom(_, _) => true,
    }
}

/// The exact PDU byte sequence of a valid request: the function code,
/// followed by the function-specific payload.
pub open spec fn encoded_request(m: RequestModel) -> Seq<u8> {
    match m {
        RequestModel::ReadCoils(a, q) => seq![FC_READ_COILS, hi(a), lo(a), hi(q), lo(q)],
        RequestModel::ReadDiscreteInputs(a, q) => seq![
            FC_READ_DISCRETE_INPUTS,
            hi(a),
            lo(a),
            hi(q),
            lo(q),
        ],
        RequestModel::WriteSingleCoil(a, c) => seq![
            FC_WRITE_SINGLE_COIL,
            hi(a),
            lo(a),
            if c {
                0xFFu8
            } else {
                0x00u8
            },
            0x00u8,
        ],
        RequestModel::WriteMultipleCoils(a, coils) => seq![
            FC_WRITE_MULTIPLE_COILS,
            hi(a),
            lo(a),
            hi(coils.len() as u16),
            lo(coils.len() as u16),
            coil_byte_count(coils.len()) as u8,
        ] + packed_coils(coils),
        RequestModel::ReadInputRegisters(a, q) => seq![
            FC_READ_INPUT_REGISTERS,
            hi(a),
            lo(a),
            hi(q),
            lo(q),
        ],
        RequestModel::ReadHoldingRegisters(a, q) => seq![
            FC_READ_HOLDING_REGISTERS,
            hi(a),
            lo(a),
            hi(q),
            lo(q),
        ],
        RequestModel::WriteSingleRegister(a, w) => seq![
            FC_WRITE_SINGLE_REGISTER,
            hi(a),
            lo(a),
            hi(w),
            lo(w),
        ],
        RequestModel::WriteMultipleRegisters(a, words) => seq![
            FC_WRITE_MULTIPLE_REGISTERS,
            hi(a),
            lo(a),
            hi(words.len() as u16),
            lo(words.len() as u16),
            (2 * words.len()) as u8,
        ] + packed_words(words),
        RequestModel::ReadWriteMultipleRegisters(ra, rq, wa, words) => seq![
            FC_READ_WRITE_MULTIPLE_REGISTERS,
            hi(ra),
            lo(ra),
            hi(rq),
            lo(rq),
            hi(wa),
            lo(wa),
            hi(words.len() as u16),
            lo(words.len() as u16),
            (2 * words.len()) as u8,
        ] + packed_words(words),
        RequestModel::ReadExceptionStatus => seq![FC_READ_EXCEPTION_STATUS],
        RequestModel::Diagnostics(sub, data) => seq![FC_DIAGNOSTICS, hi(sub), lo(sub)]
            + packed_words(data),
        RequestModel::GetCommEventCounter => seq![FC_GET_COMM_EVENT_COUNTER],
        RequestModel::GetCommEventLog => seq![FC_GET_COMM_EVENT_LOG],
        RequestModel::ReportServerId => seq![FC_REPORT_SERVER_ID],
        RequestModel::Custom(fc, data) => seq![fc] + data,
    }
}

/// What a request PDU byte sequence decodes to: `Some` of the typed value
/// the layout rules accept, `None` when the bytes are malformed.  Unknown
/// function codes decode to `Custom` rather than failing.
pub open spec fn decoded_request(b: Seq<u8>) -> Option<RequestModel> {
    if b.len() < 1 {
        None
    } else {
        let fc = b[0];
        if fc == FC_READ_COILS || fc == FC_READ_DISCRETE_INPUTS {
            if b.len() == 5 && 1 <= be16(b[3], b[4]) <= MAX_QUANTITY_READ_BITS {
                if fc == FC_READ_COILS {
                    Some(RequestModel::ReadCoils(be16(b[1], b[2]), be16(b[3], b[4])))
                } else {
                    Some(RequestModel::ReadDiscreteInputs(be16(b[1], b[2]), be16(b[3], b[4])))
                }
            } else {
                None
            }
        } else if fc == FC_READ_HOLDING_REGISTERS || fc == FC_READ_INPUT_REGISTERS {
            if b.len() == 5 && 1 <= be16(b[3], b[4]) <= MAX_QUANTITY_READ_WORDS {
                if fc == FC_READ_HOLDING_REGISTERS {
                    Some(RequestModel::ReadHoldingRegisters(be16(b[1], b[2]), be16(b[3], b[4])))
                } else {
                    Some(RequestModel::ReadInputRegisters(be16(b[1], b[2]), be16(b[3], b[4])))
                }
            } else {
                None
            }
        } else if fc == FC_WRITE_SINGLE_COIL {
            if b.len() == 5 && b[4] == 0x00 && (b[3] == 0xFF || b[3] == 0x00) {
                Some(RequestModel::WriteSingleCoil(be16(b[1], b[2]), b[3] == 0xFF))
            } else {
                None
            }
        } else if fc == FC_WRITE_SINGLE_REGISTER {
            if b.len() == 5 {
                Some(RequestModel::WriteSingleRegister(be16(b[1], b[2]), be16(b[3], b[4])))
            } else {
                None
            }
        } else if fc == FC_WRITE_MULTIPLE_COILS {
            if b.len() >= 6 && 1 <= be16(b[3], b[4]) <= MAX_QUANTITY_WRITE_BITS && b[5] as int
                == coil_byte_count(be16(b[3], b[4]) as nat) && b.len() == 6 + b[5] as int {
                Some(
                    RequestModel::WriteMultipleCoils(
                        be16(b[1], b[2]),
                        unpacked_coils(b.skip(6), be16(b[3], b[4]) as nat),
                    ),
                )
            } else {
                None
            }
        } else if fc == FC_WRITE_MULTIPLE_REGISTERS {
            if b.len() >= 6 && 1 <= be16(b[3], b[4]) <= MAX_QUANTITY_WRITE_WORDS && b[5] as int == 2
                * be16(b[3], b[4]) && b.len() == 6 + b[5] as int {
                Some(RequestModel::WriteMultipleRegisters(be16(b[1], b[2]), unpacked_words(b.skip(6))))
            } else {
                None
            }
        } else if fc == FC_READ_WRITE_MULTIPLE_REGISTERS {
            if b.len() >= 10 && 1 <= be16(b[3], b[4]) <= MAX_QUANTITY_READ_WORDS && 1 <= be16(
                b[7],
                b[8],
            ) <= MAX_QUANTITY_WRITE_WORDS && b[9] as int == 2 * be16(b[7], b[8]) && b.len() == 10
                + b[9] as int {
                Some(
                    RequestModel::ReadWriteMultipleRegisters(
                        be16(b[1], b[2]),
                        be16(b[3], b[4]),
                        be16(b[5], b[6]),
                        unpacked_words(b.skip(10)),
                    ),
                )
            } else {
                None
            }
        } else if fc == FC_READ_EXCEPTION_STATUS {
            if b.len() == 1 {
                Some(RequestModel::ReadExceptionStatus)
            } else {
                None
            }
        } else if fc == FC_DIAGNOSTICS {
            if b.len() >= 3 && (b.len() - 3) % 2 == 0 {
                Some(RequestModel::Diagnostics(be16(b[1], b[2]), unpacked_words(b.skip(3))))
            } else {
                None
            }
        } else if fc == FC_GET_COMM_EVENT_COUNTER {
            if b.len() == 1 {
                Some(RequestModel::GetCommEventCounter)
            } else {
                None
            }
        } else if fc == FC_GET_COMM_EVENT_LOG {
            if b.len() == 1 {
                Some(RequestModel::GetCommEventLog)
            } else {
                None
            }
        } else if fc == FC_REPORT_SERVER_ID {
            if b.len() == 1 {
                Some(RequestModel::ReportServerId)
            } else {
                None
            }
        } else {
            Some(RequestModel::Custom(fc, b.skip(1)))
        }
    }
}

/// Encodes a request as its PDU byte sequence, or reports
/// `InvariantViolation` when a quantity or length bound of the function is
/// violated.
pub fn encode_request(req: &Request) -> (r: Result<Vec<u8>, Error>)
    ensures
        match r {
            Ok(out) => request_valid(req@) && out@ == encoded_request(req@),
            Err(e) => !request_valid(req@) && e == Error::InvariantViolation,
        },
{
    match req {
        Request::ReadCoils(a, q) => {
            if *q < 1 || *q > MAX_QUANTITY_READ_BITS {
                return Err(Error::InvariantViolation);
            }
            let mut out: Vec<u8> = Vec::new();
            out.push(FC_READ_COILS);
            push_u16(&mut out, *a);
            push_u16(&mut out, *q);
            proof {
                assert(out@ =~= encoded_request(req@));
            }
            Ok(out)
        },
        Request::ReadDiscreteInputs(a, q) => {
            if *q < 1 || *q > MAX_QUANTITY_READ_BITS {
                return Err(Error::InvariantViolation);
            }
            let mut out: Vec<u8> = Vec::new();
            out.push(FC_READ_DISCRETE_INPUTS);
            push_u16(&mut out, *a);
            push_u16(&mut out, *q);
            proof {
                assert(out@ =~= encoded_request(req@));
            }
            Ok(out)
        },
        Request::WriteSingleCoil(a, c) => {
            let mut out: Vec<u8> = Vec::new();
            out.push(FC_WRITE_SINGLE_COIL);
            push_u16(&mut out, *a);
            out.push(if *c { 0xFF } else { 0x00 });
            out.push(0x00);
            proof {
                assert(out@ =~= encoded_request(req@));
            }
            Ok(out)
        },
        Request::WriteMultipleCoils(a, coils) => {
            let n = coils.len();
            if n < 1 || n > MAX_QUANTITY_WRITE_BITS as usize {
                return Err(Error::InvariantViolation);
            }
            let mut out: Vec<u8> = Vec::new();
            out.push(FC_WRITE_MULTIPLE_COILS);
            push_u16(&mut out, *a);
            push_u16(&mut out, n as u16);
            out.push(((n + 7) / 8) as u8);
            push_packed_coils(&mut out, coils.as_slice());
            proof {
                assert(out@ =~= encoded_request(req@));
            }
            Ok(out)
        },
        Request::ReadInputRegisters(a, q) => {
            if *q < 1 || *q > MAX_QUANTITY_READ_WORDS {
                return Err(Error::InvariantViolation);
            }
            let mut out: Vec<u8> = Vec::new();
            out.push(FC_READ_INPUT_REGISTERS);
            push_u16(&mut out, *a);
            push_u16(&mut out, *q);
            proof {
                assert(out@ =~= encoded_request(req@));
            }
            Ok(out)
        },
        Request::ReadHoldingRegisters(a, q) => {
            if *q < 1 || *q > MAX_QUANTITY_READ_WORDS {
                return Err(Error::InvariantViolation);
            }
            let mut out: Vec<u8> = Vec::new();
            out.push(FC_READ_HOLDING_REGISTERS);
            push_u16(&mut out, *a);
            push_u16(&mut out, *q);
            proof {
                assert(out@ =~= encoded_request(req@));
            }
            Ok(out)
        },
        Request::WriteSingleRegister(a, w) => {
            let mut out: Vec<u8> = Vec::new();
            out.push(FC_WRITE_SINGLE_REGISTER);
            push_u16(&mut out, *a);
            push_u16(&mut out, *w);
            proof {
                assert(out@ =~= encoded_request(req@));
            }
            Ok(out)
        },
        Request::WriteMultipleRegisters(a, words) => {
            let n = words.len();
            if n < 1 || n > MAX_QUANTITY_WRITE_WORDS as usize {
                return Err(Error::InvariantViolation);
            }
            let mut out: Vec<u8> = Vec::new();
            out.push(FC_WRITE_MULTIPLE_REGISTERS);
            push_u16(&mut out, *a);
            push_u16(&mut out, n as u16);
            out.push((2 * n) as u8);
            push_packed_words(&mut out, words.as_slice());
            proof {
                assert(out@ =~= encoded_request(req@));
            }
            Ok(out)
        },
        Request::ReadWriteMultipleRegisters(ra, rq, wa, words) => {
            let n = words.len();
            if *rq < 1 || *rq > MAX_QUANTITY_READ_WORDS || n < 1 || n
                > MAX_QUANTITY_WRITE_WORDS as usize {
                return Err(Error::InvariantViolation);
            }
            let mut out: Vec<u8> = Vec::new();
            out.push(FC_READ_WRITE_MULTIPLE_REGISTERS);
            push_u16(&mut out, *ra);
            push_u16(&mut out, *rq);
            push_u16(&mut out, *wa);
            push_u16(&mut out, n as u16);
            out.push((2 * n) as u8);
            push_packed_words(&mut out, words.as_slice());
            proof {
                assert(out@ =~= encoded_request(req@));
            }
            Ok(out)
        },
        Request::ReadExceptionStatus => {
            let mut out: Vec<u8> = Vec::new();
            out.push(FC_READ_EXCEPTION_STATUS);
            proof {
                assert(out@ =~= encoded_request(req@));
            }
            Ok(out)
        },
        Request::Diagnostics(sub, data) => {
            let mut out: Vec<u8> = Vec::new();
            out.push(FC_DIAGNOSTICS);
            push_u16(&mut out, *sub);
            push_packed_words(&mut out, data.as_slice());
            proof {
                assert(out@ =~= encoded_request(req@));
            }
            Ok(out)
        },
        Request::GetCommEventCounter => {
            let mut out: Vec<u8> = Vec::new();
            out.push(FC_GET_COMM_EVENT_COUNTER);
            proof {
                assert(out@ =~= encoded_request(req@));
            }
            Ok(out)
        },
        Request::GetCommEventLog => {
            let mut out: Vec<u8> = Vec::new();
            out.push(FC_GET_COMM_EVENT_LOG);
            proof {
                assert(out@ =~= encoded_request(req@));
            }
            Ok(out)
        },
        Request::ReportServerId => {
            let mut out: Vec<u8> = Vec::new();
            out.push(FC_REPORT_SERVER_ID);
            proof {
                assert(out@ =~= encoded_request(req@));
            }
            Ok(out)
        },
        Request::Custom(fc, data) => {
            let mut out: Vec<u8> = Vec::new();
            out.push(*fc);
            push_bytes(&mut out, data.as_slice());
            proof {
                assert(out@ =~= encoded_request(req@));
            }
            Ok(out)
        },
    }
}

/// Decodes a request PDU, reporting `MalformedFrame` exactly on the byte
/// sequences that no layout accepts.  An unknown function code decodes to
/// `Custom`, preserving the payload.
pub fn decode_request(b: &[u8]) -> (r: Result<Request, Error>)
    ensures
        match r {
            Ok(req) => decoded_request(b@) == Some(req@),
            Err(e) => e == Error::MalformedFrame && decoded_request(b@) is None,
        },
{
    let len = b.len();
    if len < 1 {
        return Err(Error::MalformedFrame);
    }
    let fc = b[0];
    if fc == FC_READ_COILS || fc == FC_READ_DISCRETE_INPUTS {
        if len == 5 {
            let a = read_u16(b, 1);
            let q = read_u16(b, 3);
            if 1 <= q && q <= MAX_QUANTITY_READ_BITS {
                if fc == FC_READ_COILS {
                    Ok(Request::ReadCoils(a, q))
                } else {
                    Ok(Request::ReadDiscreteInputs(a, q))
                }
            } else {
                Err(Error::MalformedFrame)
            }
        } else {
            Err(Error::MalformedFrame)
        }
    } else if fc == FC_READ_HOLDING_REGISTERS || fc == FC_READ_INPUT_REGISTERS {
        if len == 5 {
            let a = read_u16(b, 1);
            let q = read_u16(b, 3);
            if 1 <= q && q <= MAX_QUANTITY_READ_WORDS {
                if fc == FC_READ_HOLDING_REGISTERS {
                    Ok(Request::ReadHoldingRegisters(a, q))
                } else {
                    Ok(Request::ReadInputRegisters(a, q))
                }
            } else {
                Err(Error::MalformedFrame)
            }
        } else {
            Err(Error::MalformedFrame)
        }
    } else if fc == FC_WRITE_SINGLE_COIL {
        if len == 5 && b[4] == 0x00 && (b[3] == 0xFF || b[3] == 0x00) {
            Ok(Request::WriteSingleCoil(read_u16(b, 1), b[3] == 0xFF))
        } else {
            Err(Error::MalformedFrame)
        }
    } else if fc == FC_WRITE_SINGLE_REGISTER {
        if len == 5 {
            Ok(Request::WriteSingleRegister(read_u16(b, 1), read_u16(b, 3)))
        } else {
            Err(Error::MalformedFrame)
        }
    } else if fc == FC_WRITE_MULTIPLE_COILS {
        if len >= 6 {
            let a = read_u16(b, 1);
            let q = read_u16(b, 3);
            let bc = b[5];
            if 1 <= q && q <= MAX_QUANTITY_WRITE_BITS && bc as usize == (q as usize + 7) / 8 && len
                == 6 + bc as usize {
                let coils = read_packed_coils(b, 6, q as usize);
                Ok(Request::WriteMultipleCoils(a, coils))
            } else {
                Err(Error::MalformedFrame)
            }
        } else {
            Err(Error::MalformedFrame)
        }
    } else if fc == FC_WRITE_MULTIPLE_REGISTERS {
        if len >= 6 {
            let a = read_u16(b, 1);
            let q = read_u16(b, 3);
            let bc = b[5];
            if 1 <= q && q <= MAX_QUANTITY_WRITE_WORDS && bc as usize == 2 * q as usize && len == 6
                + bc as usize {
                let words = read_packed_words(b, 6, q as usize);
                proof {
                    assert(b@.subrange(6, 6 + 2 * (q as int)) =~= b@.skip(6));
                }
                Ok(Request::WriteMultipleRegisters(a, words))
            } else {
                Err(Error::MalformedFrame)
            }
        } else {
            Err(Error::MalformedFrame)
        }
    } else if fc == FC_READ_WRITE_MULTIPLE_REGISTERS {
        if len >= 10 {
            let ra = read_u16(b, 1);
            let rq = read_u16(b, 3);
            let wa = read_u16(b, 5);
            let wq = read_u16(b, 7);
            let bc = b[9];
            if 1 <= rq && rq <= MAX_QUANTITY_READ_WORDS && 1 <= wq && wq
                <= MAX_QUANTITY_WRITE_WORDS && bc as usize == 2 * wq as usize && len == 10
                + bc as usize {
                let words = read_packed_words(b, 10, wq as usize);
                proof {
                    assert(b@.subrange(10, 10 + 2 * (wq as int)) =~= b@.skip(10));
                }
                Ok(Request::ReadWriteMultipleRegisters(ra, rq, wa, words))
            } else {
                Err(Error::MalformedFrame)
            }
        } else {
            Err(Error::MalformedFrame)
        }
    } else if fc == FC_READ_EXCEPTION_STATUS {
        if len == 1 {
            Ok(Request::ReadExceptionStatus)
        } else {
            Err(Error::MalformedFrame)
        }
    } else if fc == FC_DIAGNOSTICS {
        if len >= 3 && (len - 3) % 2 == 0 {
            let sub = read_u16(b, 1);
            let data = read_packed_words(b, 3, (len - 3) / 2);
            proof {
                assert(b@.subrange(3, 3 + 2 * (((len - 3) / 2) as int)) =~= b@.skip(3));
            }
            Ok(Request::Diagnostics(sub, data))
        } else {
            Err(Error::MalformedFrame)
        }
    } else if fc == FC_GET_COMM_EVENT_COUNTER {
        if len == 1 {
            Ok(Request::GetCommEventCounter)
        } else {
            Err(Error::MalformedFrame)
        }
    } else if fc == FC_GET_COMM_EVENT_LOG {
        if len == 1 {
            Ok(Request::GetCommEventLog)
        } else {
            Err(Error::MalformedFrame)
        }
    } else if fc == FC_REPORT_SERVER_ID {
        if len == 1 {
            Ok(Request::ReportServerId)
        } else {
            Err(Error::MalformedFrame)
        }
    } else {
        let data = copy_range(b, 1, len);
        proof {
            assert(b@.subrange(1, len as int) =~= b@.skip(1));
        }
        Ok(Request::Custom(fc, data))
    }
}

/// Decoding an encoded request restores it: the PDU layout loses nothing of
/// any valid request.  A `Custom` request round-trips as long as its function
/// code is not one that a typed variant claims.
pub proof fn lemma_request_round_trip(m: RequestModel)
    requires
        request_valid(m),
        m matches RequestModel::Custom(fc, _) ==> !is_request_function_code(fc),
    ensures
        decoded_request(encoded_request(m)) == Some(m),
{
    let e = encoded_request(m);
    match m {
        RequestModel::ReadCoils(a, q) => {
            lemma_be16_split(a);
            lemma_be16_split(q);
        },
        RequestModel::ReadDiscreteInputs(a, q) => {
            lemma_be16_split(a);
            lemma_be16_split(q);
        },
        RequestModel::WriteSingleCoil(a, c) => {
            lemma_be16_split(a);
        },
        RequestModel::WriteMultipleCoils(a, coils) => {
            lemma_be16_split(a);
            lemma_be16_split(coils.len() as u16);
            let q = be16(e[3], e[4]);
            assert(q == coils.len());
            assert(e.len() == 6 + coil_byte_count(coils.len()));
            assert(e.skip(6) =~= packed_coils(coils));
            lemma_coils_round_trip(coils);
        },
        RequestModel::ReadInputRegisters(a, q) => {
            lemma_be16_split(a);
            lemma_be16_split(q);
        },
        RequestModel::ReadHoldingRegisters(a, q) => {
            lemma_be16_split(a);
            lemma_be16_split(q);
        },
        RequestModel::WriteSingleRegister(a, w) => {
            lemma_be16_split(a);
            lemma_be16_split(w);
        },
        RequestModel::WriteMultipleRegisters(a, words) => {
            lemma_be16_split(a);
            lemma_be16_split(words.len() as u16);
            assert(e.len() == 6 + 2 * words.len());
            assert(e.skip(6) =~= packed_words(words));
            lemma_words_round_trip(words);
        },
        RequestModel::ReadWriteMultipleRegisters(ra, rq, wa, words) => {
            lemma_be16_split(ra);
            lemma_be16_split(rq);
            lemma_be16_split(wa);
            lemma_be16_split(words.len() as u16);
            assert(e.len() == 10 + 2 * words.len());
            assert(e.skip(10) =~= packed_words(words));
            lemma_words_round_trip(words);
        },
        RequestModel::ReadExceptionStatus => {},
        RequestModel::Diagnostics(sub, data) => {
            lemma_be16_split(sub);
            assert(e.len() == 3 + 2 * data.len());
            assert(e.skip(3) =~= packed_words(data));
            lemma_words_round_trip(data);
        },
        RequestModel::GetCommEventCounter => {},
        RequestModel::GetCommEventLog => {},
        RequestModel::ReportServerId => {},
        RequestModel::Custom(fc, data) => {
            assert(e.skip(1) =~= data);
        },
    }
}

/// Every request the decoder accepts meets the encode-time bounds: decoding
/// validates the quantity and length ranges of each function, so a decoded
/// request can always be encoded again.
pub proof fn lemma_decoded_request_valid(b: Seq<u8>, m: RequestModel)
    requires
        decoded_request(b) == Some(m),
    ensures
        request_valid(m),
{
}

/// What a response PDU byte sequence decodes to: a typed response, a server
/// exception (a byte pair whose function code has the high bit set), or
/// nothing because the bytes are malformed.
pub enum DecodedResponse {
    Normal(ResponseModel),
    Rejected(Exception),
    Malformed,
}

/// The per-function bounds a response must meet before it can be encoded:
/// echoed quantities in the legal range of their function, and payloads short
/// enough for the one-byte byte-count field.
pub open spec fn response_valid(m: ResponseModel) -> bool {
    match m {
        ResponseModel::ReadCoils(coils) => coils.len() <= 2040,
        ResponseModel::ReadDiscreteInputs(coils) => coils.len() <= 2040,
        ResponseModel::WriteSingleCoil(_) => true,
        ResponseModel::WriteMultipleCoils(_, q) => 1 <= q <= MAX_QUANTITY_WRITE_BITS,
        ResponseModel::ReadInputRegisters(words) => words.len() <= 127,
        ResponseModel::ReadHoldingRegisters(words) => words.len() <= 127,
        ResponseModel::WriteSingleRegister(_, _) => true,
        ResponseModel::WriteMultipleRegisters(_, q) => 1 <= q <= MAX_QUANTITY_WRITE_WORDS,
        ResponseModel::ReadWriteMultipleRegisters(words) => words.len() <= 127,
        ResponseModel::ReadExceptionStatus(_) => true,
        ResponseModel::Diagnostics(_) => true,
        ResponseModel::GetCommEventCounter(_, _) => true,
        ResponseModel::GetCommEventLog(_, _, _, events) => events.len() <= 249,
        ResponseModel::ReportServerId(data, _) => data.len() <= 254,
        ResponseModel::Custom(_, _) => true,
    }
}

/// The exact PDU byte sequence of a valid response.
pub open spec fn encoded_response(m: ResponseModel) -> Seq<u8> {
    match m {
        ResponseModel::ReadCoils(coils) => seq![
            FC_READ_COILS,
            coil_byte_count(coils.len()) as u8,
        ] + packed_coils(coils),
        ResponseModel::ReadDiscreteInputs(coils) => seq![
            FC_READ_DISCRETE_INPUTS,
            coil_byte_count(coils.len()) as u8,
        ] + packed_coils(coils),
        ResponseModel::WriteSingleCoil(a) => seq![FC_WRITE_SINGLE_COIL, hi(a), lo(a)],
        ResponseModel::WriteMultipleCoils(a, q) => seq![
            FC_WRITE_MULTIPLE_COILS,
            hi(a),
            lo(a),
            hi(q),
            lo(q),
        ],
        ResponseModel::ReadInputRegisters(words) => seq![
            FC_READ_INPUT_REGISTERS,
            (2 * words.len()) as u8,
        ] + packed_words(words),
        ResponseModel::ReadHoldingRegisters(words) => seq![
            FC_READ_HOLDING_REGISTERS,
            (2 * words.len()) as u8,
        ] + packed_words(words),
        ResponseModel::WriteSingleRegister(a, w) => seq![
            FC_WRITE_SINGLE_REGISTER,
            hi(a),
            lo(a),
            hi(w),
            lo(w),
        ],
        ResponseModel::WriteMultipleRegisters(a, q) => seq![
            FC_WRITE_MULTIPLE_REGISTERS,
            hi(a),
            lo(a),
            hi(q),
            lo(q),
        ],
        ResponseModel::ReadWriteMultipleRegisters(words) => seq![
            FC_READ_WRITE_MULTIPLE_REGISTERS,
            (2 * words.len()) as u8,
        ] + packed_words(words),
        ResponseModel::ReadExceptionStatus(s) => seq![FC_READ_EXCEPTION_STATUS, s],
        ResponseModel::Diagnostics(data) => seq![FC_DIAGNOSTICS] + packed_words(data),
        ResponseModel::GetCommEventCounter(st, ec) => seq![
            FC_GET_COMM_EVENT_COUNTER,
            hi(st),
            lo(st),
            hi(ec),
            lo(ec),
        ],
        ResponseModel::GetCommEventLog(st, ec, mc, events) => seq![
            FC_GET_COMM_EVENT_LOG,
            (6 + events.len()) as u8,
            hi(st),
            lo(st),
            hi(ec),
            lo(ec),
            hi(mc),
            lo(mc),
        ] + events,
        ResponseModel::ReportServerId(data, run) => seq![
            FC_REPORT_SERVER_ID,
            (data.len() + 1) as u8,
        ] + data + seq![
            if run {
                0xFFu8
            } else {
                0x00u8
            },
        ],
        ResponseModel::Custom(fc, data) => seq![fc] + data,
    }
}

/// Decoding rules for a response PDU.  A function code with the high bit set
/// announces a one-byte exception code; a read payload is sized by its byte
/// count, so the codec reports what the frame actually contains; an unknown
/// function code below `0x80` decodes to `Custom`.
pub open spec fn decoded_response(b: Seq<u8>) -> DecodedResponse {
    if b.len() < 1 {
        DecodedResponse::Malformed
    } else {
        let fc = b[0];
        if fc >= 0x80 {
            if b.len() == 2 && is_exception_code(b[1]) {
                DecodedResponse::Rejected(spec_exception_from_code(b[1]))
            } else {
                DecodedResponse::Malformed
            }
        } else if fc == FC_READ_COILS || fc == FC_READ_DISCRETE_INPUTS {
            if b.len() >= 2 && b.len() == 2 + b[1] as int {
                if fc == FC_READ_COILS {
                    DecodedResponse::Normal(
                        ResponseModel::ReadCoils(unpacked_coils(b.skip(2), 8 * (b[1] as nat))),
                    )
                } else {
                    DecodedResponse::Normal(
                        ResponseModel::ReadDiscreteInputs(
                            unpacked_coils(b.skip(2), 8 * (b[1] as nat)),
                        ),
                    )
                }
            } else {
                DecodedResponse::Malformed
            }
        } else if fc == FC_READ_HOLDING_REGISTERS || fc == FC_READ_INPUT_REGISTERS || fc
            == FC_READ_WRITE_MULTIPLE_REGISTERS {
            if b.len() >= 2 && b[1] % 2 == 0 && b.len() == 2 + b[1] as int {
                if fc == FC_READ_HOLDING_REGISTERS {
                    DecodedResponse::Normal(
                        ResponseModel::ReadHoldingRegisters(unpacked_words(b.skip(2))),
                    )
                } else if fc == FC_READ_INPUT_REGISTERS {
                    DecodedResponse::Normal(
                        ResponseModel::ReadInputRegisters(unpacked_words(b.skip(2))),
                    )
                } else {
                    DecodedResponse::Normal(
                        ResponseModel::ReadWriteMultipleRegisters(unpacked_words(b.skip(2))),
                    )
                }
            } else {
                DecodedResponse::Malformed
            }
        } else if fc == FC_WRITE_SINGLE_COIL {
            if b.len() == 3 {
                DecodedResponse::Normal(ResponseModel::WriteSingleCoil(be16(b[1], b[2])))
            } else {
                DecodedResponse::Malformed
            }
        } else if fc == FC_WRITE_SINGLE_REGISTER {
            if b.len() == 5 {
                DecodedResponse::Normal(
                    ResponseModel::WriteSingleRegister(be16(b[1], b[2]), be16(b[3], b[4])),
                )
            } else {
                DecodedResponse::Malformed
            }
        } else if fc == FC_WRITE_MULTIPLE_COILS {
            if b.len() == 5 && 1 <= be16(b[3], b[4]) <= MAX_QUANTITY_WRITE_BITS {
                DecodedResponse::Normal(
                    ResponseModel::WriteMultipleCoils(be16(b[1], b[2]), be16(b[3], b[4])),
                )
            } else {
                DecodedResponse::Malformed
            }
        } else if fc == FC_WRITE_MULTIPLE_REGISTERS {
            if b.len() == 5 && 1 <= be16(b[3], b[4]) <= MAX_QUANTITY_WRITE_WORDS {
                DecodedResponse::Normal(
                    ResponseModel::WriteMultipleRegisters(be16(b[1], b[2]), be16(b[3], b[4])),
                )
            } else {
                DecodedResponse::Malformed
            }
        } else if fc == FC_READ_EXCEPTION_STATUS {
            if b.len() == 2 {
                DecodedResponse::Normal(ResponseModel::ReadExceptionStatus(b[1]))
            } else {
                DecodedResponse::Malformed
            }
        } else if fc == FC_DIAGNOSTICS {
            if (b.len() - 1) % 2 == 0 {
                DecodedResponse::Normal(ResponseModel::Diagnostics(unpacked_words(b.skip(1))))
            } else {
                DecodedResponse::Malformed
            }
        } else if fc == FC_GET_COMM_EVENT_COUNTER {
            if b.len() == 5 {
                DecodedResponse::Normal(
                    ResponseModel::GetCommEventCounter(be16(b[1], b[2]), be16(b[3], b[4])),
                )
            } else {
                DecodedResponse::Malformed
            }
        } else if fc == FC_GET_COMM_EVENT_LOG {
            if b.len() >= 8 && b[1] as int == b.len() - 2 {
                DecodedResponse::Normal(
                    ResponseModel::GetCommEventLog(
                        be16(b[2], b[3]),
                        be16(b[4], b[5]),
                        be16(b[6], b[7]),
                        b.skip(8),
                    ),
                )
            } else {
                DecodedResponse::Malformed
            }
        } else if fc == FC_REPORT_SERVER_ID {
            if b.len() >= 3 && b[1] as int == b.len() - 2 && (b[b.len() - 1] == 0xFF || b[b.len()
                - 1] == 0x00) {
                DecodedResponse::Normal(
                    ResponseModel::ReportServerId(
                        b.subrange(2, b.len() - 1),
                        b[b.len() - 1] == 0xFF,
                    ),
                )
            } else {
                DecodedResponse::Malformed
            }
        } else {
            DecodedResponse::Normal(ResponseModel::Custom(fc, b.skip(1)))
        }
    }
}

/// Encodes a response as its PDU byte sequence, or reports
/// `InvariantViolation` when a quantity or length bound of the function is
/// violated.
pub fn encode_response(resp: &Response) -> (r: Result<Vec<u8>, Error>)
    ensures
        match r {
            Ok(out) => response_valid(resp@) && out@ == encoded_response(resp@),
            Err(e) => !response_valid(resp@) && e == Error::InvariantViolation,
        },
{
    match resp {
        Response::ReadCoils(coils) => {
            let n = coils.len();
            if n > 2040 {
                return Err(Error::InvariantViolation);
            }
            let mut out: Vec<u8> = Vec::new();
            out.push(FC_READ_COILS);
            out.push(((n + 7) / 8) as u8);
            push_packed_coils(&mut out, coils.as_slice());
            proof {
                assert(out@ =~= encoded_response(resp@));
            }
            Ok(out)
        },
        Response::ReadDiscreteInputs(coils) => {
            let n = coils.len();
            if n > 2040 {
                return Err(Error::InvariantViolation);
            }
            let mut out: Vec<u8> = Vec::new();
            out.push(FC_READ_DISCRETE_INPUTS);
            out.push(((n + 7) / 8) as u8);
            push_packed_coils(&mut out, coils.as_slice());
            proof {
                assert(out@ =~= encoded_response(resp@));
            }
            Ok(out)
        },
        Response::WriteSingleCoil(a) => {
            let mut out: Vec<u8> = Vec::new();
            out.push(FC_WRITE_SINGLE_COIL);
            push_u16(&mut out, *a);
            proof {
                assert(out@ =~= encoded_response(resp@));
            }
            Ok(out)
        },
        Response::WriteMultipleCoils(a, q) => {
            if *q < 1 || *q > MAX_QUANTITY_WRITE_BITS {
                return Err(Error::InvariantViolation);
            }
            let mut out: Vec<u8> = Vec::new();
            out.push(FC_WRITE_MULTIPLE_COILS);
            push_u16(&mut out, *a);
            push_u16(&mut out, *q);
            proof {
                assert(out@ =~= encoded_response(resp@));
            }
            Ok(out)
        },
        Response::ReadInputRegisters(words) => {
            let n = words.len();
            if n > 127 {
                return Err(Error::InvariantViolation);
            }
            let mut out: Vec<u8> = Vec::new();
            out.push(FC_READ_INPUT_REGISTERS);
            out.push((2 * n) as u8);
            push_packed_words(&mut out, words.as_slice());
            proof {
                assert(out@ =~= encoded_response(resp@));
            }
            Ok(out)
        },
        Response::ReadHoldingRegisters(words) => {
            let n = words.len();
            if n > 127 {
                return Err(Error::InvariantViolation);
            }
            let mut out: Vec<u8> = Vec::new();
            out.push(FC_READ_HOLDING_REGISTERS);
            out.push((2 * n) as u8);
            push_packed_words(&mut out, words.as_slice());
            proof {
                assert(out@ =~= encoded_response(resp@));
            }
            Ok(out)
        },
        Response::WriteSingleRegister(a, w) => {
            let mut out: Vec<u8> = Vec::new();
            out.push(FC_WRITE_SINGLE_REGISTER);
            push_u16(&mut out, *a);
            push_u16(&mut out, *w);
            proof {
                assert(out@ =~= encoded_response(resp@));
            }
            Ok(out)
        },
        Response::WriteMultipleRegisters(a, q) => {
            if *q < 1 || *q > MAX_QUANTITY_WRITE_WORDS {
                return Err(Error::InvariantViolation);
            }
            let mut out: Vec<u8> = Vec::new();
            out.push(FC_WRITE_MULTIPLE_REGISTERS);
            push_u16(&mut out, *a);
            push_u16(&mut out, *q);
            proof {
                assert(out@ =~= encoded_response(resp@));
            }
            Ok(out)
        },
        Response::ReadWriteMultipleRegisters(words) => {
            let n = words.len();
            if n > 127 {
                return Err(Error::InvariantViolation);
            }
            let mut out: Vec<u8> = Vec::new();
            out.push(FC_READ_WRITE_MULTIPLE_REGISTERS);
            out.push((2 * n) as u8);
            push_packed_words(&mut out, words.as_slice());
            proof {
                assert(out@ =~= encoded_response(resp@));
            }
            Ok(out)
        },
        Response::ReadExceptionStatus(s) => {
            let mut out: Vec<u8> = Vec::new();
            out.push(FC_READ_EXCEPTION_STATUS);
            out.push(*s);
            proof {
                assert(out@ =~= encoded_response(resp@));
            }
            Ok(out)
        },
        Response::Diagnostics(data) => {
            let mut out: Vec<u8> = Vec::new();
            out.push(FC_DIAGNOSTICS);
            push_packed_words(&mut out, data.as_slice());
            proof {
                assert(out@ =~= encoded_response(resp@));
            }
            Ok(out)
        },
        Response::GetCommEventCounter(st, ec) => {
            let mut out: Vec<u8> = Vec::new();
            out.push(FC_GET_COMM_EVENT_COUNTER);
            push_u16(&mut out, *st);
            push_u16(&mut out, *ec);
            proof {
                assert(out@ =~= encoded_response(resp@));
            }
            Ok(out)
        },
        Response::GetCommEventLog(st, ec, mc, events) => {
            let n = events.len();
            if n > 249 {
                return Err(Error::InvariantViolation);
            }
            let mut out: Vec<u8> = Vec::new();
            out.push(FC_GET_COMM_EVENT_LOG);
            out.push((6 + n) as u8);
            push_u16(&mut out, *st);
            push_u16(&mut out, *ec);
            push_u16(&mut out, *mc);
            push_bytes(&mut out, events.as_slice());
            proof {
                assert(out@ =~= encoded_response(resp@));
            }
            Ok(out)
        },
        Response::ReportServerId(data, run) => {
            let n = data.len();
            if n > 254 {
                return Err(Error::InvariantViolation);
            }
            let mut out: Vec<u8> = Vec::new();
            out.push(FC_REPORT_SERVER_ID);
            out.push((n + 1) as u8);
            push_bytes(&mut out, data.as_slice());
            out.push(if *run { 0xFF } else { 0x00 });
            proof {
                assert(out@ =~= encoded_response(resp@));
            }
            Ok(out)
        },
        Response::Custom(fc, data) => {
            let mut out: Vec<u8> = Vec::new();
            out.push(*fc);
            push_bytes(&mut out, data.as_slice());
            proof {
                assert(out@ =~= encoded_response(resp@));
            }
            Ok(out)
        },
    }
}

/// Decodes a response PDU.  A server exception is surfaced as
/// `Error::ServerException`, distinct from both a successful decode and
/// `Error::MalformedFrame`.
pub fn decode_response(b: &[u8]) -> (r: Result<Response, Error>)
    ensures
        match r {
            Ok(resp) => decoded_response(b@) == DecodedResponse::Normal(resp@),
            Err(Error::ServerException(e)) => decoded_response(b@) == DecodedResponse::Rejected(e),
            Err(Error::MalformedFrame) => decoded_response(b@) == DecodedResponse::Malformed,
            Err(_) => false,
        },
{
    let len = b.len();
    if len < 1 {
        return Err(Error::MalformedFrame);
    }
    let fc = b[0];
    if fc >= 0x80 {
        if len == 2 {
            match Exception::from_code(b[1]) {
                Some(e) => Err(Error::ServerException(e)),
                None => Err(Error::MalformedFrame),
            }
        } else {
            Err(Error::MalformedFrame)
        }
    } else if fc == FC_READ_COILS || fc == FC_READ_DISCRETE_INPUTS {
        if len >= 2 && len == 2 + b[1] as usize {
            let bc = b[1] as usize;
            proof {
                assert((8 * bc + 7) / 8 == bc as int);
            }
            let coils = read_packed_coils(b, 2, 8 * bc);
            if fc == FC_READ_COILS {
                Ok(Response::ReadCoils(coils))
            } else {
                Ok(Response::ReadDiscreteInputs(coils))
            }
        } else {
            Err(Error::MalformedFrame)
        }
    } else if fc == FC_READ_HOLDING_REGISTERS || fc == FC_READ_INPUT_REGISTERS || fc
        == FC_READ_WRITE_MULTIPLE_REGISTERS {
        if len >= 2 && b[1] % 2 == 0 && len == 2 + b[1] as usize {
            let bc = b[1] as usize;
            let words = read_packed_words(b, 2, bc / 2);
            proof {
                assert(b@.subrange(2, 2 + 2 * ((bc / 2) as int)) =~= b@.skip(2));
            }
            if fc == FC_READ_HOLDING_REGISTERS {
                Ok(Response::ReadHoldingRegisters(words))
            } else if fc == FC_READ_INPUT_REGISTERS {
                Ok(Response::ReadInputRegisters(words))
            } else {
                Ok(Response::ReadWriteMultipleRegisters(words))
            }
        } else {
            Err(Error::MalformedFrame)
        }
    } else if fc == FC_WRITE_SINGLE_COIL {
        if len == 3 {
            Ok(Response::WriteSingleCoil(read_u16(b, 1)))
        } else {
            Err(Error::MalformedFrame)
        }
    } else if fc == FC_WRITE_SINGLE_REGISTER {
        if len == 5 {
            Ok(Response::WriteSingleRegister(read_u16(b, 1), read_u16(b, 3)))
        } else {
            Err(Error::MalformedFrame)
        }
    } else if fc == FC_WRITE_MULTIPLE_COILS {
        if len == 5 {
            let q = read_u16(b, 3);
            if 1 <= q && q <= MAX_QUANTITY_WRITE_BITS {
                Ok(Response::WriteMultipleCoils(read_u16(b, 1), q))
            } else {
                Err(Error::MalformedFrame)
            }
        } else {
            Err(Error::MalformedFrame)
        }
    } else if fc == FC_WRITE_MULTIPLE_REGISTERS {
        if len == 5 {
            let q = read_u16(b, 3);
            if 1 <= q && q <= MAX_QUANTITY_WRITE_WORDS {
                Ok(Response::WriteMultipleRegisters(read_u16(b, 1), q))
            } else {
                Err(Error::MalformedFrame)
            }
        } else {
            Err(Error::MalformedFrame)
        }
    } else if fc == FC_READ_EXCEPTION_STATUS {
        if len == 2 {
            Ok(Response::ReadExceptionStatus(b[1]))
        } else {
            Err(Error::MalformedFrame)
        }
    } else if fc == FC_DIAGNOSTICS {
        if (len - 1) % 2 == 0 {
            let data = read_packed_words(b, 1, (len - 1) / 2);
            proof {
                assert(b@.subrange(1, 1 + 2 * (((len - 1) / 2) as int)) =~= b@.skip(1));
            }
            Ok(Response::Diagnostics(data))
        } else {
            Err(Error::MalformedFrame)
        }
    } else if fc == FC_GET_COMM_EVENT_COUNTER {
        if len == 5 {
            Ok(Response::GetCommEventCounter(read_u16(b, 1), read_u16(b, 3)))
        } else {
            Err(Error::MalformedFrame)
        }
    } else if fc == FC_GET_COMM_EVENT_LOG {
        if len >= 8 && b[1] as usize == len - 2 {
            let events = copy_range(b, 8, len);
            proof {
                assert(b@.subrange(8, len as int) =~= b@.skip(8));
            }
            Ok(Response::GetCommEventLog(read_u16(b, 2), read_u16(b, 4), read_u16(b, 6), events))
        } else {
            Err(Error::MalformedFrame)
        }
    } else if fc == FC_REPORT_SERVER_ID {
        if len >= 3 && b[1] as usize == len - 2 {
            let last = b[len - 1];
            if last == 0xFF || last == 0x00 {
                let data = copy_range(b, 2, len - 1);
                Ok(Response::ReportServerId(data, last == 0xFF))
            } else {
                Err(Error::MalformedFrame)
            }
        } else {
            Err(Error::MalformedFrame)
        }
    } else {
        let data = copy_range(b, 1, len);
        proof {
            assert(b@.subrange(1, len as int) =~= b@.skip(1));
        }
        Ok(Response::Custom(fc, data))
    }
}

/// Every response the decoder accepts meets the encode-time bounds: decoding
/// validates the ranges and byte counts of each function, so a decoded
/// response can always be encoded again.
pub proof fn lemma_decoded_response_valid(b: Seq<u8>, m: ResponseModel)
    requires
        decoded_response(b) == DecodedResponse::Normal(m),
    ensures
        response_valid(m),
{
}

/// Decoding an encoded response restores it.  Coil read responses round-trip
/// when their coil count is a whole number of bytes: the wire carries only a
/// byte count, so a decoder necessarily reports every padding bit of the last
/// byte.  A `Custom` response round-trips as long as its function code is not
/// one that a typed variant claims and stays below the exception bit.
pub proof fn lemma_response_round_trip(m: ResponseModel)
    requires
        response_valid(m),
        m matches ResponseModel::ReadCoils(coils) ==> coils.len() % 8 == 0,
        m matches ResponseModel::ReadDiscreteInputs(coils) ==> coils.len() % 8 == 0,
        m matches ResponseModel::Custom(fc, _) ==> !is_response_function_code(fc) && fc < 0x80,
    ensures
        decoded_response(encoded_response(m)) == DecodedResponse::Normal(m),
{
    let e = encoded_response(m);
    match m {
        ResponseModel::ReadCoils(coils) => {
            let n = coils.len();
            assert(coil_byte_count(n) == n / 8);
            assert(e.len() == 2 + n / 8);
            assert(e.skip(2) =~= packed_coils(coils));
            assert(8 * (n / 8) == n);
            lemma_coils_round_trip(coils);
        },
        ResponseModel::ReadDiscreteInputs(coils) => {
            let n = coils.len();
            assert(coil_byte_count(n) == n / 8);
            assert(e.len() == 2 + n / 8);
            assert(e.skip(2) =~= packed_coils(coils));
            assert(8 * (n / 8) == n);
            lemma_coils_round_trip(coils);
        },
        ResponseModel::WriteSingleCoil(a) => {
            lemma_be16_split(a);
        },
        ResponseModel::WriteMultipleCoils(a, q) => {
            lemma_be16_split(a);
            lemma_be16_split(q);
        },
        ResponseModel::ReadInputRegisters(words) => {
            assert(e.len() == 2 + 2 * words.len());
            assert(e.skip(2) =~= packed_words(words));
            lemma_words_round_trip(words);
        },
        ResponseModel::ReadHoldingRegisters(words) => {
            assert(e.len() == 2 + 2 * words.len());
            assert(e.skip(2) =~= packed_words(words));
            lemma_words_round_trip(words);
        },
        ResponseModel::WriteSingleRegister(a, w) => {
            lemma_be16_split(a);
            lemma_be16_split(w);
        },
        ResponseModel::WriteMultipleRegisters(a, q) => {
            lemma_be16_split(a);
            lemma_be16_split(q);
        },
        ResponseModel::ReadWriteMultipleRegisters(words) => {
            assert(e.len() == 2 + 2 * words.len());
            assert(e.skip(2) =~= packed_words(words));
            lemma_words_round_trip(words);
        },
        ResponseModel::ReadExceptionStatus(_) => {},
        ResponseModel::Diagnostics(data) => {
            assert(e.len() == 1 + 2 * data.len());
            assert(e.skip(1) =~= packed_words(data));
            lemma_words_round_trip(data);
        },
        ResponseModel::GetCommEventCounter(st, ec) => {
            lemma_be16_split(st);
            lemma_be16_split(ec);
        },
        ResponseModel::GetCommEventLog(st, ec, mc, events) => {
            lemma_be16_split(st);
            lemma_be16_split(ec);
            lemma_be16_split(mc);
            assert(e.len() == 8 + events.len());
            assert(e.skip(8) =~= events);
        },
        ResponseModel::ReportServerId(data, run) => {
            assert(e.len() == 3 + data.len());
            assert(e[e.len() - 1] == (if run {
                0xFFu8
            } else {
                0x00u8
            }));
            assert(e.subrange(2, e.len() - 1) =~= data);
        },
        ResponseModel::Custom(fc, data) => {
            assert(e.skip(1) =~= data);
        },
    }
}

} // verus!

