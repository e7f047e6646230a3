//! Tests of the RTU frame codec: the CRC16 reference vector, frame layout,
//! checksum rejection of corrupted frames, and whole-stack round trips.

use modbus_core::crc::compute_crc16;
use modbus_core::pdu::{decode_request, decode_response, encode_request, encode_response};
use modbus_core::rtu::{decode_frame, encode_frame};
use modbus_core::{Error, Exception, Request, Response};

#[test]
fn crc_reference_vector() {
    // the reference sequence of the Modbus standard: a read-holding-registers
    // request to station 1
    assert_eq!(compute_crc16(&[0x01, 0x03, 0x00, 0x00, 0x00, 0x0A]), 0xCDC5);
}

#[test]
fn frame_known_bytes() {
    // CRC is appended low byte first
    assert_eq!(
        encode_frame(0x01, &[0x03, 0x00, 0x00, 0x00, 0x0A]),
        vec![0x01, 0x03, 0x00, 0x00, 0x00, 0x0A, 0xC5, 0xCD]
    );
}

#[test]
fn frame_round_trip() {
    let pdu = vec![0x03, 0x00, 0x6B, 0x00, 0x03];
    let frame = encode_frame(0x11, &pdu);
    assert_eq!(decode_frame(&frame), Ok((0x11, pdu)));
}

#[test]
fn frame_too_short() {
    assert_eq!(decode_frame(&[]), Err(Error::MalformedFrame));
    assert_eq!(decode_frame(&[0x01]), Err(Error::MalformedFrame));
    assert_eq!(decode_frame(&[0x01, 0x03, 0xFF]), Err(Error::MalformedFrame));
}

#[test]
fn checksum_rejection_of_every_bit_flip() {
    let frame = encode_frame(0x01, &[0x03, 0x00, 0x00, 0x00, 0x0A]);
    // flipping any single bit of the body (address or payload) must be
    // rejected, deterministically
    for i in 0..frame.len() - 2 {
        for bit in 0..8 {
            let mut corrupt = frame.clone();
            corrupt[i] ^= 1u8 << bit;
            assert_eq!(decode_frame(&corrupt), Err(Error::ChecksumMismatch));
        }
    }
    // a bit flip inside the transmitted CRC itself is also caught
    for i in frame.len() - 2..frame.len() {
        for bit in 0..8 {
            let mut corrupt = frame.clone();
            corrupt[i] ^= 1u8 << bit;
            assert_eq!(decode_frame(&corrupt), Err(Error::ChecksumMismatch));
        }
    }
}

#[test]
fn request_through_frame_round_trip() {
    let req = Request::WriteMultipleRegisters(0x0001, vec![0x000A, 0x0102]);
    let pdu = encode_request(&req).unwrap();
    let frame = encode_frame(0x2A, &pdu);
    let (address, stripped) = decode_frame(&frame).unwrap();
    assert_eq!(address, 0x2A);
    assert_eq!(decode_request(&stripped), Ok(req));
}

#[test]
fn response_through_frame_round_trip() {
    let resp = Response::ReadHoldingRegisters(vec![0xAE41, 0x5652, 0x4340]);
    let pdu = encode_response(&resp).unwrap();
    let frame = encode_frame(0x11, &pdu);
    let (address, stripped) = decode_frame(&frame).unwrap();
    assert_eq!(address, 0x11);
    assert_eq!(decode_response(&stripped), Ok(resp));
}

#[test]
fn exception_through_frame() {
    // a server exception framed for station 10: function 0x84 with code 0x02
    let frame = encode_frame(0x0A, &[0x84, 0x02]);
    let (address, stripped) = decode_frame(&frame).unwrap();
    assert_eq!(address, 0x0A);
    assert_eq!(
        decode_response(&stripped),
        Err(Error::ServerException(Exception::IllegalDataAddress))
    );
}

#[test]
fn custom_function_through_frame() {
    // an unrecognized function code degrades to Custom rather than failing
    let frame = encode_frame(0x01, &[0x2B, 0x0E, 0x01, 0x00]);
    let (_, stripped) = decode_frame(&frame).unwrap();
    assert_eq!(
        decode_response(&stripped),
        Ok(Response::Custom(0x2B, vec![0x0E, 0x01, 0x00]))
    );
}
