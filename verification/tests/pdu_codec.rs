//! Tests of the PDU codec: per-function layouts, bounds, bit packing,
//! exception distinction, and round trips on concrete values.

use modbus_core::pdu::{decode_request, decode_response, encode_request, encode_response};
use modbus_core::{Error, Exception, Request, Response};

#[test]
fn read_holding_registers_bounds() {
    assert_eq!(
        encode_request(&Request::ReadHoldingRegisters(0x0102, 0)),
        Err(Error::InvariantViolation)
    );
    assert_eq!(
        encode_request(&Request::ReadHoldingRegisters(0x0102, 126)),
        Err(Error::InvariantViolation)
    );
    assert_eq!(
        encode_request(&Request::ReadHoldingRegisters(0x0102, 125)),
        Ok(vec![0x03, 0x01, 0x02, 0x00, 0x7D])
    );
}

#[test]
fn read_coils_bounds() {
    assert_eq!(
        encode_request(&Request::ReadCoils(0, 0)),
        Err(Error::InvariantViolation)
    );
    assert_eq!(
        encode_request(&Request::ReadCoils(0, 2001)),
        Err(Error::InvariantViolation)
    );
    assert_eq!(
        encode_request(&Request::ReadCoils(0x0014, 2000)),
        Ok(vec![0x01, 0x00, 0x14, 0x07, 0xD0])
    );
}

#[test]
fn write_multiple_coils_bit_packing() {
    let coils = vec![true, false, true, false, false, true, false, false, true];
    let encoded = encode_request(&Request::WriteMultipleCoils(0, coils)).unwrap();
    // function code, address, quantity 9, byte count 2, payload LSB-first
    assert_eq!(encoded, vec![0x0F, 0x00, 0x00, 0x00, 0x09, 0x02, 0x25, 0x01]);
    assert_eq!(encoded[5], 2);
    assert_eq!(&encoded[6..], &[0x25, 0x01]);
}

#[test]
fn write_multiple_coils_bounds() {
    assert_eq!(
        encode_request(&Request::WriteMultipleCoils(0, vec![])),
        Err(Error::InvariantViolation)
    );
    assert_eq!(
        encode_request(&Request::WriteMultipleCoils(0, vec![false; 1969])),
        Err(Error::InvariantViolation)
    );
    assert!(encode_request(&Request::WriteMultipleCoils(0, vec![false; 1968])).is_ok());
}

#[test]
fn write_multiple_registers_bounds() {
    assert_eq!(
        encode_request(&Request::WriteMultipleRegisters(0, vec![])),
        Err(Error::InvariantViolation)
    );
    assert_eq!(
        encode_request(&Request::WriteMultipleRegisters(0, vec![0; 124])),
        Err(Error::InvariantViolation)
    );
    assert_eq!(
        encode_request(&Request::WriteMultipleRegisters(1, vec![0xABCD, 0x0102])),
        Ok(vec![0x10, 0x00, 0x01, 0x00, 0x02, 0x04, 0xAB, 0xCD, 0x01, 0x02])
    );
}

#[test]
fn write_single_coil_layout() {
    assert_eq!(
        encode_request(&Request::WriteSingleCoil(0x00AC, true)),
        Ok(vec![0x05, 0x00, 0xAC, 0xFF, 0x00])
    );
    assert_eq!(
        encode_request(&Request::WriteSingleCoil(0x00AC, false)),
        Ok(vec![0x05, 0x00, 0xAC, 0x00, 0x00])
    );
}

#[test]
fn exception_distinction() {
    // a syntactically valid exception response is a server exception, not a
    // malformed frame
    assert_eq!(
        decode_response(&[0x83, 0x02]),
        Err(Error::ServerException(Exception::IllegalDataAddress))
    );
    // an exception response with a code outside the standard nine is malformed
    assert_eq!(decode_response(&[0x83, 0x07]), Err(Error::MalformedFrame));
    // wrong length is malformed too
    assert_eq!(decode_response(&[0x83]), Err(Error::MalformedFrame));
    assert_eq!(decode_response(&[0x83, 0x02, 0x00]), Err(Error::MalformedFrame));
}

#[test]
fn custom_fallback() {
    assert_eq!(
        decode_request(&[0x2B, 0xDE, 0xAD]),
        Ok(Request::Custom(0x2B, vec![0xDE, 0xAD]))
    );
    assert_eq!(
        decode_response(&[0x2B, 0x01]),
        Ok(Response::Custom(0x2B, vec![0x01]))
    );
    assert_eq!(
        encode_request(&Request::Custom(0x2B, vec![0xDE, 0xAD])),
        Ok(vec![0x2B, 0xDE, 0xAD])
    );
}

#[test]
fn request_round_trips() {
    let requests = vec![
        Request::ReadCoils(0x0102, 1),
        Request::ReadCoils(0xFFFF, 2000),
        Request::ReadDiscreteInputs(7, 19),
        Request::WriteSingleCoil(0x0304, true),
        Request::WriteSingleCoil(0x0304, false),
        Request::WriteMultipleCoils(3, vec![true]),
        Request::WriteMultipleCoils(3, vec![true, true, false, true, false, false, false, true, true, false]),
        Request::ReadInputRegisters(0x1000, 125),
        Request::ReadHoldingRegisters(0, 1),
        Request::WriteSingleRegister(0xABCD, 0xEF01),
        Request::WriteMultipleRegisters(0x0102, vec![0xDEAD, 0xBEEF, 0x0001]),
        Request::ReadWriteMultipleRegisters(0x0001, 5, 0x0100, vec![0x1234]),
        Request::ReadExceptionStatus,
        Request::Diagnostics(0x0000, vec![0xA537]),
        Request::Diagnostics(0x000A, vec![]),
        Request::GetCommEventCounter,
        Request::GetCommEventLog,
        Request::ReportServerId,
        Request::Custom(0x2B, vec![0x0E, 0x01, 0x00]),
        Request::Custom(0x65, vec![]),
    ];
    for req in requests {
        let encoded = encode_request(&req).unwrap();
        assert_eq!(decode_request(&encoded), Ok(req.clone()));
    }
}

#[test]
fn response_round_trips() {
    let responses = vec![
        Response::ReadCoils(vec![true, false, true, false, false, true, false, false]),
        Response::ReadCoils(vec![]),
        Response::ReadDiscreteInputs(vec![false; 16]),
        Response::WriteSingleCoil(0x00AC),
        Response::WriteMultipleCoils(0x0002, 10),
        Response::ReadInputRegisters(vec![0xAA55, 0x0000, 0xFFFF]),
        Response::ReadHoldingRegisters(vec![0x552A, 0x0000]),
        Response::WriteSingleRegister(0x0001, 0x0003),
        Response::WriteMultipleRegisters(0x0001, 2),
        Response::ReadWriteMultipleRegisters(vec![0x00FE, 0x0ACD, 0x0001]),
        Response::ReadExceptionStatus(0x6D),
        Response::Diagnostics(vec![0xA537, 0x0001]),
        Response::GetCommEventCounter(0xFFFF, 0x0108),
        Response::GetCommEventLog(0x0000, 0x0108, 0x0121, vec![0x20, 0x00]),
        Response::ReportServerId(vec![0x11, 0x22, 0x33], true),
        Response::ReportServerId(vec![0x42], false),
        Response::Custom(0x2B, vec![0x0E, 0x01]),
    ];
    for resp in responses {
        let encoded = encode_response(&resp).unwrap();
        assert_eq!(decode_response(&encoded), Ok(resp.clone()));
    }
}

#[test]
fn read_coils_response_reports_frame_contents() {
    // the wire carries a byte count, so the decoder reports all its bits,
    // padding included
    let decoded = decode_response(&[0x01, 0x02, 0x25, 0x01]).unwrap();
    assert_eq!(
        decoded,
        Response::ReadCoils(vec![
            true, false, true, false, false, true, false, false, true, false, false, false,
            false, false, false, false,
        ])
    );
}

#[test]
fn response_encode_bounds() {
    assert_eq!(
        encode_response(&Response::ReadCoils(vec![false; 2041])),
        Err(Error::InvariantViolation)
    );
    assert_eq!(
        encode_response(&Response::ReadHoldingRegisters(vec![0; 128])),
        Err(Error::InvariantViolation)
    );
    assert_eq!(
        encode_response(&Response::WriteMultipleCoils(0, 0)),
        Err(Error::InvariantViolation)
    );
    assert_eq!(
        encode_response(&Response::WriteMultipleRegisters(0, 124)),
        Err(Error::InvariantViolation)
    );
    assert_eq!(
        encode_response(&Response::GetCommEventLog(0, 0, 0, vec![0; 250])),
        Err(Error::InvariantViolation)
    );
    assert_eq!(
        encode_response(&Response::ReportServerId(vec![0; 255], true)),
        Err(Error::InvariantViolation)
    );
}

#[test]
fn malformed_requests() {
    assert_eq!(decode_request(&[]), Err(Error::MalformedFrame));
    // truncated read request
    assert_eq!(decode_request(&[0x03, 0x00, 0x00, 0x00]), Err(Error::MalformedFrame));
    // quantity out of range on the wire
    assert_eq!(
        decode_request(&[0x03, 0x00, 0x00, 0x00, 0x7E]),
        Err(Error::MalformedFrame)
    );
    // write single coil with a value that is neither 0xFF00 nor 0x0000
    assert_eq!(
        decode_request(&[0x05, 0x00, 0x00, 0x12, 0x00]),
        Err(Error::MalformedFrame)
    );
    // byte count inconsistent with the quantity
    assert_eq!(
        decode_request(&[0x0F, 0x00, 0x00, 0x00, 0x09, 0x01, 0x25]),
        Err(Error::MalformedFrame)
    );
    // byte count inconsistent with the remaining bytes
    assert_eq!(
        decode_request(&[0x0F, 0x00, 0x00, 0x00, 0x09, 0x02, 0x25]),
        Err(Error::MalformedFrame)
    );
    // a function with no payload must come alone
    assert_eq!(decode_request(&[0x07, 0x00]), Err(Error::MalformedFrame));
}

#[test]
fn malformed_responses() {
    assert_eq!(decode_response(&[]), Err(Error::MalformedFrame));
    // register payload with an odd byte count
    assert_eq!(
        decode_response(&[0x03, 0x03, 0x00, 0x00, 0x00]),
        Err(Error::MalformedFrame)
    );
    // byte count disagrees with the remaining bytes
    assert_eq!(decode_response(&[0x01, 0x02, 0x25]), Err(Error::MalformedFrame));
    // echoed quantity out of range
    assert_eq!(
        decode_response(&[0x10, 0x00, 0x00, 0x00, 0x7C]),
        Err(Error::MalformedFrame)
    );
    // report server id whose run indicator is neither 0xFF nor 0x00
    assert_eq!(
        decode_response(&[0x11, 0x02, 0x42, 0x55]),
        Err(Error::MalformedFrame)
    );
}

#[test]
fn exception_codes_and_descriptions() {
    let all = [
        (Exception::IllegalFunction, 0x01, "Illegal function"),
        (Exception::IllegalDataAddress, 0x02, "Illegal data address"),
        (Exception::IllegalDataValue, 0x03, "Illegal data value"),
        (Exception::ServerDeviceFailure, 0x04, "Server device failure"),
        (Exception::Acknowledge, 0x05, "Acknowledge"),
        (Exception::ServerDeviceBusy, 0x06, "Server device busy"),
        (Exception::MemoryParityError, 0x08, "Memory parity error"),
        (Exception::GatewayPathUnavailable, 0x0A, "Gateway path unavailable"),
        (
            Exception::GatewayTargetDevice,
            0x0B,
            "Gateway target device failed to respond",
        ),
    ];
    for (e, code, desc) in all {
        assert_eq!(e.code(), code);
        assert_eq!(Exception::from_code(code), Some(e));
        assert_eq!(e.description(), desc);
    }
    assert_eq!(Exception::from_code(0x07), None);
    assert_eq!(Exception::from_code(0x00), None);
    assert_eq!(Exception::from_code(0x0C), None);
}
