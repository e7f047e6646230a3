//! A codec for the Modbus application protocol.
//!
//! The crate translates typed requests and responses into the exact byte
//! sequences exchanged on a Modbus link, and back: the PDU (protocol data
//! unit) codec in [`pdu`], and the RTU frame codec, which wraps a PDU with a
//! station address and a CRC16 checksum, in [`rtu`].
#![allow(unused_imports)]
use vstd::prelude::*;

pub mod bytes;
pub mod crc;
pub mod pdu;
pub mod rtu;

verus! {

/// A Modbus function code is represented by an unsigned 8 bit integer.
pub type FunctionCode = u8;

/// A Modbus sub-function code is represented by an unsigned 16 bit integer.
pub type SubFunctionCode = u16;

/// A Modbus address is represented by 16 bit (from `0` to `65535`).
pub type Address = u16;

/// A coil represents a single bit.
///
/// - `true` is equivalent to `ON`, `1` and `0xFF00`.
/// - `false` is equivalent to `OFF`, `0` and `0x0000`.
pub type Coil = bool;

/// Modbus uses 16 bit for its data items (big-endian representation).
pub type Word = u16;

/// Number of items to process (`0` - `65535`).
pub type Quantity = u16;

/// A request represents a message from the client (master) to the server
/// (slave).
///
/// Variable-length payloads are owned vectors; their mathematical view is the
/// corresponding [`RequestModel`] with `Seq` payloads.
#[derive(Debug, Clone, PartialEq, Eq)]
pub enum Request {
    ReadCoils(Address, Quantity),
    ReadDiscreteInputs(Address, Quantity),
    WriteSingleCoil(Address, Coil),
    WriteMultipleCoils(Address, Vec<Coil>),
    ReadInputRegisters(Address, Quantity),
    ReadHoldingRegisters(Address, Quantity),
    WriteSingleRegister(Address, Word),
    WriteMultipleRegisters(Address, Vec<Word>),
    ReadWriteMultipleRegisters(Address, Quantity, Address, Vec<Word>),
    ReadExceptionStatus,
    Diagnostics(SubFunctionCode, Vec<Word>),
    GetCommEventCounter,
    GetCommEventLog,
    ReportServerId,
    Custom(FunctionCode, Vec<u8>),
}

/// The response data of a successful request.
#[derive(Debug, Clone, PartialEq, Eq)]
pub enum Response {
    ReadCoils(Vec<Coil>),
    ReadDiscreteInputs(Vec<Coil>),
    WriteSingleCoil(Address),
    WriteMultipleCoils(Address, Quantity),
    ReadInputRegisters(Vec<Word>),
    ReadHoldingRegisters(Vec<Word>),
    WriteSingleRegister(Address, Word),
    WriteMultipleRegisters(Address, Quantity),
    ReadWriteMultipleRegisters(Vec<Word>),
    ReadExceptionStatus(u8),
    Diagnostics(Vec<Word>),
    GetCommEventCounter(Word, Word),
    GetCommEventLog(Word, Word, Word, Vec<u8>),
    ReportServerId(Vec<u8>, bool),
    Custom(FunctionCode, Vec<u8>),
}

/// The mathematical model of a [`Request`]: the same variants, with sequences
/// in place of vectors.  Contracts and codec specifications speak of this
/// type.
pub enum RequestModel {
    ReadCoils(Address, Quantity),
    ReadDiscreteInputs(Address, Quantity),
    WriteSingleCoil(Address, Coil),
    WriteMultipleCoils(Address, Seq<Coil>),
    ReadInputRegisters(Address, Quantity),
    ReadHoldingRegisters(Address, Quantity),
    WriteSingleRegister(Address, Word),
    WriteMultipleRegisters(Address, Seq<Word>),
    ReadWriteMultipleRegisters(Address, Quantity, Address, Seq<Word>),
    ReadExceptionStatus,
    Diagnostics(SubFunctionCode, Seq<Word>),
    GetCommEventCounter,
    GetCommEventLog,
    ReportServerId,
    Custom(FunctionCode, Seq<u8>),
}

/// The mathematical model of a [`Response`].
pub enum ResponseModel {
    ReadCoils(Seq<Coil>),
    ReadDiscreteInputs(Seq<Coil>),
    WriteSingleCoil(Address),
    WriteMultipleCoils(Address, Quantity),
    ReadInputRegisters(Seq<Word>),
    ReadHoldingRegisters(Seq<Word>),
    WriteSingleRegister(Address, Word),
    WriteMultipleRegisters(Address, Quantity),
    ReadWriteMultipleRegisters(Seq<Word>),
    ReadExceptionStatus(u8),
    Diagnostics(Seq<Word>),
    GetCommEventCounter(Word, Word),
    GetCommEventLog(Word, Word, Word, Seq<u8>),
    ReportServerId(Seq<u8>, bool),
    Custom(FunctionCode, Seq<u8>),
}

impl View for Request {
    type V = RequestModel;

    open spec fn view(&self) -> RequestModel {
        match self {
            Request::ReadCoils(a, q) => RequestModel::ReadCoils(*a, *q),
            Request::ReadDiscreteInputs(a, q) => RequestModel::ReadDiscreteInputs(*a, *q),
            Request::WriteSingleCoil(a, c) => RequestModel::WriteSingleCoil(*a, *c),
            Request::WriteMultipleCoils(a, coils) => RequestModel::WriteMultipleCoils(
                *a,
                coils@,
            ),
            Request::ReadInputRegisters(a, q) => RequestModel::ReadInputRegisters(*a, *q),
            Request::ReadHoldingRegisters(a, q) => RequestModel::ReadHoldingRegisters(*a, *q),
            Request::WriteSingleRegister(a, w) => RequestModel::WriteSingleRegister(*a, *w),
            Request::WriteMultipleRegisters(a, words) => RequestModel::WriteMultipleRegisters(
                *a,
                words@,
            ),
            Request::ReadWriteMultipleRegisters(ra, rq, wa, words) => {
                RequestModel::ReadWriteMultipleRegisters(*ra, *rq, *wa, words@)
            },
            Request::ReadExceptionStatus => RequestModel::ReadExceptionStatus,
            Request::Diagnostics(sub, data) => RequestModel::Diagnostics(*sub, data@),
            Request::GetCommEventCounter => RequestModel::GetCommEventCounter,
            Request::GetCommEventLog => RequestModel::GetCommEventLog,
            Request::ReportServerId => RequestModel::ReportServerId,
            Request::Custom(fc, data) => RequestModel::Custom(*fc, data@),
        }
    }
}

impl View for Response {
    type V = ResponseModel;

    open spec fn view(&self) -> ResponseModel {
        match self {
            Response::ReadCoils(coils) => ResponseModel::ReadCoils(coils@),
            Response::ReadDiscreteInputs(coils) => ResponseModel::ReadDiscreteInputs(coils@),
            Response::WriteSingleCoil(a) => ResponseModel::WriteSingleCoil(*a),
            Response::WriteMultipleCoils(a, q) => ResponseModel::WriteMultipleCoils(*a, *q),
            Response::ReadInputRegisters(words) => ResponseModel::ReadInputRegisters(words@),
            Response::ReadHoldingRegisters(words) => ResponseModel::ReadHoldingRegisters(words@),
            Response::WriteSingleRegister(a, w) => ResponseModel::WriteSingleRegister(*a, *w),
            Response::WriteMultipleRegisters(a, q) => ResponseModel::WriteMultipleRegisters(
                *a,
                *q,
            ),
            Response::ReadWriteMultipleRegisters(words) => {
                ResponseModel::ReadWriteMultipleRegisters(words@)
            },
            Response::ReadExceptionStatus(s) => ResponseModel::ReadExceptionStatus(*s),
            Response::Diagnostics(data) => ResponseModel::Diagnostics(data@),
            Response::GetCommEventCounter(st, ec) => ResponseModel::GetCommEventCounter(*st, *ec),
            Response::GetCommEventLog(st, ec, mc, events) => ResponseModel::GetCommEventLog(
                *st,
                *ec,
                *mc,
                events@,
            ),
            Response::ReportServerId(data, run) => ResponseModel::ReportServerId(data@, *run),
            Response::Custom(fc, data) => ResponseModel::Custom(*fc, data@),
        }
    }
}

/// A server (slave) exception: one of the nine standard Modbus exception
/// codes.
#[derive(Debug, Clone, Copy, PartialEq, Eq, Structural)]
pub enum Exception {
    IllegalFunction,
    IllegalDataAddress,
    IllegalDataValue,
    ServerDeviceFailure,
    Acknowledge,
    ServerDeviceBusy,
    MemoryParityError,
    GatewayPathUnavailable,
    GatewayTargetDevice,
}

/// True exactly on the nine numeric codes of the standard exceptions
/// (`0x01` - `0x0B`, non-contiguous).
pub open spec fn is_exception_code(c: u8) -> bool {
    c == 0x01 || c == 0x02 || c == 0x03 || c == 0x04 || c == 0x05 || c == 0x06 || c == 0x08
        || c == 0x0A || c == 0x0B
}

/// The exception whose numeric code is `c`, for the nine standard codes.
pub open spec fn spec_exception_from_code(c: u8) -> Exception {
    if c == 0x01 {
        Exception::IllegalFunction
    } else if c == 0x02 {
        Exception::IllegalDataAddress
    } else if c == 0x03 {
        Exception::IllegalDataValue
    } else if c == 0x04 {
        Exception::ServerDeviceFailure
    } else if c == 0x05 {
        Exception::Acknowledge
    } else if c == 0x06 {
        Exception::ServerDeviceBusy
    } else if c == 0x08 {
        Exception::MemoryParityError
    } else if c == 0x0A {
        Exception::GatewayPathUnavailable
    } else {
        Exception::GatewayTargetDevice
    }
}

impl Exception {
    /// The numeric code of this exception on the wire.
    pub open spec fn spec_code(self) -> u8 {
        match self {
            Exception::IllegalFunction => 0x01,
            Exception::IllegalDataAddress => 0x02,
            Exception::IllegalDataValue => 0x03,
            Exception::ServerDeviceFailure => 0x04,
            Exception::Acknowledge => 0x05,
            Exception::ServerDeviceBusy => 0x06,
            Exception::MemoryParityError => 0x08,
            Exception::GatewayPathUnavailable => 0x0A,
            Exception::GatewayTargetDevice => 0x0B,
        }
    }

    /// The numeric code of this exception on the wire.
    pub fn code(&self) -> (c: u8)
        ensures
            c == self.spec_code(),
            is_exception_code(c),
    {
        match self {
            Exception::IllegalFunction => 0x01,
            Exception::IllegalDataAddress => 0x02,
            Exception::IllegalDataValue => 0x03,
            Exception::ServerDeviceFailure => 0x04,
            Exception::Acknowledge => 0x05,
            Exception::ServerDeviceBusy => 0x06,
            Exception::MemoryParityError => 0x08,
            Exception::GatewayPathUnavailable => 0x0A,
            Exception::GatewayTargetDevice => 0x0B,
        }
    }

    /// The exception whose numeric code is `c`, if `c` is one of the nine
    /// standard codes.
    pub fn from_code(c: u8) -> (r: Option<Exception>)
        ensures
            match r {
                Some(e) => is_exception_code(c) && e.spec_code() == c && e
                    == spec_exception_from_code(c),
                None => !is_exception_code(c),
            },
    {
        match c {
            0x01 => Some(Exception::IllegalFunction),
            0x02 => Some(Exception::IllegalDataAddress),
            0x03 => Some(Exception::IllegalDataValue),
            0x04 => Some(Exception::ServerDeviceFailure),
            0x05 => Some(Exception::Acknowledge),
            0x06 => Some(Exception::ServerDeviceBusy),
            0x08 => Some(Exception::MemoryParityError),
            0x0A => Some(Exception::GatewayPathUnavailable),
            0x0B => Some(Exception::GatewayTargetDevice),
            _ => None,
        }
    }

    /// A human-readable description of this exception.
    pub fn description(&self) -> (d: &'static str)
        ensures
            d@ == self.spec_description(),
    {
        match self {
            Exception::IllegalFunction => "Illegal function",
            Exception::IllegalDataAddress => "Illegal data address",
            Exception::IllegalDataValue => "Illegal data value",
            Exception::ServerDeviceFailure => "Server device failure",
            Exception::Acknowledge => "Acknowledge",
            Exception::ServerDeviceBusy => "Server device busy",
            Exception::MemoryParityError => "Memory parity error",
            Exception::GatewayPathUnavailable => "Gateway path unavailable",
            Exception::GatewayTargetDevice => "Gateway target device failed to respond",
        }
    }

    /// The description promised by [`Exception::description`].
    pub open spec fn spec_description(self) -> Seq<char> {
        match self {
            Exception::IllegalFunction => "Illegal function"@,
            Exception::IllegalDataAddress => "Illegal data address"@,
            Exception::IllegalDataValue => "Illegal data value"@,
            Exception::ServerDeviceFailure => "Server device failure"@,
            Exception::Acknowledge => "Acknowledge"@,
            Exception::ServerDeviceBusy => "Server device busy"@,
            Exception::MemoryParityError => "Memory parity error"@,
            Exception::GatewayPathUnavailable => "Gateway path unavailable"@,
            Exception::GatewayTargetDevice => "Gateway target device failed to respond"@,
        }
    }
}

/// The error kinds of the codec.  Every fallible operation surfaces one of
/// these to its immediate caller; none is swallowed internally.
#[derive(Debug, Clone, Copy, PartialEq, Eq, Structural)]
pub enum Error {
    /// A request or response value violates a quantity, address, or length
    /// bound before encoding: a caller-side error.
    InvariantViolation,
    /// Decode input too short, a declared byte count inconsistent with the
    /// actual remaining bytes, or an unknown structural shape.
    MalformedFrame,
    /// The RTU CRC16 does not match: the whole frame must be dropped, not
    /// partially interpreted.
    ChecksumMismatch,
    /// A syntactically valid response whose payload is a protocol-level
    /// exception: a semantically negative result, not a decode failure.
    ServerException(Exception),
}

} // verus!
