//! The client-side computations around a request/response exchange:
//! building the request a master sends for each operation, the
//! transaction id counter of the stream transport, and turning a
//! received response into values or into the error it signals. The
//! transport itself — connecting, writing, and the timed read — lives
//! outside the library.

use vstd::prelude::*;
use crate::data::packed_bools;
use crate::data::unpacked_bools;
use crate::data::words16_of;
use crate::data::DataConverter;
use crate::pdu::be16_bytes;
use crate::protocol::ByteOrder;
use crate::protocol::ErrorView;
use crate::protocol::ExceptionCode;
use crate::protocol::FunctionCode;
use crate::protocol::ModbusError;
use crate::protocol::ModbusRequest;
use crate::protocol::RequestView;
use crate::protocol::ModbusResponse;

verus! {

broadcast use vstd::string::to_string_from_display_ensures_for_str;

/// The message a device exception is reported with.
pub open spec fn exception_message(code: ExceptionCode) -> Seq<char> {
    match code {
        ExceptionCode::IllegalFunction => "Exception: IllegalFunction"@,
        ExceptionCode::IllegalDataAddress => "Exception: IllegalDataAddress"@,
        ExceptionCode::IllegalDataValue => "Exception: IllegalDataValue"@,
        ExceptionCode::SlaveDeviceFailure => "Exception: SlaveDeviceFailure"@,
        ExceptionCode::Acknowledge => "Exception: Acknowledge"@,
        ExceptionCode::SlaveDeviceBusy => "Exception: SlaveDeviceBusy"@,
        ExceptionCode::MemoryParityError => "Exception: MemoryParityError"@,
        ExceptionCode::GatewayPathUnavailable => "Exception: GatewayPathUnavailable"@,
        ExceptionCode::GatewayTargetDeviceFailedToRespond => (
        "Exception: GatewayTargetDeviceFailedToRespond"@),
    }
}

/// The counter a stream-transport client draws transaction ids from; it
/// wraps around after the highest 16-bit value.
pub struct TransactionCounter {
    next: u16,
}

impl TransactionCounter {
    /// The id the next request will carry.
    pub closed spec fn spec_next(self) -> u16 {
        self.next
    }

    /// Creates a counter; the first request carries id 1.
    pub fn new() -> (r: Self)
        ensures
            r.spec_next() == 1,
    {
        TransactionCounter { next: 1 }
    }

    /// Draws the next transaction id, incrementing modulo 65536.
    pub fn take(&mut self) -> (r: u16)
        ensures
            r == old(self).spec_next(),
            final(self).spec_next() == (old(self).spec_next() + 1) % 0x10000,
    {
        let id = self.next;
        self.next = if self.next == 0xFFFF {
            0
        } else {
            self.next + 1
        };
        id
    }
}

impl ModbusRequest {
    /// The request that reads `count` coils from `address`.
    pub fn read_coils(slave_id: u8, address: u16, count: u16) -> (r: Self)
        ensures
            r@ == (RequestView {
                slave_id,
                function_code: FunctionCode::ReadCoils,
                address,
                count,
                data: None,
            }),
    {
        ModbusRequest {
            slave_id,
            function_code: FunctionCode::ReadCoils,
            address,
            count,
            data: None,
        }
    }

    /// The request that reads `count` discrete inputs from `address`.
    pub fn read_discrete_inputs(slave_id: u8, address: u16, count: u16) -> (r: Self)
        ensures
            r@ == (RequestView {
                slave_id,
                function_code: FunctionCode::ReadDiscreteInputs,
                address,
                count,
                data: None,
            }),
    {
        ModbusRequest {
            slave_id,
            function_code: FunctionCode::ReadDiscreteInputs,
            address,
            count,
            data: None,
        }
    }

    /// The request that reads `count` holding registers from `address`.
    pub fn read_holding_registers(slave_id: u8, address: u16, count: u16) -> (r: Self)
        ensures
            r@ == (RequestView {
                slave_id,
                function_code: FunctionCode::ReadHoldingRegisters,
                address,
                count,
                data: None,
            }),
    {
        ModbusRequest {
            slave_id,
            function_code: FunctionCode::ReadHoldingRegisters,
            address,
            count,
            data: None,
        }
    }

    /// The request that reads `count` input registers from `address`.
    pub fn read_input_registers(slave_id: u8, address: u16, count: u16) -> (r: Self)
        ensures
            r@ == (RequestView {
                slave_id,
                function_code: FunctionCode::ReadInputRegisters,
                address,
                count,
                data: None,
            }),
    {
        ModbusRequest {
            slave_id,
            function_code: FunctionCode::ReadInputRegisters,
            address,
            count,
            data: None,
        }
    }

    /// The request that writes one coil; the value travels in the count
    /// field.
    pub fn write_single_coil(slave_id: u8, address: u16, value: bool) -> (r: Self)
        ensures
            r@ == (RequestView {
                slave_id,
                function_code: FunctionCode::WriteSingleCoil,
                address,
                count: if value {
                    1u16
                } else {
                    0u16
                },
                data: None,
            }),
    {
        ModbusRequest {
            slave_id,
            function_code: FunctionCode::WriteSingleCoil,
            address,
            count: if value {
                1
            } else {
                0
            },
            data: None,
        }
    }

    /// The request that writes one holding register; the value travels
    /// big endian in the payload.
    pub fn write_single_register(slave_id: u8, address: u16, value: u16) -> (r: Self)
        ensures
            r@ == (RequestView {
                slave_id,
                function_code: FunctionCode::WriteSingleRegister,
                address,
                count: 0u16,
                data: Some(be16_bytes(value)),
            }),
    {
        let mut payload: Vec<u8> = Vec::new();
        crate::pdu::push_u16_be(&mut payload, value);
        proof {
            assert(payload@ =~= be16_bytes(value));
        }
        ModbusRequest {
            slave_id,
            function_code: FunctionCode::WriteSingleRegister,
            address,
            count: 0,
            data: Some(payload),
        }
    }

    /// The request that writes a run of coils, packed eight per byte.
    pub fn write_multiple_coils(slave_id: u8, address: u16, values: &[bool]) -> (r: Self)
        requires
            values@.len() <= 0xFFFF,
        ensures
            r@ == (RequestView {
                slave_id,
                function_code: FunctionCode::WriteMultipleCoils,
                address,
                count: values@.len() as u16,
                data: Some(packed_bools(values@)),
            }),
    {
        let payload = DataConverter::bool_array_to_bytes(values);
        ModbusRequest {
            slave_id,
            function_code: FunctionCode::WriteMultipleCoils,
            address,
            count: values.len() as u16,
            data: Some(payload),
        }
    }

    /// The request that writes a run of holding registers, big endian.
    pub fn write_multiple_registers(slave_id: u8, address: u16, values: &[u16]) -> (r: Self)
        requires
            values@.len() <= 0xFFFF,
        ensures
            r@ == (RequestView {
                slave_id,
                function_code: FunctionCode::WriteMultipleRegisters,
                address,
                count: values@.len() as u16,
                data: Some(crate::data::bytes_of_words16(ByteOrder::ABCD, values@)),
            }),
    {
        let payload = DataConverter::u16_array_to_bytes(values, ByteOrder::ABCD);
        ModbusRequest {
            slave_id,
            function_code: FunctionCode::WriteMultipleRegisters,
            address,
            count: values.len() as u16,
            data: Some(payload),
        }
    }
}

impl ModbusResponse {
    /// The payload unpacked as `count` coil values; an exception
    /// response is reported as a protocol error naming the exception.
    pub fn coil_values(&self, count: u16) -> (r: Result<Vec<bool>, ModbusError>)
        requires
            self@.wf(),
        ensures
            self@.is_exception ==> (r matches Err(e) && e@ == ErrorView::ProtocolError(
                exception_message(self@.exception_code->Some_0),
            )),
            !self@.is_exception ==> (r matches Ok(v) && v@ == unpacked_bools(
                self@.data,
                count as int,
            )),
    {
        if self.is_exception {
            return Err(self.exception_error());
        }
        Ok(DataConverter::bytes_to_bool_array(self.data.as_slice(), count as usize))
    }

    /// The payload read as big-endian 16-bit register values; an
    /// exception response is reported as a protocol error naming the
    /// exception.
    pub fn register_values(&self) -> (r: Result<Vec<u16>, ModbusError>)
        requires
            self@.wf(),
        ensures
            self@.is_exception ==> (r matches Err(e) && e@ == ErrorView::ProtocolError(
                exception_message(self@.exception_code->Some_0),
            )),
            !self@.is_exception && self@.data.len() % 2 == 0 ==> (r matches Ok(v) && v@
                == words16_of(ByteOrder::ABCD, self@.data)),
            !self@.is_exception && self@.data.len() % 2 != 0 ==> r == Err::<
                Vec<u16>,
                ModbusError,
            >(ModbusError::InvalidDataLength),
    {
        if self.is_exception {
            return Err(self.exception_error());
        }
        DataConverter::bytes_to_u16_array(self.data.as_slice(), ByteOrder::ABCD)
    }

    /// Confirms a write was acknowledged; an exception response is
    /// reported as a protocol error naming the exception.
    pub fn expect_success(&self) -> (r: Result<(), ModbusError>)
        requires
            self@.wf(),
        ensures
            self@.is_exception ==> (r matches Err(e) && e@ == ErrorView::ProtocolError(
                exception_message(self@.exception_code->Some_0),
            )),
            !self@.is_exception ==> r is Ok,
    {
        if self.is_exception {
            return Err(self.exception_error());
        }
        Ok(())
    }

    /// The error an exception response translates to.
    fn exception_error(&self) -> (r: ModbusError)
        requires
            self@.wf(),
            self@.is_exception,
        ensures
            r@ == ErrorView::ProtocolError(exception_message(self@.exception_code->Some_0)),
    {
        let code = match self.exception_code {
            Some(c) => c,
            None => vstd::pervasive::unreached(),
        };
        let message = match code {
            ExceptionCode::IllegalFunction => "Exception: IllegalFunction".to_string(),
            ExceptionCode::IllegalDataAddress => "Exception: IllegalDataAddress".to_string(),
            ExceptionCode::IllegalDataValue => "Exception: IllegalDataValue".to_string(),
            ExceptionCode::SlaveDeviceFailure => "Exception: SlaveDeviceFailure".to_string(),
            ExceptionCode::Acknowledge => "Exception: Acknowledge".to_string(),
            ExceptionCode::SlaveDeviceBusy => "Exception: SlaveDeviceBusy".to_string(),
            ExceptionCode::MemoryParityError => "Exception: MemoryParityError".to_string(),
            ExceptionCode::GatewayPathUnavailable => (
            "Exception: GatewayPathUnavailable".to_string()),
            ExceptionCode::GatewayTargetDeviceFailedToRespond => (
            "Exception: GatewayTargetDeviceFailedToRespond".to_string()),
        };
        ModbusError::ProtocolError(message)
    }
}

} // verus!
