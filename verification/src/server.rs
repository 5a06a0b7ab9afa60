//! The per-frame decision step a server runs for each received buffer:
//! parse the request, dispatch it against the device store or registry,
//! and produce the response frame to write back, if any. A frame that
//! fails to decode, or that a store cannot serve, is dropped; a
//! multi-device server answers an unknown device address with an
//! `IllegalDataAddress` exception.

use vstd::prelude::*;
use crate::modbus_rtu::rtu_parse_request;
use crate::modbus_rtu::rtu_response_frame;
use crate::modbus_rtu::ModbusRtu;
use crate::modbus_rtu_over_tcp::rtu_over_tcp_parse_request;
use crate::modbus_rtu_over_tcp::rtu_over_tcp_response_frame;
use crate::modbus_rtu_over_tcp::ModbusRtuOverTcp;
use crate::protocol::ExceptionCode;
use crate::protocol::FunctionCode;
use crate::protocol::ModbusRequest;
use crate::protocol::ModbusResponse;
use crate::protocol::RequestView;
use crate::protocol::ResponseView;
use crate::registry::others_unchanged;
use crate::registry::registry_unchanged;
use crate::registry::DeviceRegistry;
use crate::store::handleable;
use crate::store::spec_response;
use crate::store::spec_updated;
use crate::store::written_bits;
use crate::store::RegisterStore;

verus! {

/// The exception response a request is answered with.
pub open spec fn exception_response(req: RequestView, code: ExceptionCode) -> ResponseView {
    ResponseView {
        slave_id: req.slave_id,
        function_code: req.function_code,
        data: Seq::empty(),
        is_exception: true,
        exception_code: Some(code),
    }
}

/// Decides whether a store can serve the request; mirrors
/// [`handleable`].
pub fn can_handle(request: &ModbusRequest) -> (r: bool)
    ensures
        r == handleable(request@),
{
    match request.function_code {
        FunctionCode::ReadCoils | FunctionCode::ReadDiscreteInputs => request.count <= 2040 && (
        request.address as u32) + (request.count as u32) <= 0x10000,
        FunctionCode::ReadHoldingRegisters | FunctionCode::ReadInputRegisters => request.count
            <= 127 && (request.address as u32) + (request.count as u32) <= 0x10000,
        FunctionCode::WriteSingleCoil => true,
        FunctionCode::WriteSingleRegister => match &request.data {
            Some(d) => d.len() >= 2,
            None => false,
        },
        FunctionCode::WriteMultipleCoils => match &request.data {
            Some(d) => {
                let written: usize = if (request.count as usize + 7) / 8 <= d.len() {
                    request.count as usize
                } else {
                    8 * d.len()
                };
                proof {
                    assert(written == written_bits(request@.count, request@.data->Some_0.len()
                        as int));
                }
                (request.address as usize) + written <= 0x10000
            },
            None => false,
        },
        FunctionCode::WriteMultipleRegisters => match &request.data {
            Some(d) => d.len() % 2 == 0 && (request.address as usize) + d.len() / 2 <= 0x10000,
            None => false,
        },
    }
}

/// One decision step of a single-device server on the checksummed serial
/// framing: requests that fail to parse, carry another device's address,
/// or cannot be served are dropped without a reply.
pub fn process_rtu_frame(store: &mut RegisterStore, slave_id: u8, data: &[u8]) -> (r: Option<
    Vec<u8>,
>)
    ensures
        match rtu_parse_request(data@) {
            Ok(req) => {
                if req.slave_id == slave_id && handleable(req) {
                    &&& r matches Some(v) && v@ == rtu_response_frame(
                        spec_response(*old(store), req),
                    )
                    &&& spec_updated(*old(store), *final(store), req)
                } else {
                    r is None && *final(store) == *old(store)
                }
            },
            Err(_) => r is None && *final(store) == *old(store),
        },
{
    let request = match ModbusRtu::parse_request(data) {
        Ok(q) => q,
        Err(_) => {
            return None;
        },
    };
    if request.slave_id != slave_id {
        return None;
    }
    if !can_handle(&request) {
        return None;
    }
    let response = store.handle_request(&request);
    match ModbusRtu::build_response(&response) {
        Ok(frame) => Some(frame),
        Err(_) => vstd::pervasive::unreached(),
    }
}

/// One decision step of a single-device server on the serial-over-stream
/// framing.
pub fn process_rtu_over_tcp_frame(store: &mut RegisterStore, slave_id: u8, data: &[u8]) -> (r:
    Option<Vec<u8>>)
    ensures
        match rtu_over_tcp_parse_request(data@) {
            Ok(req) => {
                if req.slave_id == slave_id && handleable(req) {
                    &&& r matches Some(v) && v@ == rtu_over_tcp_response_frame(
                        spec_response(*old(store), req),
                    )
                    &&& spec_updated(*old(store), *final(store), req)
                } else {
                    r is None && *final(store) == *old(store)
                }
            },
            Err(_) => r is None && *final(store) == *old(store),
        },
{
    let request = match ModbusRtuOverTcp::parse_request(data) {
        Ok(q) => q,
        Err(_) => {
            return None;
        },
    };
    if request.slave_id != slave_id {
        return None;
    }
    if !can_handle(&request) {
        return None;
    }
    let response = store.handle_request(&request);
    match ModbusRtuOverTcp::build_response(&response) {
        Ok(frame) => Some(frame),
        Err(_) => vstd::pervasive::unreached(),
    }
}

impl DeviceRegistry {
    /// One decision step of a multi-device server on the
    /// serial-over-stream framing: a request for an unregistered device
    /// is answered with an `IllegalDataAddress` exception whose payload
    /// is empty.
    pub fn process_rtu_over_tcp_frame(&mut self, data: &[u8]) -> (r: Option<Vec<u8>>)
        ensures
            match rtu_over_tcp_parse_request(data@) {
                Ok(req) => {
                    if !old(self).has_slave(req.slave_id) {
                        &&& r matches Some(v) && v@ == rtu_over_tcp_response_frame(
                            exception_response(req, ExceptionCode::IllegalDataAddress),
                        )
                        &&& registry_unchanged(*old(self), *final(self))
                    } else if handleable(req) {
                        &&& r matches Some(v) && v@ == rtu_over_tcp_response_frame(
                            spec_response(old(self).slave_at(req.slave_id), req),
                        )
                        &&& final(self).has_slave(req.slave_id)
                        &&& spec_updated(
                            old(self).slave_at(req.slave_id),
                            final(self).slave_at(req.slave_id),
                            req,
                        )
                        &&& others_unchanged(*old(self), *final(self), req.slave_id)
                    } else {
                        r is None && *final(self) == *old(self)
                    }
                },
                Err(_) => r is None && *final(self) == *old(self),
            },
    {
        let request = match ModbusRtuOverTcp::parse_request(data) {
            Ok(q) => q,
            Err(_) => {
                return None;
            },
        };
        if !self.contains_slave(request.slave_id) {
            let response = ModbusResponse {
                slave_id: request.slave_id,
                function_code: request.function_code,
                data: Vec::new(),
                is_exception: true,
                exception_code: Some(ExceptionCode::IllegalDataAddress),
            };
            proof {
                assert(response@ =~= exception_response(
                    request@,
                    ExceptionCode::IllegalDataAddress,
                ));
            }
            return match ModbusRtuOverTcp::build_response(&response) {
                Ok(frame) => Some(frame),
                Err(_) => vstd::pervasive::unreached(),
            };
        }
        if !can_handle(&request) {
            return None;
        }
        let mut store = match self.take_slave(request.slave_id) {
            Some(s) => s,
            None => vstd::pervasive::unreached(),
        };
        let response = store.handle_request(&request);
        self.put_slave(request.slave_id, store);
        match ModbusRtuOverTcp::build_response(&response) {
            Ok(frame) => Some(frame),
            Err(_) => vstd::pervasive::unreached(),
        }
    }
}

} // verus!
