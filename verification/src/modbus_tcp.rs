//! The stream-header encapsulation: a 7-byte MBAP header — transaction
//! id, protocol id (always zero), remaining length, device address —
//! followed by the protocol data unit.

use vstd::prelude::*;
use crate::pdu::be16;
use crate::pdu::be16_bytes;
use crate::pdu::decode_request_pdu;
use crate::pdu::decode_response_pdu;
use crate::pdu::encodable;
use crate::pdu::encode_request_pdu;
use crate::pdu::encode_response_pdu;
use crate::pdu::parse_request_pdu;
use crate::pdu::parse_response_pdu;
use crate::pdu::push_slice;
use crate::pdu::push_u16_be;
use crate::pdu::request_pdu;
use crate::pdu::response_pdu;
use crate::pdu::wire_canonical;
use crate::protocol::ErrorView;
use crate::protocol::FunctionCode;
use crate::protocol::ModbusError;
use crate::protocol::ModbusRequest;
use crate::protocol::ModbusResponse;
use crate::protocol::RequestView;
use crate::protocol::ResponseView;

verus! {

broadcast use vstd::string::to_string_from_display_ensures_for_str;

/// The header plus body a request encodes to. The length field counts
/// every byte after itself: the device address and the protocol data
/// unit.
pub open spec fn tcp_request_frame(req: RequestView, transaction_id: u16) -> Result<
    Seq<u8>,
    ErrorView,
> {
    match request_pdu(req) {
        Ok(p) => Ok(
            be16_bytes(transaction_id) + be16_bytes(0) + be16_bytes(((1 + p.len()) as int) as u16)
                + seq![req.slave_id] + p,
        ),
        Err(e) => Err(e),
    }
}

/// The requests whose length field needs no truncation, so that the
/// encoded frame parses back.
pub open spec fn tcp_encodable(req: RequestView) -> bool {
    encodable(req) && match req.function_code {
        FunctionCode::WriteMultipleCoils => match req.data {
            Some(d) => 7 + d.len() <= 0xFFFF,
            None => true,
        },
        FunctionCode::WriteMultipleRegisters => match req.data {
            Some(d) => 8 + d.len() <= 0xFFFF,
            None => true,
        },
        _ => true,
    }
}

/// The transaction id and request a frame decodes to. A nonzero protocol
/// id is rejected; a frame shorter than its declared length is rejected
/// as `InvalidDataLength`.
pub open spec fn tcp_parse_request(s: Seq<u8>) -> Result<(u16, RequestView), ErrorView> {
    if s.len() < 9 {
        Err(ErrorView::InvalidDataLength)
    } else {
        let transaction_id = be16(s[0], s[1]);
        let protocol_id = be16(s[2], s[3]);
        let length = be16(s[4], s[5]);
        let unit_id = s[6];
        if protocol_id != 0 {
            Err(ErrorView::ProtocolError("Invalid protocol identifier"@))
        } else if s.len() < 6 + length {
            Err(ErrorView::InvalidDataLength)
        } else {
            match parse_request_pdu(unit_id, s.skip(7)) {
                Ok(q) => Ok((transaction_id, q)),
                Err(e) => Err(e),
            }
        }
    }
}

/// The header plus body a well-formed response encodes to.
pub open spec fn tcp_response_frame(resp: ResponseView, transaction_id: u16) -> Seq<u8>
    recommends
        resp.wf(),
{
    let p = response_pdu(resp);
    be16_bytes(transaction_id) + be16_bytes(0) + be16_bytes(((1 + p.len()) as int) as u16)
        + seq![resp.slave_id] + p
}

/// The transaction id and response a frame decodes to.
pub open spec fn tcp_parse_response(s: Seq<u8>) -> Result<(u16, ResponseView), ErrorView> {
    if s.len() < 9 {
        Err(ErrorView::InvalidDataLength)
    } else {
        let transaction_id = be16(s[0], s[1]);
        let protocol_id = be16(s[2], s[3]);
        let length = be16(s[4], s[5]);
        let unit_id = s[6];
        if protocol_id != 0 {
            Err(ErrorView::ProtocolError("Invalid protocol identifier"@))
        } else if s.len() < 6 + length {
            Err(ErrorView::InvalidDataLength)
        } else {
            match parse_response_pdu(unit_id, s.skip(7)) {
                Ok(q) => Ok((transaction_id, q)),
                Err(e) => Err(e),
            }
        }
    }
}

/// Encoder and decoder for the stream-header encapsulation.
pub struct ModbusTcp;

impl ModbusTcp {
    /// Builds a request frame under the given transaction id.
    pub fn build_request(request: &ModbusRequest, transaction_id: u16) -> (r: Result<
        Vec<u8>,
        ModbusError,
    >)
        requires
            encodable(request@),
        ensures
            match r {
                Ok(v) => tcp_request_frame(request@, transaction_id) == Ok::<Seq<u8>, ErrorView>(
                    v@,
                ),
                Err(e) => tcp_request_frame(request@, transaction_id) == Err::<
                    Seq<u8>,
                    ErrorView,
                >(e@),
            },
    {
        let pdu = match encode_request_pdu(request) {
            Ok(p) => p,
            Err(e) => {
                return Err(e);
            },
        };
        let mut frame: Vec<u8> = Vec::new();
        push_u16_be(&mut frame, transaction_id);
        push_u16_be(&mut frame, 0x0000);
        push_u16_be(&mut frame, 0x0000);
        frame.push(request.slave_id);
        push_slice(&mut frame, pdu.as_slice());
        let length = (frame.len() - 6) as u16;
        frame[4] = (length / 0x100) as u8;
        frame[5] = (length % 0x100) as u8;
        proof {
            assert(length == ((1 + pdu@.len()) as int) as u16);
            assert(frame@ =~= be16_bytes(transaction_id) + be16_bytes(0) + be16_bytes(length)
                + seq![request@.slave_id] + pdu@);
        }
        Ok(frame)
    }

    /// Parses a request frame, returning the transaction id alongside the
    /// request.
    pub fn parse_request(data: &[u8]) -> (r: Result<(u16, ModbusRequest), ModbusError>)
        ensures
            match r {
                Ok(v) => tcp_parse_request(data@) == Ok::<(u16, RequestView), ErrorView>(
                    (v.0, v.1@),
                ),
                Err(e) => tcp_parse_request(data@) == Err::<(u16, RequestView), ErrorView>(e@),
            },
    {
        if data.len() < 9 {
            return Err(ModbusError::InvalidDataLength);
        }
        let transaction_id = (data[0] as u16) * 0x100 + (data[1] as u16);
        if data[2] != 0 || data[3] != 0 {
            return Err(ModbusError::ProtocolError("Invalid protocol identifier".to_string()));
        }
        let length = (data[4] as usize) * 0x100 + (data[5] as usize);
        if data.len() < 6 + length {
            return Err(ModbusError::InvalidDataLength);
        }
        let unit_id = data[6];
        let pdu = vstd::slice::slice_subrange(data, 7, data.len());
        proof {
            assert(pdu@ =~= data@.skip(7));
        }
        match decode_request_pdu(unit_id, pdu) {
            Ok(q) => Ok((transaction_id, q)),
            Err(e) => Err(e),
        }
    }

    /// Builds a response frame under the given transaction id.
    pub fn build_response(response: &ModbusResponse, transaction_id: u16) -> (r: Result<
        Vec<u8>,
        ModbusError,
    >)
        requires
            response@.wf(),
        ensures
            r matches Ok(v) && v@ == tcp_response_frame(response@, transaction_id),
    {
        let pdu = encode_response_pdu(response);
        let mut frame: Vec<u8> = Vec::new();
        push_u16_be(&mut frame, transaction_id);
        push_u16_be(&mut frame, 0x0000);
        push_u16_be(&mut frame, 0x0000);
        frame.push(response.slave_id);
        push_slice(&mut frame, pdu.as_slice());
        let length = (frame.len() - 6) as u16;
        frame[4] = (length / 0x100) as u8;
        frame[5] = (length % 0x100) as u8;
        proof {
            assert(length == ((1 + pdu@.len()) as int) as u16);
            assert(frame@ =~= be16_bytes(transaction_id) + be16_bytes(0) + be16_bytes(length)
                + seq![response@.slave_id] + pdu@);
        }
        Ok(frame)
    }

    /// Parses a response frame, returning the transaction id alongside
    /// the response.
    pub fn parse_response(data: &[u8]) -> (r: Result<(u16, ModbusResponse), ModbusError>)
        ensures
            match r {
                Ok(v) => tcp_parse_response(data@) == Ok::<(u16, ResponseView), ErrorView>(
                    (v.0, v.1@),
                ),
                Err(e) => tcp_parse_response(data@) == Err::<(u16, ResponseView), ErrorView>(e@),
            },
    {
        if data.len() < 9 {
            return Err(ModbusError::InvalidDataLength);
        }
        let transaction_id = (data[0] as u16) * 0x100 + (data[1] as u16);
        if data[2] != 0 || data[3] != 0 {
            return Err(ModbusError::ProtocolError("Invalid protocol identifier".to_string()));
        }
        let length = (data[4] as usize) * 0x100 + (data[5] as usize);
        if data.len() < 6 + length {
            return Err(ModbusError::InvalidDataLength);
        }
        let unit_id = data[6];
        let pdu = vstd::slice::slice_subrange(data, 7, data.len());
        proof {
            assert(pdu@ =~= data@.skip(7));
        }
        match decode_response_pdu(unit_id, pdu) {
            Ok(q) => Ok((transaction_id, q)),
            Err(e) => Err(e),
        }
    }
}

/// Decoding the encoding of a canonical request yields the transaction
/// id and the request back.
pub proof fn lemma_tcp_request_round_trip(req: RequestView, transaction_id: u16)
    requires
        wire_canonical(req),
        tcp_encodable(req),
    ensures
        tcp_request_frame(req, transaction_id) matches Ok(f) && tcp_parse_request(f) == Ok::<
            (u16, RequestView),
            ErrorView,
        >((transaction_id, req)),
{
    crate::pdu::lemma_request_pdu_round_trip(req);
    let p = request_pdu(req)->Ok_0;
    assert(5 <= p.len() <= 0xFFFE) by {
        match req.function_code {
            FunctionCode::WriteMultipleCoils => {
                assert(p.len() == 6 + req.data->Some_0.len());
            },
            FunctionCode::WriteMultipleRegisters => {
                assert(p.len() == 7 + req.data->Some_0.len());
            },
            _ => {
                assert(p.len() == 5);
            },
        }
    }
    let f = be16_bytes(transaction_id) + be16_bytes(0) + be16_bytes(((1 + p.len()) as int) as u16)
        + seq![req.slave_id] + p;
    assert(f.len() == 7 + p.len());
    assert(f[0] == be16_bytes(transaction_id)[0] && f[1] == be16_bytes(transaction_id)[1]);
    assert(be16(f[0], f[1]) == transaction_id);
    assert(f[2] == 0 && f[3] == 0);
    assert(be16(f[2], f[3]) == 0);
    let length_val = ((1 + p.len()) as int) as u16;
    assert(length_val == 1 + p.len());
    assert(f[4] == be16_bytes(length_val)[0] && f[5] == be16_bytes(length_val)[1]);
    assert(be16(f[4], f[5]) == length_val);
    assert(6 + length_val == f.len());
    assert(f[6] == req.slave_id);
    assert(f.skip(7) =~= p);
}

} // verus!
