//! RTU framing carried over a stream transport: the device address byte
//! followed by the protocol data unit, with no checksum — the stream is
//! assumed to deliver bytes intact and in order.

use vstd::prelude::*;
use crate::pdu::decode_request_pdu;
use crate::pdu::decode_response_pdu;
use crate::pdu::encodable;
use crate::pdu::encode_request_pdu;
use crate::pdu::encode_response_pdu;
use crate::pdu::parse_request_pdu;
use crate::pdu::parse_response_pdu;
use crate::pdu::push_slice;
use crate::pdu::request_pdu;
use crate::pdu::response_pdu;
use crate::pdu::wire_canonical;
use crate::protocol::ErrorView;
use crate::protocol::ModbusError;
use crate::protocol::ModbusRequest;
use crate::protocol::ModbusResponse;
use crate::protocol::RequestView;
use crate::protocol::ResponseView;

verus! {

/// The frame a request encodes to: device address, then the protocol
/// data unit.
pub open spec fn rtu_over_tcp_request_frame(req: RequestView) -> Result<Seq<u8>, ErrorView> {
    match request_pdu(req) {
        Ok(p) => Ok(seq![req.slave_id] + p),
        Err(e) => Err(e),
    }
}

/// The request a frame decodes to.
pub open spec fn rtu_over_tcp_parse_request(s: Seq<u8>) -> Result<RequestView, ErrorView> {
    if s.len() < 4 {
        Err(ErrorView::InvalidDataLength)
    } else {
        parse_request_pdu(s[0], s.skip(1))
    }
}

/// The frame a well-formed response encodes to.
pub open spec fn rtu_over_tcp_response_frame(resp: ResponseView) -> Seq<u8>
    recommends
        resp.wf(),
{
    seq![resp.slave_id] + response_pdu(resp)
}

/// The response a frame decodes to.
pub open spec fn rtu_over_tcp_parse_response(s: Seq<u8>) -> Result<ResponseView, ErrorView> {
    if s.len() < 2 {
        Err(ErrorView::InvalidDataLength)
    } else {
        parse_response_pdu(s[0], s.skip(1))
    }
}

/// Encoder and decoder for RTU frames carried over a stream transport.
pub struct ModbusRtuOverTcp;

impl ModbusRtuOverTcp {
    /// Builds a request frame.
    pub fn build_request(request: &ModbusRequest) -> (r: Result<Vec<u8>, ModbusError>)
        requires
            encodable(request@),
        ensures
            match r {
                Ok(v) => rtu_over_tcp_request_frame(request@) == Ok::<Seq<u8>, ErrorView>(v@),
                Err(e) => rtu_over_tcp_request_frame(request@) == Err::<Seq<u8>, ErrorView>(e@),
            },
    {
        let pdu = match encode_request_pdu(request) {
            Ok(p) => p,
            Err(e) => {
                return Err(e);
            },
        };
        let mut frame: Vec<u8> = Vec::new();
        frame.push(request.slave_id);
        push_slice(&mut frame, pdu.as_slice());
        proof {
            assert(frame@ =~= seq![request@.slave_id] + pdu@);
        }
        Ok(frame)
    }

    /// Parses a request frame.
    pub fn parse_request(data: &[u8]) -> (r: Result<ModbusRequest, ModbusError>)
        ensures
            match r {
                Ok(v) => rtu_over_tcp_parse_request(data@) == Ok::<RequestView, ErrorView>(v@),
                Err(e) => rtu_over_tcp_parse_request(data@) == Err::<RequestView, ErrorView>(e@),
            },
    {
        if data.len() < 4 {
            return Err(ModbusError::InvalidDataLength);
        }
        let slave_id = data[0];
        let pdu = vstd::slice::slice_subrange(data, 1, data.len());
        proof {
            assert(pdu@ =~= data@.skip(1));
        }
        decode_request_pdu(slave_id, pdu)
    }

    /// Builds a response frame.
    pub fn build_response(response: &ModbusResponse) -> (r: Result<Vec<u8>, ModbusError>)
        requires
            response@.wf(),
        ensures
            r matches Ok(v) && v@ == rtu_over_tcp_response_frame(response@),
    {
        let pdu = encode_response_pdu(response);
        let mut frame: Vec<u8> = Vec::new();
        frame.push(response.slave_id);
        push_slice(&mut frame, pdu.as_slice());
        proof {
            assert(frame@ =~= seq![response@.slave_id] + pdu@);
        }
        Ok(frame)
    }

    /// Parses a response frame.
    pub fn parse_response(data: &[u8]) -> (r: Result<ModbusResponse, ModbusError>)
        ensures
            match r {
                Ok(v) => rtu_over_tcp_parse_response(data@) == Ok::<ResponseView, ErrorView>(v@),
                Err(e) => rtu_over_tcp_parse_response(data@) == Err::<ResponseView, ErrorView>(
                    e@,
                ),
            },
    {
        if data.len() < 2 {
            return Err(ModbusError::InvalidDataLength);
        }
        let slave_id = data[0];
        let pdu = vstd::slice::slice_subrange(data, 1, data.len());
        proof {
            assert(pdu@ =~= data@.skip(1));
        }
        decode_response_pdu(slave_id, pdu)
    }
}

/// Decoding the encoding of a canonical request yields the request back.
pub proof fn lemma_rtu_over_tcp_request_round_trip(req: RequestView)
    requires
        wire_canonical(req),
    ensures
        rtu_over_tcp_request_frame(req) matches Ok(f) && rtu_over_tcp_parse_request(f) == Ok::<
            RequestView,
            ErrorView,
        >(req),
{
    crate::pdu::lemma_request_pdu_round_trip(req);
    let p = request_pdu(req)->Ok_0;
    assert(p.len() >= 5);
    let f = seq![req.slave_id] + p;
    assert(f.len() >= 4);
    assert(f[0] == req.slave_id);
    assert(f.skip(1) =~= p);
}

} // verus!
