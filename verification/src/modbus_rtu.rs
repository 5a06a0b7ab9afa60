//! The serial encapsulation: the device address byte, the protocol data
//! unit, and a CRC-16 checksum appended little endian. Decoding checks
//! the checksum over everything before the trailing two bytes before any
//! further interpretation.

use vstd::prelude::*;
use crate::pdu::decode_request_pdu;
use crate::pdu::decode_response_pdu;
use crate::pdu::encodable;
use crate::pdu::encode_request_pdu;
use crate::pdu::encode_response_pdu;
use crate::pdu::parse_request_pdu;
use crate::pdu::parse_response_pdu;
use crate::pdu::push_slice;
use crate::pdu::request_pdu;
use crate::pdu::response_pdu;
use crate::pdu::wire_canonical;
use crate::protocol::calculate_crc16;
use crate::protocol::crc16_of;
use crate::protocol::ErrorView;
use crate::protocol::ModbusError;
use crate::protocol::ModbusRequest;
use crate::protocol::ModbusResponse;
use crate::protocol::RequestView;
use crate::protocol::ResponseView;

verus! {

/// The 16-bit word two little-endian bytes denote.
pub open spec fn le16(b0: u8, b1: u8) -> u16 {
    ((b1 as int) * 0x100 + (b0 as int)) as u16
}

/// A 16-bit word as two little-endian bytes.
pub open spec fn le16_bytes(v: u16) -> Seq<u8> {
    seq![(v % 0x100) as u8, (v / 0x100) as u8]
}

/// A body followed by its checksum, little endian.
pub open spec fn with_crc(body: Seq<u8>) -> Seq<u8> {
    body + le16_bytes(crc16_of(body))
}

/// Whether a frame's trailing checksum matches its body.
pub open spec fn crc_ok(s: Seq<u8>) -> bool {
    s.len() >= 2 && crc16_of(s.take(s.len() - 2)) == le16(s[s.len() - 2], s[s.len() - 1])
}

/// The frame a request encodes to: device address, protocol data unit,
/// checksum.
pub open spec fn rtu_request_frame(req: RequestView) -> Result<Seq<u8>, ErrorView> {
    match request_pdu(req) {
        Ok(p) => Ok(with_crc(seq![req.slave_id] + p)),
        Err(e) => Err(e),
    }
}

/// The request a frame decodes to. A checksum mismatch is rejected before
/// the body is interpreted.
pub open spec fn rtu_parse_request(s: Seq<u8>) -> Result<RequestView, ErrorView> {
    if s.len() < 6 {
        Err(ErrorView::InvalidDataLength)
    } else if !crc_ok(s) {
        Err(ErrorView::CrcCheckFailed)
    } else {
        let body = s.take(s.len() - 2);
        parse_request_pdu(body[0], body.skip(1))
    }
}

/// The frame a well-formed response encodes to.
pub open spec fn rtu_response_frame(resp: ResponseView) -> Seq<u8>
    recommends
        resp.wf(),
{
    with_crc(seq![resp.slave_id] + response_pdu(resp))
}

/// The response a frame decodes to.
pub open spec fn rtu_parse_response(s: Seq<u8>) -> Result<ResponseView, ErrorView> {
    if s.len() < 4 {
        Err(ErrorView::InvalidDataLength)
    } else if !crc_ok(s) {
        Err(ErrorView::CrcCheckFailed)
    } else {
        let body = s.take(s.len() - 2);
        parse_response_pdu(body[0], body.skip(1))
    }
}

/// Encoder and decoder for the checksummed serial encapsulation.
pub struct ModbusRtu;

impl ModbusRtu {
    /// Builds a request frame with a freshly computed checksum.
    pub fn build_request(request: &ModbusRequest) -> (r: Result<Vec<u8>, ModbusError>)
        requires
            encodable(request@),
        ensures
            match r {
                Ok(v) => rtu_request_frame(request@) == Ok::<Seq<u8>, ErrorView>(v@),
                Err(e) => rtu_request_frame(request@) == Err::<Seq<u8>, ErrorView>(e@),
            },
    {
        let pdu = match encode_request_pdu(request) {
            Ok(p) => p,
            Err(e) => {
                return Err(e);
            },
        };
        let mut frame: Vec<u8> = Vec::new();
        frame.push(request.slave_id);
        push_slice(&mut frame, pdu.as_slice());
        proof {
            assert(frame@ =~= seq![request@.slave_id] + pdu@);
        }
        let crc = calculate_crc16(frame.as_slice());
        frame.push((crc % 0x100) as u8);
        frame.push((crc / 0x100) as u8);
        proof {
            assert(frame@ =~= with_crc(seq![request@.slave_id] + pdu@));
        }
        Ok(frame)
    }

    /// Parses a request frame, checking the checksum first.
    pub fn parse_request(data: &[u8]) -> (r: Result<ModbusRequest, ModbusError>)
        ensures
            match r {
                Ok(v) => rtu_parse_request(data@) == Ok::<RequestView, ErrorView>(v@),
                Err(e) => rtu_parse_request(data@) == Err::<RequestView, ErrorView>(e@),
            },
    {
        if data.len() < 6 {
            return Err(ModbusError::InvalidDataLength);
        }
        let body = vstd::slice::slice_subrange(data, 0, data.len() - 2);
        let expected = (data[data.len() - 2] as u16) + (data[data.len() - 1] as u16) * 0x100;
        if calculate_crc16(body) != expected {
            return Err(ModbusError::CrcCheckFailed);
        }
        let slave_id = body[0];
        let pdu = vstd::slice::slice_subrange(body, 1, body.len());
        proof {
            assert(body@ =~= data@.take(data@.len() - 2));
            assert(pdu@ =~= data@.take(data@.len() - 2).skip(1));
        }
        decode_request_pdu(slave_id, pdu)
    }

    /// Builds a response frame with a freshly computed checksum.
    pub fn build_response(response: &ModbusResponse) -> (r: Result<Vec<u8>, ModbusError>)
        requires
            response@.wf(),
        ensures
            r matches Ok(v) && v@ == rtu_response_frame(response@),
    {
        let pdu = encode_response_pdu(response);
        let mut frame: Vec<u8> = Vec::new();
        frame.push(response.slave_id);
        push_slice(&mut frame, pdu.as_slice());
        proof {
            assert(frame@ =~= seq![response@.slave_id] + pdu@);
        }
        let crc = calculate_crc16(frame.as_slice());
        frame.push((crc % 0x100) as u8);
        frame.push((crc / 0x100) as u8);
        proof {
            assert(frame@ =~= with_crc(seq![response@.slave_id] + pdu@));
        }
        Ok(frame)
    }

    /// Parses a response frame, checking the checksum first.
    pub fn parse_response(data: &[u8]) -> (r: Result<ModbusResponse, ModbusError>)
        ensures
            match r {
                Ok(v) => rtu_parse_response(data@) == Ok::<ResponseView, ErrorView>(v@),
                Err(e) => rtu_parse_response(data@) == Err::<ResponseView, ErrorView>(e@),
            },
    {
        if data.len() < 4 {
            return Err(ModbusError::InvalidDataLength);
        }
        let body = vstd::slice::slice_subrange(data, 0, data.len() - 2);
        let expected = (data[data.len() - 2] as u16) + (data[data.len() - 1] as u16) * 0x100;
        if calculate_crc16(body) != expected {
            return Err(ModbusError::CrcCheckFailed);
        }
        let slave_id = body[0];
        let pdu = vstd::slice::slice_subrange(body, 1, body.len());
        proof {
            assert(body@ =~= data@.take(data@.len() - 2));
            assert(pdu@ =~= data@.take(data@.len() - 2).skip(1));
        }
        decode_response_pdu(slave_id, pdu)
    }
}

/// The sequence with bit `i` flipped, counting bits least significant
/// first within each byte.
pub open spec fn flip_bit(s: Seq<u8>, i: int) -> Seq<u8> {
    s.update(i / 8, s[i / 8] ^ (1u8 << ((i % 8) as u8)))
}

/// Flipping any single bit of a frame whose checksum matches makes the
/// checksum check fail, whether the bit lies in the body or in the
/// checksum itself.
pub proof fn lemma_flip_breaks_crc(s: Seq<u8>, i: int)
    requires
        crc_ok(s),
        0 <= i < 8 * s.len(),
    ensures
        !crc_ok(flip_bit(s, i)),
{
    let j = i / 8;
    let k = (i % 8) as u8;
    let eb = 1u8 << k;
    assert(0 <= j < s.len());
    assert(k < 8);
    assert((1u8 << k) != 0) by (bit_vector)
        requires
            k < 8,
    ;
    let t = flip_bit(s, i);
    let n = s.len() as int;
    assert(t.len() == n);
    if j < n - 2 {
        assert(t.take(n - 2) =~= s.take(n - 2).update(j, s.take(n - 2)[j] ^ eb));
        crate::protocol::lemma_crc16_detects_bit_flip(s.take(n - 2), j, k);
        assert(t[n - 2] == s[n - 2] && t[n - 1] == s[n - 1]);
    } else {
        assert(t.take(n - 2) =~= s.take(n - 2));
        if j == n - 2 {
            let a = s[n - 2];
            assert(a ^ eb != a) by (bit_vector)
                requires
                    eb != 0,
            ;
            assert(t[n - 2] == a ^ eb && t[n - 1] == s[n - 1]);
        } else {
            let a = s[n - 1];
            assert(a ^ eb != a) by (bit_vector)
                requires
                    eb != 0,
            ;
            assert(t[n - 2] == s[n - 2] && t[n - 1] == a ^ eb);
        }
    }
}

/// Decoding the encoding of a canonical request yields the request back.
pub proof fn lemma_rtu_request_round_trip(req: RequestView)
    requires
        wire_canonical(req),
    ensures
        rtu_request_frame(req) matches Ok(f) && rtu_parse_request(f) == Ok::<
            RequestView,
            ErrorView,
        >(req),
{
    crate::pdu::lemma_request_pdu_round_trip(req);
    let p = request_pdu(req)->Ok_0;
    assert(p.len() >= 5);
    let body = seq![req.slave_id] + p;
    let f = with_crc(body);
    assert(f.len() == body.len() + 2);
    assert(f.len() >= 8);
    assert(f.take(f.len() - 2) =~= body);
    assert(f[f.len() - 2] == le16_bytes(crc16_of(body))[0]);
    assert(f[f.len() - 1] == le16_bytes(crc16_of(body))[1]);
    assert(le16(f[f.len() - 2], f[f.len() - 1]) == crc16_of(body));
    assert(crc_ok(f));
    assert(body[0] == req.slave_id);
    assert(body.skip(1) =~= p);
}

} // verus!
