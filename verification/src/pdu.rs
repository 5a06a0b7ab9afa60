//! The protocol data unit shared by all three frame encapsulations: the
//! function-code byte, the big-endian address, and the operation-specific
//! payload. Each frame codec wraps this grammar in its own header or
//! checksum.

use vstd::prelude::*;
use crate::protocol::ErrorView;
use crate::protocol::FunctionCode;
use crate::protocol::ModbusError;
use crate::protocol::ModbusRequest;
use crate::protocol::ModbusResponse;
use crate::protocol::RequestView;
use crate::protocol::ResponseView;

verus! {

/// The 16-bit word two big-endian bytes denote.
pub open spec fn be16(b0: u8, b1: u8) -> u16 {
    ((b0 as int) * 0x100 + (b1 as int)) as u16
}

/// A 16-bit word as two big-endian bytes.
pub open spec fn be16_bytes(v: u16) -> Seq<u8> {
    seq![(v / 0x100) as u8, (v % 0x100) as u8]
}

/// The fields a request must satisfy so that its byte-count field can be
/// represented on the wire: a multi-coil write packs its byte count into
/// one byte, a multi-register write into one 16-bit word.
pub open spec fn encodable(req: RequestView) -> bool {
    match req.function_code {
        FunctionCode::WriteMultipleCoils => req.count <= 2040,
        FunctionCode::WriteMultipleRegisters => req.count <= 32767,
        _ => true,
    }
}

/// The requests whose encoding decodes back to the same value: read
/// requests carry no payload, a single-coil write uses the two wire
/// values, and write payloads match their declared counts.
pub open spec fn wire_canonical(req: RequestView) -> bool {
    match req.function_code {
        FunctionCode::ReadCoils
        | FunctionCode::ReadDiscreteInputs
        | FunctionCode::ReadHoldingRegisters
        | FunctionCode::ReadInputRegisters => req.data is None,
        FunctionCode::WriteSingleCoil => req.data is None && (req.count == 0 || req.count
            == 0xFF00),
        FunctionCode::WriteSingleRegister => req.count == 0 && match req.data {
            Some(d) => d.len() == 2,
            None => false,
        },
        FunctionCode::WriteMultipleCoils => req.count <= 2040 && match req.data {
            Some(d) => d.len() == (req.count + 7) / 8,
            None => false,
        },
        FunctionCode::WriteMultipleRegisters => req.count <= 32767 && match req.data {
            Some(d) => d.len() == 2 * req.count,
            None => false,
        },
    }
}

/// The protocol data unit a request encodes to: function code, address,
/// and the operation's payload.
pub open spec fn request_pdu(req: RequestView) -> Result<Seq<u8>, ErrorView> {
    let head = seq![req.function_code.wire_code()] + be16_bytes(req.address);
    match req.function_code {
        FunctionCode::ReadCoils
        | FunctionCode::ReadDiscreteInputs
        | FunctionCode::ReadHoldingRegisters
        | FunctionCode::ReadInputRegisters => Ok(head + be16_bytes(req.count)),
        FunctionCode::WriteSingleCoil => Ok(
            head + be16_bytes(
                if req.count > 0 {
                    0xFF00u16
                } else {
                    0u16
                },
            ),
        ),
        FunctionCode::WriteSingleRegister => match req.data {
            Some(d) => if d.len() >= 2 {
                Ok(head + seq![d[0], d[1]])
            } else {
                Err(ErrorView::InvalidDataLength)
            },
            None => Err(ErrorView::InvalidDataLength),
        },
        FunctionCode::WriteMultipleCoils => match req.data {
            Some(d) => Ok(
                head + be16_bytes(req.count) + seq![(((req.count + 7) as int) / 8) as u8] + d,
            ),
            None => Err(ErrorView::InvalidDataLength),
        },
        FunctionCode::WriteMultipleRegisters => match req.data {
            Some(d) => Ok(
                head + be16_bytes(req.count) + be16_bytes(((req.count as int) * 2) as u16) + d,
            ),
            None => Err(ErrorView::InvalidDataLength),
        },
    }
}

/// The request a protocol data unit decodes to, for a frame addressed to
/// `slave`. A unit too short for its operation is rejected as
/// `InvalidDataLength`; an unknown function code as
/// `InvalidFunctionCode`. Trailing bytes beyond the operation's payload
/// are ignored.
pub open spec fn parse_request_pdu(slave: u8, s: Seq<u8>) -> Result<RequestView, ErrorView> {
    if s.len() < 1 {
        Err(ErrorView::InvalidDataLength)
    } else {
        match FunctionCode::spec_from_u8(s[0]) {
            None => Err(ErrorView::InvalidFunctionCode(s[0])),
            Some(fc) => {
                if s.len() < 3 {
                    Err(ErrorView::InvalidDataLength)
                } else {
                    let address = be16(s[1], s[2]);
                    match fc {
                        FunctionCode::ReadCoils
                        | FunctionCode::ReadDiscreteInputs
                        | FunctionCode::ReadHoldingRegisters
                        | FunctionCode::ReadInputRegisters
                        | FunctionCode::WriteSingleCoil => if s.len() < 5 {
                            Err(ErrorView::InvalidDataLength)
                        } else {
                            Ok(
                                RequestView {
                                    slave_id: slave,
                                    function_code: fc,
                                    address,
                                    count: be16(s[3], s[4]),
                                    data: None,
                                },
                            )
                        },
                        FunctionCode::WriteSingleRegister => if s.len() < 5 {
                            Err(ErrorView::InvalidDataLength)
                        } else {
                            Ok(
                                RequestView {
                                    slave_id: slave,
                                    function_code: fc,
                                    address,
                                    count: 0,
                                    data: Some(seq![s[3], s[4]]),
                                },
                            )
                        },
                        FunctionCode::WriteMultipleCoils => if s.len() < 6 {
                            Err(ErrorView::InvalidDataLength)
                        } else {
                            if s.len() < 6 + s[5] {
                                Err(ErrorView::InvalidDataLength)
                            } else {
                                Ok(
                                    RequestView {
                                        slave_id: slave,
                                        function_code: fc,
                                        address,
                                        count: be16(s[3], s[4]),
                                        data: Some(s.subrange(6, 6 + s[5])),
                                    },
                                )
                            }
                        },
                        FunctionCode::WriteMultipleRegisters => if s.len() < 7 {
                            Err(ErrorView::InvalidDataLength)
                        } else {
                            if s.len() < 7 + be16(s[5], s[6]) {
                                Err(ErrorView::InvalidDataLength)
                            } else {
                                Ok(
                                    RequestView {
                                        slave_id: slave,
                                        function_code: fc,
                                        address,
                                        count: be16(s[3], s[4]),
                                        data: Some(s.subrange(7, 7 + be16(s[5], s[6]))),
                                    },
                                )
                            }
                        },
                    }
                }
            },
        }
    }
}

/// The protocol data unit a well-formed response encodes to: the function
/// code with its high bit set followed by the exception code, or the
/// function code followed by the payload.
pub open spec fn response_pdu(resp: ResponseView) -> Seq<u8>
    recommends
        resp.wf(),
{
    if resp.is_exception {
        match resp.exception_code {
            Some(ec) => seq![resp.function_code.wire_code() | 0x80u8, ec.wire_code()],
            None => seq![resp.function_code.wire_code() | 0x80u8],
        }
    } else {
        seq![resp.function_code.wire_code()] + resp.data
    }
}

/// The response a protocol data unit decodes to, for a frame from
/// `slave`. Read responses carry a byte count and that many bytes; write
/// responses echo four bytes. Trailing bytes beyond that are ignored.
pub open spec fn parse_response_pdu(slave: u8, s: Seq<u8>) -> Result<ResponseView, ErrorView> {
    if s.len() < 1 {
        Err(ErrorView::InvalidDataLength)
    } else {
        let fcb = s[0];
        if fcb & 0x80 != 0 {
            match FunctionCode::spec_from_u8(fcb & 0x7F) {
                None => Err(ErrorView::InvalidFunctionCode(fcb & 0x7F)),
                Some(fc) => if s.len() < 2 {
                    Err(ErrorView::InvalidDataLength)
                } else {
                    match crate::protocol::ExceptionCode::spec_from_u8(s[1]) {
                        None => Err(ErrorView::InvalidExceptionCode(s[1])),
                        Some(ec) => Ok(
                            ResponseView {
                                slave_id: slave,
                                function_code: fc,
                                data: Seq::empty(),
                                is_exception: true,
                                exception_code: Some(ec),
                            },
                        ),
                    }
                },
            }
        } else {
            match FunctionCode::spec_from_u8(fcb) {
                None => Err(ErrorView::InvalidFunctionCode(fcb)),
                Some(fc) => match fc {
                    FunctionCode::ReadCoils
                    | FunctionCode::ReadDiscreteInputs
                    | FunctionCode::ReadHoldingRegisters
                    | FunctionCode::ReadInputRegisters => if s.len() < 2 {
                        Err(ErrorView::InvalidDataLength)
                    } else {
                        if s.len() < 2 + s[1] {
                            Err(ErrorView::InvalidDataLength)
                        } else {
                            Ok(
                                ResponseView {
                                    slave_id: slave,
                                    function_code: fc,
                                    data: s.subrange(2, 2 + s[1]),
                                    is_exception: false,
                                    exception_code: None,
                                },
                            )
                        }
                    },
                    _ => if s.len() < 5 {
                        Err(ErrorView::InvalidDataLength)
                    } else {
                        Ok(
                            ResponseView {
                                slave_id: slave,
                                function_code: fc,
                                data: s.subrange(1, 5),
                                is_exception: false,
                                exception_code: None,
                            },
                        )
                    },
                },
            }
        }
    }
}

/// Appends a 16-bit word to `out`, big endian.
pub fn push_u16_be(out: &mut Vec<u8>, v: u16)
    ensures
        final(out)@ == old(out)@ + be16_bytes(v),
{
    out.push((v / 0x100) as u8);
    out.push((v % 0x100) as u8);
    proof {
        assert(out@ =~= old(out)@ + be16_bytes(v));
    }
}

/// Appends a byte slice to `out`.
pub fn push_slice(out: &mut Vec<u8>, src: &[u8])
    ensures
        final(out)@ == old(out)@ + src@,
{
    let mut i: usize = 0;
    while i < src.len()
        invariant
            i <= src@.len(),
            out@ == old(out)@ + src@.take(i as int),
        decreases src@.len() - i,
    {
        out.push(src[i]);
        proof {
            assert(old(out)@ + src@.take(i as int) + seq![src@[i as int]] =~= old(out)@
                + src@.take(i + 1));
        }
        i += 1;
    }
    proof {
        assert(src@.take(src@.len() as int) =~= src@);
    }
}

/// Encodes a request's protocol data unit. A register write without its
/// payload is rejected as `InvalidDataLength`.
pub fn encode_request_pdu(request: &ModbusRequest) -> (r: Result<Vec<u8>, ModbusError>)
    requires
        encodable(request@),
    ensures
        match r {
            Ok(v) => request_pdu(request@) == Ok::<Seq<u8>, ErrorView>(v@),
            Err(e) => request_pdu(request@) == Err::<Seq<u8>, ErrorView>(e@),
        },
{
    let mut out: Vec<u8> = Vec::new();
    out.push(request.function_code.to_u8());
    push_u16_be(&mut out, request.address);
    match request.function_code {
        FunctionCode::ReadCoils
        | FunctionCode::ReadDiscreteInputs
        | FunctionCode::ReadHoldingRegisters
        | FunctionCode::ReadInputRegisters => {
            push_u16_be(&mut out, request.count);
        },
        FunctionCode::WriteSingleCoil => {
            let value: u16 = if request.count > 0 {
                0xFF00
            } else {
                0x0000
            };
            push_u16_be(&mut out, value);
        },
        FunctionCode::WriteSingleRegister => {
            match &request.data {
                Some(d) => {
                    if d.len() >= 2 {
                        out.push(d[0]);
                        out.push(d[1]);
                    } else {
                        return Err(ModbusError::InvalidDataLength);
                    }
                },
                None => {
                    return Err(ModbusError::InvalidDataLength);
                },
            }
        },
        FunctionCode::WriteMultipleCoils => {
            match &request.data {
                Some(d) => {
                    push_u16_be(&mut out, request.count);
                    let byte_count = ((request.count + 7) / 8) as u8;
                    out.push(byte_count);
                    push_slice(&mut out, d.as_slice());
                },
                None => {
                    return Err(ModbusError::InvalidDataLength);
                },
            }
        },
        FunctionCode::WriteMultipleRegisters => {
            match &request.data {
                Some(d) => {
                    push_u16_be(&mut out, request.count);
                    push_u16_be(&mut out, request.count * 2);
                    push_slice(&mut out, d.as_slice());
                },
                None => {
                    return Err(ModbusError::InvalidDataLength);
                },
            }
        },
    }
    proof {
        assert(request_pdu(request@) matches Ok(p) && out@ =~= p);
    }
    Ok(out)
}

/// Decodes a request's protocol data unit for a frame addressed to
/// `slave`.
pub fn decode_request_pdu(slave: u8, pdu: &[u8]) -> (r: Result<ModbusRequest, ModbusError>)
    ensures
        match r {
            Ok(v) => parse_request_pdu(slave, pdu@) == Ok::<RequestView, ErrorView>(v@),
            Err(e) => parse_request_pdu(slave, pdu@) == Err::<RequestView, ErrorView>(e@),
        },
{
    if pdu.len() < 1 {
        return Err(ModbusError::InvalidDataLength);
    }
    let function_code = match FunctionCode::from_u8(pdu[0]) {
        Ok(fc) => fc,
        Err(e) => {
            return Err(e);
        },
    };
    if pdu.len() < 3 {
        return Err(ModbusError::InvalidDataLength);
    }
    let address = (pdu[1] as u16) * 0x100 + (pdu[2] as u16);
    match function_code {
        FunctionCode::ReadCoils
        | FunctionCode::ReadDiscreteInputs
        | FunctionCode::ReadHoldingRegisters
        | FunctionCode::ReadInputRegisters
        | FunctionCode::WriteSingleCoil => {
            if pdu.len() < 5 {
                return Err(ModbusError::InvalidDataLength);
            }
            let count = (pdu[3] as u16) * 0x100 + (pdu[4] as u16);
            Ok(
                ModbusRequest {
                    slave_id: slave,
                    function_code,
                    address,
                    count,
                    data: None,
                },
            )
        },
        FunctionCode::WriteSingleRegister => {
            if pdu.len() < 5 {
                return Err(ModbusError::InvalidDataLength);
            }
            let mut value_bytes: Vec<u8> = Vec::new();
            value_bytes.push(pdu[3]);
            value_bytes.push(pdu[4]);
            proof {
                assert(value_bytes@ =~= seq![pdu@[3], pdu@[4]]);
            }
            Ok(
                ModbusRequest {
                    slave_id: slave,
                    function_code,
                    address,
                    count: 0,
                    data: Some(value_bytes),
                },
            )
        },
        FunctionCode::WriteMultipleCoils => {
            if pdu.len() < 6 {
                return Err(ModbusError::InvalidDataLength);
            }
            let byte_count = pdu[5] as usize;
            if pdu.len() < 6 + byte_count {
                return Err(ModbusError::InvalidDataLength);
            }
            let count = (pdu[3] as u16) * 0x100 + (pdu[4] as u16);
            let payload = vstd::slice::slice_to_vec(
                vstd::slice::slice_subrange(pdu, 6, 6 + byte_count),
            );
            Ok(
                ModbusRequest {
                    slave_id: slave,
                    function_code,
                    address,
                    count,
                    data: Some(payload),
                },
            )
        },
        FunctionCode::WriteMultipleRegisters => {
            if pdu.len() < 7 {
                return Err(ModbusError::InvalidDataLength);
            }
            let byte_count = (pdu[5] as usize) * 0x100 + (pdu[6] as usize);
            if pdu.len() < 7 + byte_count {
                return Err(ModbusError::InvalidDataLength);
            }
            let count = (pdu[3] as u16) * 0x100 + (pdu[4] as u16);
            let payload = vstd::slice::slice_to_vec(
                vstd::slice::slice_subrange(pdu, 7, 7 + byte_count),
            );
            Ok(
                ModbusRequest {
                    slave_id: slave,
                    function_code,
                    address,
                    count,
                    data: Some(payload),
                },
            )
        },
    }
}

/// Encodes a well-formed response's protocol data unit.
pub fn encode_response_pdu(response: &ModbusResponse) -> (r: Vec<u8>)
    requires
        response@.wf(),
    ensures
        r@ == response_pdu(response@),
{
    let mut out: Vec<u8> = Vec::new();
    if response.is_exception {
        out.push(response.function_code.to_u8() | 0x80);
        match &response.exception_code {
            Some(ec) => {
                out.push(ec.to_u8());
            },
            None => {
            },
        }
        proof {
            assert(out@ =~= response_pdu(response@));
        }
    } else {
        out.push(response.function_code.to_u8());
        push_slice(&mut out, response.data.as_slice());
        proof {
            assert(out@ =~= response_pdu(response@));
        }
    }
    out
}

/// Decodes a response's protocol data unit for a frame from `slave`.
pub fn decode_response_pdu(slave: u8, pdu: &[u8]) -> (r: Result<ModbusResponse, ModbusError>)
    ensures
        match r {
            Ok(v) => parse_response_pdu(slave, pdu@) == Ok::<ResponseView, ErrorView>(v@),
            Err(e) => parse_response_pdu(slave, pdu@) == Err::<ResponseView, ErrorView>(e@),
        },
{
    if pdu.len() < 1 {
        return Err(ModbusError::InvalidDataLength);
    }
    let fcb = pdu[0];
    if fcb & 0x80 != 0 {
        let function_code = match FunctionCode::from_u8(fcb & 0x7F) {
            Ok(fc) => fc,
            Err(e) => {
                return Err(e);
            },
        };
        if pdu.len() < 2 {
            return Err(ModbusError::InvalidDataLength);
        }
        let exception_code = match crate::protocol::ExceptionCode::from_u8(pdu[1]) {
            Ok(ec) => ec,
            Err(e) => {
                return Err(e);
            },
        };
        let response = ModbusResponse {
            slave_id: slave,
            function_code,
            data: Vec::new(),
            is_exception: true,
            exception_code: Some(exception_code),
        };
        proof {
            assert(response@.data =~= Seq::<u8>::empty());
        }
        Ok(response)
    } else {
        let function_code = match FunctionCode::from_u8(fcb) {
            Ok(fc) => fc,
            Err(e) => {
                return Err(e);
            },
        };
        match function_code {
            FunctionCode::ReadCoils
            | FunctionCode::ReadDiscreteInputs
            | FunctionCode::ReadHoldingRegisters
            | FunctionCode::ReadInputRegisters => {
                if pdu.len() < 2 {
                    return Err(ModbusError::InvalidDataLength);
                }
                let byte_count = pdu[1] as usize;
                if pdu.len() < 2 + byte_count {
                    return Err(ModbusError::InvalidDataLength);
                }
                let payload = vstd::slice::slice_to_vec(
                    vstd::slice::slice_subrange(pdu, 2, 2 + byte_count),
                );
                Ok(
                    ModbusResponse {
                        slave_id: slave,
                        function_code,
                        data: payload,
                        is_exception: false,
                        exception_code: None,
                    },
                )
            },
            _ => {
                if pdu.len() < 5 {
                    return Err(ModbusError::InvalidDataLength);
                }
                let payload = vstd::slice::slice_to_vec(vstd::slice::slice_subrange(pdu, 1, 5));
                Ok(
                    ModbusResponse {
                        slave_id: slave,
                        function_code,
                        data: payload,
                        is_exception: false,
                        exception_code: None,
                    },
                )
            },
        }
    }
}

/// Decoding a canonical request's protocol data unit yields the request
/// back.
pub proof fn lemma_request_pdu_round_trip(req: RequestView)
    requires
        wire_canonical(req),
    ensures
        request_pdu(req) matches Ok(p) && parse_request_pdu(req.slave_id, p) == Ok::<
            RequestView,
            ErrorView,
        >(req),
{
    let fc = req.function_code;
    let head = seq![fc.wire_code()] + be16_bytes(req.address);
    assert(head.len() == 3);
    assert(head[0] == fc.wire_code());
    assert(head[1] == (req.address / 0x100) as u8);
    assert(head[2] == (req.address % 0x100) as u8);
    assert(FunctionCode::spec_from_u8(fc.wire_code()) == Some(fc));
    assert(be16(head[1], head[2]) == req.address);
    match fc {
        FunctionCode::ReadCoils
        | FunctionCode::ReadDiscreteInputs
        | FunctionCode::ReadHoldingRegisters
        | FunctionCode::ReadInputRegisters
        | FunctionCode::WriteSingleCoil => {
            let emitted: u16 = if fc is WriteSingleCoil {
                if req.count > 0 {
                    0xFF00u16
                } else {
                    0u16
                }
            } else {
                req.count
            };
            let p = head + be16_bytes(emitted);
            assert(request_pdu(req) == Ok::<Seq<u8>, ErrorView>(p));
            assert(p.len() == 5);
            assert(p[0] == fc.wire_code());
            assert(p[1] == head[1] && p[2] == head[2]);
            assert(be16(p[3], p[4]) == emitted);
            assert(emitted == req.count);
            let parsed = parse_request_pdu(req.slave_id, p);
            assert(parsed matches Ok(q) && q =~= req);
        },
        FunctionCode::WriteSingleRegister => {
            let d = req.data->Some_0;
            let p = head + seq![d[0], d[1]];
            assert(request_pdu(req) == Ok::<Seq<u8>, ErrorView>(p));
            assert(p.len() == 5);
            assert(p[3] == d[0] && p[4] == d[1]);
            assert(seq![p[3], p[4]] =~= d);
            let parsed = parse_request_pdu(req.slave_id, p);
            assert(parsed matches Ok(q) && q =~= req);
        },
        FunctionCode::WriteMultipleCoils => {
            let d = req.data->Some_0;
            let bc = ((req.count + 7) as int) / 8;
            let p = head + be16_bytes(req.count) + seq![bc as u8] + d;
            assert(request_pdu(req) == Ok::<Seq<u8>, ErrorView>(p));
            assert(p.len() == 6 + d.len());
            assert(p[0] == fc.wire_code());
            assert(p[1] == head[1] && p[2] == head[2]);
            assert(be16(p[3], p[4]) == req.count);
            assert(0 <= bc <= 255);
            assert(p[5] == bc as u8);
            assert(p[5] == d.len());
            assert(p.subrange(6, 6 + p[5]) =~= d);
            let parsed = parse_request_pdu(req.slave_id, p);
            assert(parsed matches Ok(q) && q =~= req);
        },
        FunctionCode::WriteMultipleRegisters => {
            let d = req.data->Some_0;
            let bc = (req.count as int) * 2;
            let p = head + be16_bytes(req.count) + be16_bytes(bc as u16) + d;
            assert(request_pdu(req) == Ok::<Seq<u8>, ErrorView>(p));
            assert(p.len() == 7 + d.len());
            assert(p[0] == fc.wire_code());
            assert(p[1] == head[1] && p[2] == head[2]);
            assert(be16(p[3], p[4]) == req.count);
            assert(0 <= bc <= 65534);
            assert(be16(p[5], p[6]) == bc as u16);
            assert(be16(p[5], p[6]) == d.len());
            assert(p.subrange(7, 7 + be16(p[5], p[6])) =~= d);
            let parsed = parse_request_pdu(req.slave_id, p);
            assert(parsed matches Ok(q) && q =~= req);
        },
    }
}

} // verus!
