use modbus::calculate_crc16;
use modbus::verify_crc16;
use modbus::ExceptionCode;
use modbus::FunctionCode;
use modbus::ModbusError;
use modbus::ModbusRequest;
use modbus::ModbusResponse;
use modbus::ModbusRtu;
use modbus::ModbusRtuOverTcp;
use modbus::ModbusTcp;

fn canonical_requests() -> Vec<ModbusRequest> {
    vec![
        ModbusRequest::read_coils(1, 0x0010, 8),
        ModbusRequest::read_discrete_inputs(2, 0x0000, 16),
        ModbusRequest::read_holding_registers(3, 0x0100, 2),
        ModbusRequest::read_input_registers(4, 0xFFFF, 0),
        ModbusRequest {
            slave_id: 5,
            function_code: FunctionCode::WriteSingleCoil,
            address: 0x0002,
            count: 0xFF00,
            data: None,
        },
        ModbusRequest {
            slave_id: 5,
            function_code: FunctionCode::WriteSingleCoil,
            address: 0x0002,
            count: 0x0000,
            data: None,
        },
        ModbusRequest::write_single_register(6, 0x0003, 0xABCD),
        ModbusRequest::write_multiple_coils(7, 0x0004, &[true, false, true]),
        ModbusRequest::write_multiple_registers(8, 0x0005, &[0x1111, 0x2222]),
    ]
}

#[test]
fn test_tcp_request_round_trip() {
    for request in canonical_requests() {
        let frame = ModbusTcp::build_request(&request, 42).unwrap();
        let (transaction_id, parsed) = ModbusTcp::parse_request(&frame).unwrap();
        assert_eq!(transaction_id, 42);
        assert_eq!(parsed, request);
    }
}

#[test]
fn test_rtu_over_tcp_request_round_trip() {
    for request in canonical_requests() {
        let frame = ModbusRtuOverTcp::build_request(&request).unwrap();
        let parsed = ModbusRtuOverTcp::parse_request(&frame).unwrap();
        assert_eq!(parsed, request);
    }
}

#[test]
fn test_rtu_request_round_trip() {
    for request in canonical_requests() {
        let frame = ModbusRtu::build_request(&request).unwrap();
        let parsed = ModbusRtu::parse_request(&frame).unwrap();
        assert_eq!(parsed, request);
    }
}

#[test]
fn test_tcp_request_frame_layout() {
    let request = ModbusRequest::read_holding_registers(1, 0x0010, 2);
    let frame = ModbusTcp::build_request(&request, 7).unwrap();
    assert_eq!(
        frame,
        vec![0x00, 0x07, 0x00, 0x00, 0x00, 0x06, 0x01, 0x03, 0x00, 0x10, 0x00, 0x02]
    );
}

#[test]
fn test_tcp_parse_request_rejects_bad_protocol_id() {
    let frame = vec![0x00, 0x07, 0x00, 0x01, 0x00, 0x06, 0x01, 0x03, 0x00, 0x10, 0x00, 0x02];
    match ModbusTcp::parse_request(&frame) {
        Err(ModbusError::ProtocolError(message)) => {
            assert_eq!(message, "Invalid protocol identifier");
        }
        other => panic!("expected a protocol error, got {:?}", other),
    }
}

#[test]
fn test_tcp_parse_request_rejects_short_frame() {
    let frame = vec![0x00, 0x07, 0x00, 0x00, 0x00, 0x06, 0x01, 0x03];
    assert_eq!(
        ModbusTcp::parse_request(&frame),
        Err(ModbusError::InvalidDataLength)
    );
}

#[test]
fn test_tcp_parse_request_rejects_declared_length_beyond_frame() {
    let frame = vec![0x00, 0x07, 0x00, 0x00, 0x00, 0x20, 0x01, 0x03, 0x00, 0x10, 0x00, 0x02];
    assert_eq!(
        ModbusTcp::parse_request(&frame),
        Err(ModbusError::InvalidDataLength)
    );
}

#[test]
fn test_tcp_parse_response_exception() {
    let frame = vec![0x00, 0x01, 0x00, 0x00, 0x00, 0x03, 0x11, 0x83, 0x02];
    let (transaction_id, response) = ModbusTcp::parse_response(&frame).unwrap();
    assert_eq!(transaction_id, 1);
    assert_eq!(response.slave_id, 0x11);
    assert_eq!(response.function_code, FunctionCode::ReadHoldingRegisters);
    assert!(response.is_exception);
    assert_eq!(response.exception_code, Some(ExceptionCode::IllegalDataAddress));
    assert!(response.data.is_empty());
}

#[test]
fn test_tcp_parse_response_read_payload() {
    let frame = vec![0x00, 0x01, 0x00, 0x00, 0x00, 0x05, 0x01, 0x03, 0x02, 0x12, 0x34];
    let (_, response) = ModbusTcp::parse_response(&frame).unwrap();
    assert!(!response.is_exception);
    assert_eq!(response.data, vec![0x12, 0x34]);
}

#[test]
fn test_tcp_response_round_layout() {
    let response = ModbusResponse {
        slave_id: 1,
        function_code: FunctionCode::ReadCoils,
        data: vec![0x01, 0x05],
        is_exception: false,
        exception_code: None,
    };
    let frame = ModbusTcp::build_response(&response, 9).unwrap();
    assert_eq!(
        frame,
        vec![0x00, 0x09, 0x00, 0x00, 0x00, 0x04, 0x01, 0x01, 0x01, 0x05]
    );
}

#[test]
fn test_rtu_over_tcp_parse_request_rejects_unknown_function() {
    let frame = vec![0x01, 0x07, 0x00, 0x00, 0x00, 0x01];
    assert_eq!(
        ModbusRtuOverTcp::parse_request(&frame),
        Err(ModbusError::InvalidFunctionCode(0x07))
    );
}

#[test]
fn test_rtu_over_tcp_parse_response_rejects_unknown_exception() {
    let frame = vec![0x01, 0x83, 0x99];
    assert_eq!(
        ModbusRtuOverTcp::parse_response(&frame),
        Err(ModbusError::InvalidExceptionCode(0x99))
    );
}

#[test]
fn test_crc16_known_value() {
    assert_eq!(calculate_crc16(b"123456789"), 0x4B37);
    assert_eq!(calculate_crc16(&[]), 0xFFFF);
}

#[test]
fn test_crc16_self_verifies() {
    let samples: Vec<Vec<u8>> = vec![
        vec![],
        vec![0x00],
        vec![0x01, 0x03, 0x00, 0x10, 0x00, 0x02],
        (0u8..=255).collect(),
    ];
    for data in samples {
        let crc = calculate_crc16(&data);
        assert!(verify_crc16(&data, crc));
    }
}

#[test]
fn test_crc16_detects_any_single_bit_flip() {
    let request = ModbusRequest::read_holding_registers(1, 0x0010, 2);
    let frame = ModbusRtu::build_request(&request).unwrap();
    let stored = |f: &[u8]| (f[f.len() - 2] as u16) | ((f[f.len() - 1] as u16) << 8);
    let body_len = frame.len() - 2;
    assert!(verify_crc16(&frame[..body_len], stored(&frame)));
    for bit in 0..frame.len() * 8 {
        let mut corrupted = frame.clone();
        corrupted[bit / 8] ^= 1 << (bit % 8);
        assert!(
            !verify_crc16(&corrupted[..body_len], stored(&corrupted)),
            "flip of bit {} went undetected",
            bit
        );
    }
}

#[test]
fn test_rtu_parse_request_rejects_bad_crc() {
    let request = ModbusRequest::read_coils(1, 0, 1);
    let mut frame = ModbusRtu::build_request(&request).unwrap();
    let last = frame.len() - 1;
    frame[last] ^= 0x01;
    assert_eq!(
        ModbusRtu::parse_request(&frame),
        Err(ModbusError::CrcCheckFailed)
    );
}

#[test]
fn test_rtu_response_round_trip() {
    let response = ModbusResponse {
        slave_id: 2,
        function_code: FunctionCode::ReadHoldingRegisters,
        data: vec![0x02, 0x12, 0x34],
        is_exception: false,
        exception_code: None,
    };
    let frame = ModbusRtu::build_response(&response).unwrap();
    let parsed = ModbusRtu::parse_response(&frame).unwrap();
    assert_eq!(parsed.slave_id, 2);
    assert_eq!(parsed.function_code, FunctionCode::ReadHoldingRegisters);
    // The decoder strips the leading byte count from a read payload.
    assert_eq!(parsed.data, vec![0x12, 0x34]);
}

#[test]
fn test_read_request_count_zero_round_trips() {
    let request = ModbusRequest::read_coils(1, 0x0020, 0);
    let frame = ModbusRtuOverTcp::build_request(&request).unwrap();
    assert_eq!(ModbusRtuOverTcp::parse_request(&frame).unwrap(), request);
}

#[test]
fn test_build_request_missing_payload_is_rejected() {
    let request = ModbusRequest {
        slave_id: 1,
        function_code: FunctionCode::WriteMultipleRegisters,
        address: 0,
        count: 1,
        data: None,
    };
    assert_eq!(
        ModbusRtuOverTcp::build_request(&request),
        Err(ModbusError::InvalidDataLength)
    );
    let request = ModbusRequest {
        slave_id: 1,
        function_code: FunctionCode::WriteSingleRegister,
        address: 0,
        count: 0,
        data: Some(vec![0x01]),
    };
    assert_eq!(
        ModbusTcp::build_request(&request, 1),
        Err(ModbusError::InvalidDataLength)
    );
}

#[test]
fn test_parse_request_truncated_payload_is_rejected() {
    // A multi-coil write that declares five payload bytes but carries two.
    let frame = vec![0x01, 0x0F, 0x00, 0x00, 0x00, 0x03, 0x05, 0xAA, 0xBB];
    assert_eq!(
        ModbusRtuOverTcp::parse_request(&frame),
        Err(ModbusError::InvalidDataLength)
    );
}
