use modbus::client::TransactionCounter;
use modbus::ByteOrder;
use modbus::ExceptionCode;
use modbus::FunctionCode;
use modbus::ModbusError;
use modbus::ModbusRequest;
use modbus::ModbusResponse;

#[test]
fn test_transaction_counter_increments() {
    let mut counter = TransactionCounter::new();
    assert_eq!(counter.take(), 1);
    assert_eq!(counter.take(), 2);
    assert_eq!(counter.take(), 3);
}

#[test]
fn test_transaction_counter_wraps() {
    let mut counter = TransactionCounter::new();
    for _ in 0..65534 {
        counter.take();
    }
    assert_eq!(counter.take(), 65535);
    assert_eq!(counter.take(), 0);
    assert_eq!(counter.take(), 1);
}

#[test]
fn test_request_constructors_match_wire_conventions() {
    let request = ModbusRequest::read_coils(1, 2, 3);
    assert_eq!(request.function_code, FunctionCode::ReadCoils);
    assert_eq!((request.slave_id, request.address, request.count), (1, 2, 3));
    assert_eq!(request.data, None);

    let request = ModbusRequest::write_single_coil(1, 2, true);
    assert_eq!(request.count, 1);
    let request = ModbusRequest::write_single_coil(1, 2, false);
    assert_eq!(request.count, 0);

    let request = ModbusRequest::write_single_register(1, 2, 0x1234);
    assert_eq!(request.count, 0);
    assert_eq!(request.data, Some(vec![0x12, 0x34]));

    let request = ModbusRequest::write_multiple_coils(1, 2, &[true, true, false]);
    assert_eq!(request.count, 3);
    assert_eq!(request.data, Some(vec![0b00000011]));

    let request = ModbusRequest::write_multiple_registers(1, 2, &[0x0102, 0x0304]);
    assert_eq!(request.count, 2);
    assert_eq!(request.data, Some(vec![0x01, 0x02, 0x03, 0x04]));
}

fn plain_response(function_code: FunctionCode, data: Vec<u8>) -> ModbusResponse {
    ModbusResponse {
        slave_id: 1,
        function_code,
        data,
        is_exception: false,
        exception_code: None,
    }
}

fn exception_response(code: ExceptionCode) -> ModbusResponse {
    ModbusResponse {
        slave_id: 1,
        function_code: FunctionCode::ReadCoils,
        data: Vec::new(),
        is_exception: true,
        exception_code: Some(code),
    }
}

#[test]
fn test_coil_values_unpacks_payload() {
    let response = plain_response(FunctionCode::ReadCoils, vec![0b00010101]);
    assert_eq!(
        response.coil_values(6).unwrap(),
        vec![true, false, true, false, true, false]
    );
}

#[test]
fn test_register_values_reads_big_endian() {
    let response = plain_response(FunctionCode::ReadHoldingRegisters, vec![0x12, 0x34, 0x56, 0x78]);
    assert_eq!(response.register_values().unwrap(), vec![0x1234, 0x5678]);
}

#[test]
fn test_register_values_rejects_odd_payload() {
    let response = plain_response(FunctionCode::ReadHoldingRegisters, vec![0x12, 0x34, 0x56]);
    assert_eq!(
        response.register_values(),
        Err(ModbusError::InvalidDataLength)
    );
}

#[test]
fn test_exception_response_surfaces_as_protocol_error() {
    let response = exception_response(ExceptionCode::IllegalDataAddress);
    match response.coil_values(8) {
        Err(ModbusError::ProtocolError(message)) => {
            assert_eq!(message, "Exception: IllegalDataAddress");
        }
        other => panic!("expected a protocol error, got {:?}", other),
    }
    match exception_response(ExceptionCode::SlaveDeviceBusy).expect_success() {
        Err(ModbusError::ProtocolError(message)) => {
            assert_eq!(message, "Exception: SlaveDeviceBusy");
        }
        other => panic!("expected a protocol error, got {:?}", other),
    }
    assert!(plain_response(FunctionCode::WriteSingleCoil, vec![0, 2, 0xFF, 0])
        .expect_success()
        .is_ok());
}

#[test]
fn test_function_code_wire_values() {
    let codes = [
        (FunctionCode::ReadCoils, 0x01),
        (FunctionCode::ReadDiscreteInputs, 0x02),
        (FunctionCode::ReadHoldingRegisters, 0x03),
        (FunctionCode::ReadInputRegisters, 0x04),
        (FunctionCode::WriteSingleCoil, 0x05),
        (FunctionCode::WriteSingleRegister, 0x06),
        (FunctionCode::WriteMultipleCoils, 0x0F),
        (FunctionCode::WriteMultipleRegisters, 0x10),
    ];
    for (code, byte) in codes {
        assert_eq!(code.to_u8(), byte);
        assert_eq!(FunctionCode::from_u8(byte).unwrap(), code);
    }
    assert_eq!(
        FunctionCode::from_u8(0x2B),
        Err(ModbusError::InvalidFunctionCode(0x2B))
    );
}

#[test]
fn test_exception_code_wire_values() {
    let codes = [
        (ExceptionCode::IllegalFunction, 0x01),
        (ExceptionCode::IllegalDataAddress, 0x02),
        (ExceptionCode::IllegalDataValue, 0x03),
        (ExceptionCode::SlaveDeviceFailure, 0x04),
        (ExceptionCode::Acknowledge, 0x05),
        (ExceptionCode::SlaveDeviceBusy, 0x06),
        (ExceptionCode::MemoryParityError, 0x08),
        (ExceptionCode::GatewayPathUnavailable, 0x0A),
        (ExceptionCode::GatewayTargetDeviceFailedToRespond, 0x0B),
    ];
    for (code, byte) in codes {
        assert_eq!(code.to_u8(), byte);
        assert_eq!(ExceptionCode::from_u8(byte).unwrap(), code);
    }
    assert_eq!(
        ExceptionCode::from_u8(0x07),
        Err(ModbusError::InvalidExceptionCode(0x07))
    );
}

#[test]
fn test_byte_order_u16_round_trip() {
    for order in [
        ByteOrder::ABCD,
        ByteOrder::DCBA,
        ByteOrder::BADC,
        ByteOrder::CDAB,
    ] {
        let bytes = order.u16_to_bytes(0xBEEF);
        assert_eq!(order.bytes_to_u16(&bytes).unwrap(), 0xBEEF);
        let bytes = order.u32_to_bytes(0xDEADBEEF);
        assert_eq!(order.bytes_to_u32(&bytes).unwrap(), 0xDEADBEEF);
    }
    assert_eq!(
        ByteOrder::ABCD.bytes_to_u16(&[0x01]),
        Err(ModbusError::InvalidDataLength)
    );
    assert_eq!(
        ByteOrder::ABCD.bytes_to_u32(&[0x01, 0x02, 0x03]),
        Err(ModbusError::InvalidDataLength)
    );
}
