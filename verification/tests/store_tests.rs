use modbus::DeviceRegistry;
use modbus::ExceptionCode;
use modbus::FunctionCode;
use modbus::ModbusError;
use modbus::ModbusRequest;
use modbus::ModbusRtuOverTcp;
use modbus::RegisterStore;
use modbus::server::process_rtu_frame;
use modbus::server::process_rtu_over_tcp_frame;
use modbus::ModbusRtu;

#[test]
fn test_fresh_store_reads_zero() {
    let store = RegisterStore::new();
    assert_eq!(store.get_holding_register(0), 0);
    assert_eq!(store.get_holding_register(12345), 0);
    assert_eq!(store.get_input_register(0xFFFF), 0);
    assert!(!store.get_coil(7));
    assert!(!store.get_discrete_input(8));
}

#[test]
fn test_set_holding_register_leaves_others_zero() {
    let mut store = RegisterStore::new();
    store.set_holding_register(5, 1234);
    assert_eq!(store.get_holding_register(5), 1234);
    assert_eq!(store.get_holding_register(4), 0);
    assert_eq!(store.get_holding_register(6), 0);
    assert_eq!(store.get_holding_register(0), 0);
}

#[test]
fn test_domains_are_independent() {
    let mut store = RegisterStore::new();
    store.set_coil(3, true);
    store.set_discrete_input(4, true);
    store.set_holding_register(3, 77);
    store.set_input_register(3, 88);
    assert!(store.get_coil(3));
    assert!(!store.get_coil(4));
    assert!(store.get_discrete_input(4));
    assert!(!store.get_discrete_input(3));
    assert_eq!(store.get_holding_register(3), 77);
    assert_eq!(store.get_input_register(3), 88);
}

#[test]
fn test_handle_read_coils_packs_bits() {
    let mut store = RegisterStore::new();
    store.set_coil(0, true);
    store.set_coil(2, true);
    store.set_coil(4, true);
    let request = ModbusRequest::read_coils(1, 0, 8);
    let response = store.handle_request(&request);
    assert!(!response.is_exception);
    assert_eq!(response.data, vec![0x01, 0b00010101]);
}

#[test]
fn test_handle_read_coils_partial_byte() {
    let mut store = RegisterStore::new();
    store.set_coil(10, true);
    let request = ModbusRequest::read_coils(1, 9, 9);
    let response = store.handle_request(&request);
    assert_eq!(response.data, vec![0x02, 0b00000010, 0x00]);
}

#[test]
fn test_handle_read_holding_registers_big_endian() {
    let mut store = RegisterStore::new();
    store.set_holding_register(0x10, 0x1234);
    store.set_holding_register(0x11, 0xABCD);
    let request = ModbusRequest::read_holding_registers(1, 0x10, 2);
    let response = store.handle_request(&request);
    assert_eq!(response.data, vec![0x04, 0x12, 0x34, 0xAB, 0xCD]);
}

#[test]
fn test_handle_read_count_zero() {
    let mut store = RegisterStore::new();
    let request = ModbusRequest::read_input_registers(1, 0, 0);
    let response = store.handle_request(&request);
    assert_eq!(response.data, vec![0x00]);
    let request = ModbusRequest::read_coils(1, 0, 0);
    let response = store.handle_request(&request);
    assert_eq!(response.data, vec![0x00]);
}

#[test]
fn test_handle_write_single_coil_updates_and_echoes() {
    let mut store = RegisterStore::new();
    let request = ModbusRequest {
        slave_id: 1,
        function_code: FunctionCode::WriteSingleCoil,
        address: 0x0002,
        count: 0xFF00,
        data: None,
    };
    let response = store.handle_request(&request);
    assert!(store.get_coil(2));
    assert_eq!(response.data, vec![0x00, 0x02, 0xFF, 0x00]);

    let request = ModbusRequest {
        slave_id: 1,
        function_code: FunctionCode::WriteSingleCoil,
        address: 0x0002,
        count: 0x0000,
        data: None,
    };
    store.handle_request(&request);
    assert!(!store.get_coil(2));
}

#[test]
fn test_handle_write_single_register_updates_and_echoes() {
    let mut store = RegisterStore::new();
    let request = ModbusRequest::write_single_register(1, 0x0007, 0xBEEF);
    let response = store.handle_request(&request);
    assert_eq!(store.get_holding_register(7), 0xBEEF);
    assert_eq!(response.data, vec![0x00, 0x07, 0xBE, 0xEF]);
}

#[test]
fn test_handle_write_multiple_coils() {
    let mut store = RegisterStore::new();
    let values = [true, false, true, true, false, false, false, false, true];
    let request = ModbusRequest::write_multiple_coils(1, 100, &values);
    let response = store.handle_request(&request);
    for (i, v) in values.iter().enumerate() {
        assert_eq!(store.get_coil(100 + i as u16), *v);
    }
    assert!(!store.get_coil(99));
    assert!(!store.get_coil(109));
    assert_eq!(response.data, vec![0x00, 100, 0x00, 0x09]);
}

#[test]
fn test_handle_write_multiple_registers() {
    let mut store = RegisterStore::new();
    let request = ModbusRequest::write_multiple_registers(1, 0x20, &[0x0102, 0x0304]);
    let response = store.handle_request(&request);
    assert_eq!(store.get_holding_register(0x20), 0x0102);
    assert_eq!(store.get_holding_register(0x21), 0x0304);
    assert_eq!(store.get_holding_register(0x22), 0);
    assert_eq!(response.data, vec![0x00, 0x20, 0x00, 0x02]);
}

#[test]
fn test_registry_unknown_device_gets_illegal_data_address() {
    let mut registry = DeviceRegistry::new();
    registry.add_slave(1);
    let request = ModbusRequest::read_coils(2, 0, 8);
    let frame = ModbusRtuOverTcp::build_request(&request).unwrap();
    let reply = registry.process_rtu_over_tcp_frame(&frame).unwrap();
    assert_eq!(reply, vec![0x02, 0x81, 0x02]);
    let response = ModbusRtuOverTcp::parse_response(&reply).unwrap();
    assert!(response.is_exception);
    assert_eq!(response.exception_code, Some(ExceptionCode::IllegalDataAddress));
    assert!(response.data.is_empty());
}

#[test]
fn test_registry_known_device_is_served() {
    let mut registry = DeviceRegistry::new();
    registry.add_slave(9);
    registry.set_holding_register(9, 0, 0x5678).unwrap();
    let request = ModbusRequest::read_holding_registers(9, 0, 1);
    let frame = ModbusRtuOverTcp::build_request(&request).unwrap();
    let reply = registry.process_rtu_over_tcp_frame(&frame).unwrap();
    let response = ModbusRtuOverTcp::parse_response(&reply).unwrap();
    assert!(!response.is_exception);
    assert_eq!(response.data, vec![0x56, 0x78]);
}

#[test]
fn test_registry_write_reaches_the_store() {
    let mut registry = DeviceRegistry::new();
    registry.add_slave(3);
    let request = ModbusRequest::write_single_register(3, 4, 0x0042);
    let frame = ModbusRtuOverTcp::build_request(&request).unwrap();
    registry.process_rtu_over_tcp_frame(&frame).unwrap();
    let read = ModbusRequest::read_holding_registers(3, 4, 1);
    let frame = ModbusRtuOverTcp::build_request(&read).unwrap();
    let reply = registry.process_rtu_over_tcp_frame(&frame).unwrap();
    let response = ModbusRtuOverTcp::parse_response(&reply).unwrap();
    assert_eq!(response.data, vec![0x00, 0x42]);
}

#[test]
fn test_registry_set_on_unknown_device_fails() {
    let mut registry = DeviceRegistry::new();
    match registry.set_coil(5, 0, true) {
        Err(ModbusError::ProtocolError(message)) => assert_eq!(message, "Slave not found"),
        other => panic!("expected a protocol error, got {:?}", other),
    }
}

#[test]
fn test_registry_slave_ids_track_membership() {
    let mut registry = DeviceRegistry::new();
    registry.add_slave(3);
    registry.add_slave(1);
    registry.add_slave(2);
    registry.remove_slave(2);
    let ids = registry.get_slave_ids();
    assert!(ids.contains(&1));
    assert!(!ids.contains(&2));
    assert!(ids.contains(&3));
    assert_eq!(ids.len(), 2);
}

#[test]
fn test_single_device_server_drops_foreign_and_malformed_frames() {
    let mut store = RegisterStore::new();
    let request = ModbusRequest::read_coils(2, 0, 8);
    let frame = ModbusRtuOverTcp::build_request(&request).unwrap();
    // The frame addresses device 2; a server for device 1 stays silent.
    assert!(process_rtu_over_tcp_frame(&mut store, 1, &frame).is_none());
    assert!(process_rtu_over_tcp_frame(&mut store, 1, &[0x01]).is_none());
    assert!(process_rtu_over_tcp_frame(&mut store, 1, &[0x01, 0x99, 0x00, 0x00]).is_none());
}

#[test]
fn test_single_device_server_answers_over_rtu() {
    let mut store = RegisterStore::new();
    store.set_input_register(2, 0x0A0B);
    let request = ModbusRequest::read_input_registers(1, 2, 1);
    let frame = ModbusRtu::build_request(&request).unwrap();
    let reply = process_rtu_frame(&mut store, 1, &frame).unwrap();
    let response = ModbusRtu::parse_response(&reply).unwrap();
    assert_eq!(response.data, vec![0x0A, 0x0B]);
}

#[test]
fn test_rtu_server_drops_corrupted_frame() {
    let mut store = RegisterStore::new();
    let request = ModbusRequest::read_coils(1, 0, 8);
    let mut frame = ModbusRtu::build_request(&request).unwrap();
    frame[2] ^= 0x40;
    assert!(process_rtu_frame(&mut store, 1, &frame).is_none());
}

#[test]
fn test_server_drops_odd_register_write_payload() {
    // A multi-register write whose declared byte count is odd cannot be
    // read as 16-bit words; the server drops it without replying.
    let mut store = RegisterStore::new();
    let frame = vec![0x01, 0x10, 0x00, 0x00, 0x00, 0x01, 0x00, 0x03, 0x01, 0x02, 0x03];
    assert!(process_rtu_over_tcp_frame(&mut store, 1, &frame).is_none());
    assert_eq!(store.get_holding_register(0), 0);
}
