use modbus::ByteOrder;
use modbus::DataConverter;
use modbus::ModbusError;

#[test]
fn test_bytes_to_u16_array() {
    let bytes = [0x12, 0x34, 0x56, 0x78];

    let result = DataConverter::bytes_to_u16_array(&bytes, ByteOrder::ABCD).unwrap();
    assert_eq!(result, vec![0x1234, 0x5678]);

    let result = DataConverter::bytes_to_u16_array(&bytes, ByteOrder::DCBA).unwrap();
    assert_eq!(result, vec![0x3412, 0x7856]);
}

#[test]
fn test_u16_array_to_bytes() {
    let values = vec![0x1234, 0x5678];

    let result = DataConverter::u16_array_to_bytes(&values, ByteOrder::ABCD);
    assert_eq!(result, vec![0x12, 0x34, 0x56, 0x78]);

    let result = DataConverter::u16_array_to_bytes(&values, ByteOrder::DCBA);
    assert_eq!(result, vec![0x34, 0x12, 0x78, 0x56]);
}

#[test]
fn test_bool_array_to_bytes() {
    let bools = vec![true, false, true, false, true, false, true, false];
    let result = DataConverter::bool_array_to_bytes(&bools);
    assert_eq!(result, vec![0b01010101]);

    let bools = vec![true, false, true, false, true, false, true, false, true];
    let result = DataConverter::bool_array_to_bytes(&bools);
    assert_eq!(result, vec![0b01010101, 0b00000001]);
}

#[test]
fn test_bytes_to_u16_array_swapped_orders() {
    let bytes = [0x12, 0x34];
    assert_eq!(
        DataConverter::bytes_to_u16_array(&bytes, ByteOrder::BADC).unwrap(),
        vec![0x3412]
    );
    assert_eq!(
        DataConverter::bytes_to_u16_array(&bytes, ByteOrder::CDAB).unwrap(),
        vec![0x1234]
    );
}

#[test]
fn test_bytes_to_u16_array_rejects_odd_length() {
    let bytes = [0x12, 0x34, 0x56];
    let result = DataConverter::bytes_to_u16_array(&bytes, ByteOrder::ABCD);
    assert_eq!(result, Err(ModbusError::InvalidDataLength));
}

#[test]
fn test_bytes_to_u32_array_all_orders() {
    let bytes = [0x12, 0x34, 0x56, 0x78];
    assert_eq!(
        DataConverter::bytes_to_u32_array(&bytes, ByteOrder::ABCD).unwrap(),
        vec![0x12345678]
    );
    assert_eq!(
        DataConverter::bytes_to_u32_array(&bytes, ByteOrder::DCBA).unwrap(),
        vec![0x78563412]
    );
    assert_eq!(
        DataConverter::bytes_to_u32_array(&bytes, ByteOrder::BADC).unwrap(),
        vec![0x34127856]
    );
    assert_eq!(
        DataConverter::bytes_to_u32_array(&bytes, ByteOrder::CDAB).unwrap(),
        vec![0x56781234]
    );
}

#[test]
fn test_bytes_to_u32_array_rejects_misaligned_length() {
    let bytes = [0x12, 0x34, 0x56];
    assert_eq!(
        DataConverter::bytes_to_u32_array(&bytes, ByteOrder::ABCD),
        Err(ModbusError::InvalidDataLength)
    );
}

#[test]
fn test_u32_array_to_bytes_all_orders() {
    let values = vec![0x12345678u32];
    assert_eq!(
        DataConverter::u32_array_to_bytes(&values, ByteOrder::ABCD),
        vec![0x12, 0x34, 0x56, 0x78]
    );
    assert_eq!(
        DataConverter::u32_array_to_bytes(&values, ByteOrder::DCBA),
        vec![0x78, 0x56, 0x34, 0x12]
    );
    assert_eq!(
        DataConverter::u32_array_to_bytes(&values, ByteOrder::BADC),
        vec![0x34, 0x12, 0x78, 0x56]
    );
    assert_eq!(
        DataConverter::u32_array_to_bytes(&values, ByteOrder::CDAB),
        vec![0x56, 0x78, 0x12, 0x34]
    );
}

#[test]
fn test_bytes_to_u64_array_all_orders() {
    let bytes = [0x01, 0x02, 0x03, 0x04, 0x05, 0x06, 0x07, 0x08];
    assert_eq!(
        DataConverter::bytes_to_u64_array(&bytes, ByteOrder::ABCD).unwrap(),
        vec![0x0102030405060708]
    );
    assert_eq!(
        DataConverter::bytes_to_u64_array(&bytes, ByteOrder::DCBA).unwrap(),
        vec![0x0807060504030201]
    );
    assert_eq!(
        DataConverter::bytes_to_u64_array(&bytes, ByteOrder::BADC).unwrap(),
        vec![0x0201040306050807]
    );
    assert_eq!(
        DataConverter::bytes_to_u64_array(&bytes, ByteOrder::CDAB).unwrap(),
        vec![0x0708050603040102]
    );
}

#[test]
fn test_u64_array_to_bytes_inverts_decoding() {
    let bytes = vec![0x01, 0x02, 0x03, 0x04, 0x05, 0x06, 0x07, 0x08];
    for order in [
        ByteOrder::ABCD,
        ByteOrder::DCBA,
        ByteOrder::BADC,
        ByteOrder::CDAB,
    ] {
        let values = DataConverter::bytes_to_u64_array(&bytes, order).unwrap();
        assert_eq!(DataConverter::u64_array_to_bytes(&values, order), bytes);
    }
}

#[test]
fn test_bytes_to_bool_array() {
    let bytes = [0x55];
    assert_eq!(
        DataConverter::bytes_to_bool_array(&bytes, 8),
        vec![true, false, true, false, true, false, true, false]
    );
    assert_eq!(
        DataConverter::bytes_to_bool_array(&bytes, 3),
        vec![true, false, true]
    );
    // The requested count stops at the bits the bytes actually hold.
    assert_eq!(DataConverter::bytes_to_bool_array(&bytes, 20).len(), 8);
}

#[test]
fn test_bool_array_round_trip() {
    let bools = vec![true, true, false, true, false, false, true, false, true, true, false];
    let bytes = DataConverter::bool_array_to_bytes(&bools);
    assert_eq!(
        DataConverter::bytes_to_bool_array(&bytes, bools.len()),
        bools
    );
}

#[test]
fn test_empty_conversions() {
    let empty: [u8; 0] = [];
    assert_eq!(
        DataConverter::bytes_to_u16_array(&empty, ByteOrder::ABCD).unwrap(),
        Vec::<u16>::new()
    );
    assert_eq!(
        DataConverter::bool_array_to_bytes(&[]),
        Vec::<u8>::new()
    );
    assert_eq!(
        DataConverter::bytes_to_bool_array(&empty, 5),
        Vec::<bool>::new()
    );
}
