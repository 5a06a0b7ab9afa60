//! A verified Modbus protocol library.
//!
//! The crate covers the three frame encapsulations (TCP with MBAP header,
//! RTU with CRC-16 checksum, and RTU framing carried over a TCP stream),
//! the word/bit payload codecs, and the per-device register store with the
//! request handling used by servers. All frame layouts and store updates
//! are specified over mathematical models and proved.

pub mod client;
pub mod data;
pub mod modbus_rtu;
pub mod modbus_rtu_over_tcp;
pub mod modbus_tcp;
pub mod pdu;
pub mod protocol;
pub mod registry;
pub mod server;
pub mod store;

pub use data::DataConverter;
pub use modbus_rtu::ModbusRtu;
pub use modbus_rtu_over_tcp::ModbusRtuOverTcp;
pub use modbus_tcp::ModbusTcp;
pub use protocol::calculate_crc16;
pub use protocol::verify_crc16;
pub use protocol::ByteOrder;
pub use protocol::ExceptionCode;
pub use protocol::FunctionCode;
pub use protocol::ModbusError;
pub use protocol::ModbusRequest;
pub use protocol::ModbusResponse;
pub use registry::DeviceRegistry;
pub use store::RegisterStore;
