use vstd::prelude::*;

verus! {

/// The eight Modbus operations. Their numeric wire codes are fixed by the
/// protocol and given by [`FunctionCode::wire_code`].
#[derive(Clone, Copy, Debug, PartialEq, Eq, Structural)]
pub enum FunctionCode {
    ReadCoils,
    ReadDiscreteInputs,
    ReadHoldingRegisters,
    ReadInputRegisters,
    WriteSingleCoil,
    WriteSingleRegister,
    WriteMultipleCoils,
    WriteMultipleRegisters,
}

impl FunctionCode {
    /// The single-byte code this operation has on the wire.
    pub open spec fn wire_code(self) -> u8 {
        match self {
            FunctionCode::ReadCoils => 0x01,
            FunctionCode::ReadDiscreteInputs => 0x02,
            FunctionCode::ReadHoldingRegisters => 0x03,
            FunctionCode::ReadInputRegisters => 0x04,
            FunctionCode::WriteSingleCoil => 0x05,
            FunctionCode::WriteSingleRegister => 0x06,
            FunctionCode::WriteMultipleCoils => 0x0F,
            FunctionCode::WriteMultipleRegisters => 0x10,
        }
    }

    /// The operation a wire code denotes, if any.
    pub open spec fn spec_from_u8(code: u8) -> Option<FunctionCode> {
        if code == 0x01 {
            Some(FunctionCode::ReadCoils)
        } else if code == 0x02 {
            Some(FunctionCode::ReadDiscreteInputs)
        } else if code == 0x03 {
            Some(FunctionCode::ReadHoldingRegisters)
        } else if code == 0x04 {
            Some(FunctionCode::ReadInputRegisters)
        } else if code == 0x05 {
            Some(FunctionCode::WriteSingleCoil)
        } else if code == 0x06 {
            Some(FunctionCode::WriteSingleRegister)
        } else if code == 0x0F {
            Some(FunctionCode::WriteMultipleCoils)
        } else if code == 0x10 {
            Some(FunctionCode::WriteMultipleRegisters)
        } else {
            None
        }
    }

    /// Decodes a wire code, rejecting the bytes that denote no operation.
    pub fn from_u8(code: u8) -> (r: Result<Self, ModbusError>)
        ensures
            match FunctionCode::spec_from_u8(code) {
                Some(fc) => r == Ok::<FunctionCode, ModbusError>(fc),
                None => r == Err::<FunctionCode, ModbusError>(
                    ModbusError::InvalidFunctionCode(code),
                ),
            },
    {
        match code {
            0x01 => Ok(FunctionCode::ReadCoils),
            0x02 => Ok(FunctionCode::ReadDiscreteInputs),
            0x03 => Ok(FunctionCode::ReadHoldingRegisters),
            0x04 => Ok(FunctionCode::ReadInputRegisters),
            0x05 => Ok(FunctionCode::WriteSingleCoil),
            0x06 => Ok(FunctionCode::WriteSingleRegister),
            0x0F => Ok(FunctionCode::WriteMultipleCoils),
            0x10 => Ok(FunctionCode::WriteMultipleRegisters),
            _ => Err(ModbusError::InvalidFunctionCode(code)),
        }
    }

    /// Returns the operation's wire code.
    pub fn to_u8(self) -> (r: u8)
        ensures
            r == self.wire_code(),
    {
        match self {
            FunctionCode::ReadCoils => 0x01,
            FunctionCode::ReadDiscreteInputs => 0x02,
            FunctionCode::ReadHoldingRegisters => 0x03,
            FunctionCode::ReadInputRegisters => 0x04,
            FunctionCode::WriteSingleCoil => 0x05,
            FunctionCode::WriteSingleRegister => 0x06,
            FunctionCode::WriteMultipleCoils => 0x0F,
            FunctionCode::WriteMultipleRegisters => 0x10,
        }
    }
}

/// The exception codes a device may answer with. Their numeric wire codes
/// are given by [`ExceptionCode::wire_code`].
#[derive(Clone, Copy, Debug, PartialEq, Eq, Structural)]
pub enum ExceptionCode {
    IllegalFunction,
    IllegalDataAddress,
    IllegalDataValue,
    SlaveDeviceFailure,
    Acknowledge,
    SlaveDeviceBusy,
    MemoryParityError,
    GatewayPathUnavailable,
    GatewayTargetDeviceFailedToRespond,
}

impl ExceptionCode {
    /// The single-byte code this exception has on the wire.
    pub open spec fn wire_code(self) -> u8 {
        match self {
            ExceptionCode::IllegalFunction => 0x01,
            ExceptionCode::IllegalDataAddress => 0x02,
            ExceptionCode::IllegalDataValue => 0x03,
            ExceptionCode::SlaveDeviceFailure => 0x04,
            ExceptionCode::Acknowledge => 0x05,
            ExceptionCode::SlaveDeviceBusy => 0x06,
            ExceptionCode::MemoryParityError => 0x08,
            ExceptionCode::GatewayPathUnavailable => 0x0A,
            ExceptionCode::GatewayTargetDeviceFailedToRespond => 0x0B,
        }
    }

    /// The exception a wire code denotes, if any.
    pub open spec fn spec_from_u8(code: u8) -> Option<ExceptionCode> {
        if code == 0x01 {
            Some(ExceptionCode::IllegalFunction)
        } else if code == 0x02 {
            Some(ExceptionCode::IllegalDataAddress)
        } else if code == 0x03 {
            Some(ExceptionCode::IllegalDataValue)
        } else if code == 0x04 {
            Some(ExceptionCode::SlaveDeviceFailure)
        } else if code == 0x05 {
            Some(ExceptionCode::Acknowledge)
        } else if code == 0x06 {
            Some(ExceptionCode::SlaveDeviceBusy)
        } else if code == 0x08 {
            Some(ExceptionCode::MemoryParityError)
        } else if code == 0x0A {
            Some(ExceptionCode::GatewayPathUnavailable)
        } else if code == 0x0B {
            Some(ExceptionCode::GatewayTargetDeviceFailedToRespond)
        } else {
            None
        }
    }

    /// Decodes a wire code, rejecting the bytes that denote no exception.
    pub fn from_u8(code: u8) -> (r: Result<Self, ModbusError>)
        ensures
            match ExceptionCode::spec_from_u8(code) {
                Some(ec) => r == Ok::<ExceptionCode, ModbusError>(ec),
                None => r == Err::<ExceptionCode, ModbusError>(
                    ModbusError::InvalidExceptionCode(code),
                ),
            },
    {
        match code {
            0x01 => Ok(ExceptionCode::IllegalFunction),
            0x02 => Ok(ExceptionCode::IllegalDataAddress),
            0x03 => Ok(ExceptionCode::IllegalDataValue),
            0x04 => Ok(ExceptionCode::SlaveDeviceFailure),
            0x05 => Ok(ExceptionCode::Acknowledge),
            0x06 => Ok(ExceptionCode::SlaveDeviceBusy),
            0x08 => Ok(ExceptionCode::MemoryParityError),
            0x0A => Ok(ExceptionCode::GatewayPathUnavailable),
            0x0B => Ok(ExceptionCode::GatewayTargetDeviceFailedToRespond),
            _ => Err(ModbusError::InvalidExceptionCode(code)),
        }
    }

    /// Returns the exception's wire code.
    pub fn to_u8(self) -> (r: u8)
        ensures
            r == self.wire_code(),
    {
        match self {
            ExceptionCode::IllegalFunction => 0x01,
            ExceptionCode::IllegalDataAddress => 0x02,
            ExceptionCode::IllegalDataValue => 0x03,
            ExceptionCode::SlaveDeviceFailure => 0x04,
            ExceptionCode::Acknowledge => 0x05,
            ExceptionCode::SlaveDeviceBusy => 0x06,
            ExceptionCode::MemoryParityError => 0x08,
            ExceptionCode::GatewayPathUnavailable => 0x0A,
            ExceptionCode::GatewayTargetDeviceFailedToRespond => 0x0B,
        }
    }
}

/// Everything that can go wrong while encoding, decoding, or exchanging
/// Modbus frames. Transport-level failures carry a description supplied by
/// the transport layer.
#[derive(Clone, Debug, PartialEq)]
pub enum ModbusError {
    InvalidFunctionCode(u8),
    InvalidExceptionCode(u8),
    InvalidDataLength,
    CrcCheckFailed,
    IoError(String),
    SerialError(String),
    NetworkError(String),
    ProtocolError(String),
    TimeoutError,
}

/// The mathematical shape of a [`ModbusError`], with messages as character
/// sequences.
#[verifier::ext_equal]
pub enum ErrorView {
    InvalidFunctionCode(u8),
    InvalidExceptionCode(u8),
    InvalidDataLength,
    CrcCheckFailed,
    IoError(Seq<char>),
    SerialError(Seq<char>),
    NetworkError(Seq<char>),
    ProtocolError(Seq<char>),
    TimeoutError,
}

impl View for ModbusError {
    type V = ErrorView;

    open spec fn view(&self) -> ErrorView {
        match self {
            ModbusError::InvalidFunctionCode(c) => ErrorView::InvalidFunctionCode(*c),
            ModbusError::InvalidExceptionCode(c) => ErrorView::InvalidExceptionCode(*c),
            ModbusError::InvalidDataLength => ErrorView::InvalidDataLength,
            ModbusError::CrcCheckFailed => ErrorView::CrcCheckFailed,
            ModbusError::IoError(m) => ErrorView::IoError(m@),
            ModbusError::SerialError(m) => ErrorView::SerialError(m@),
            ModbusError::NetworkError(m) => ErrorView::NetworkError(m@),
            ModbusError::ProtocolError(m) => ErrorView::ProtocolError(m@),
            ModbusError::TimeoutError => ErrorView::TimeoutError,
        }
    }
}

/// A request issued by a master. `count` is overloaded: a single-coil write
/// carries the coil value here (zero for off, nonzero for on), while
/// register writes carry their values in `data`.
#[derive(Clone, Debug, PartialEq)]
pub struct ModbusRequest {
    pub slave_id: u8,
    pub function_code: FunctionCode,
    pub address: u16,
    pub count: u16,
    pub data: Option<Vec<u8>>,
}

/// The mathematical shape of a [`ModbusRequest`].
#[verifier::ext_equal]
pub struct RequestView {
    pub slave_id: u8,
    pub function_code: FunctionCode,
    pub address: u16,
    pub count: u16,
    pub data: Option<Seq<u8>>,
}

impl View for ModbusRequest {
    type V = RequestView;

    open spec fn view(&self) -> RequestView {
        RequestView {
            slave_id: self.slave_id,
            function_code: self.function_code,
            address: self.address,
            count: self.count,
            data: match self.data {
                Some(d) => Some(d@),
                None => None,
            },
        }
    }
}

/// A response returned by a device. When `is_exception` is set, `data` is
/// empty and `exception_code` is present.
#[derive(Clone, Debug, PartialEq)]
pub struct ModbusResponse {
    pub slave_id: u8,
    pub function_code: FunctionCode,
    pub data: Vec<u8>,
    pub is_exception: bool,
    pub exception_code: Option<ExceptionCode>,
}

/// The mathematical shape of a [`ModbusResponse`].
#[verifier::ext_equal]
pub struct ResponseView {
    pub slave_id: u8,
    pub function_code: FunctionCode,
    pub data: Seq<u8>,
    pub is_exception: bool,
    pub exception_code: Option<ExceptionCode>,
}

impl View for ModbusResponse {
    type V = ResponseView;

    open spec fn view(&self) -> ResponseView {
        ResponseView {
            slave_id: self.slave_id,
            function_code: self.function_code,
            data: self.data@,
            is_exception: self.is_exception,
            exception_code: self.exception_code,
        }
    }
}

impl ResponseView {
    /// A response is well formed when an exception flag comes with an
    /// exception code and an empty payload, and a normal response carries
    /// no exception code.
    pub open spec fn wf(self) -> bool {
        if self.is_exception {
            self.exception_code is Some && self.data.len() == 0
        } else {
            self.exception_code is None
        }
    }
}

/// The four conventions for composing 16-bit words from byte pairs and
/// wider values from 16-bit words: word-major big or little endian, with or
/// without a byte swap inside each word.
#[derive(Clone, Copy, Debug, PartialEq, Eq, Structural)]
pub enum ByteOrder {
    /// Big endian, no swap: highest byte first.
    ABCD,
    /// Little endian, no swap: lowest byte first.
    DCBA,
    /// Big endian with the two bytes of each word exchanged.
    BADC,
    /// Little endian with the two bytes of each word exchanged.
    CDAB,
}

impl ByteOrder {
    /// The 16-bit word two bytes denote under this order.
    pub open spec fn spec_word16(self, b0: u8, b1: u8) -> u16 {
        match self {
            ByteOrder::ABCD => ((b0 as int) * 0x100 + (b1 as int)) as u16,
            ByteOrder::DCBA => ((b1 as int) * 0x100 + (b0 as int)) as u16,
            ByteOrder::BADC => ((b1 as int) * 0x100 + (b0 as int)) as u16,
            ByteOrder::CDAB => ((b0 as int) * 0x100 + (b1 as int)) as u16,
        }
    }

    /// The two bytes a 16-bit word becomes under this order.
    pub open spec fn spec_u16_bytes(self, value: u16) -> Seq<u8> {
        let hi = (value / 0x100) as u8;
        let lo = (value % 0x100) as u8;
        match self {
            ByteOrder::ABCD => seq![hi, lo],
            ByteOrder::DCBA => seq![lo, hi],
            ByteOrder::BADC => seq![lo, hi],
            ByteOrder::CDAB => seq![hi, lo],
        }
    }

    /// The 32-bit value four bytes denote under this order.
    pub open spec fn spec_word32(self, b0: u8, b1: u8, b2: u8, b3: u8) -> u32 {
        match self {
            ByteOrder::ABCD => ((b0 as int) * 0x1000000 + (b1 as int) * 0x10000 + (b2 as int)
                * 0x100 + (b3 as int)) as u32,
            ByteOrder::DCBA => ((b3 as int) * 0x1000000 + (b2 as int) * 0x10000 + (b1 as int)
                * 0x100 + (b0 as int)) as u32,
            ByteOrder::BADC => ((b1 as int) * 0x1000000 + (b0 as int) * 0x10000 + (b3 as int)
                * 0x100 + (b2 as int)) as u32,
            ByteOrder::CDAB => ((b2 as int) * 0x1000000 + (b3 as int) * 0x10000 + (b0 as int)
                * 0x100 + (b1 as int)) as u32,
        }
    }

    /// The four bytes a 32-bit value becomes under this order.
    pub open spec fn spec_u32_bytes(self, value: u32) -> Seq<u8> {
        let b3 = (value % 0x100) as u8;
        let b2 = ((value / 0x100) % 0x100) as u8;
        let b1 = ((value / 0x10000) % 0x100) as u8;
        let b0 = ((value / 0x1000000) % 0x100) as u8;
        match self {
            ByteOrder::ABCD => seq![b0, b1, b2, b3],
            ByteOrder::DCBA => seq![b3, b2, b1, b0],
            ByteOrder::BADC => seq![b1, b0, b3, b2],
            ByteOrder::CDAB => seq![b2, b3, b0, b1],
        }
    }

    /// Reads one 16-bit word from the first two bytes, failing on shorter
    /// input.
    pub fn bytes_to_u16(&self, bytes: &[u8]) -> (r: Result<u16, ModbusError>)
        ensures
            bytes@.len() < 2 ==> r == Err::<u16, ModbusError>(ModbusError::InvalidDataLength),
            bytes@.len() >= 2 ==> r == Ok::<u16, ModbusError>(
                self.spec_word16(bytes@[0], bytes@[1]),
            ),
    {
        if bytes.len() < 2 {
            return Err(ModbusError::InvalidDataLength);
        }
        let b0 = bytes[0];
        let b1 = bytes[1];
        match *self {
            ByteOrder::ABCD => Ok((b0 as u16) * 0x100 + (b1 as u16)),
            ByteOrder::DCBA => Ok((b1 as u16) * 0x100 + (b0 as u16)),
            ByteOrder::BADC => Ok((b1 as u16) * 0x100 + (b0 as u16)),
            ByteOrder::CDAB => Ok((b0 as u16) * 0x100 + (b1 as u16)),
        }
    }

    /// Writes one 16-bit word as two bytes.
    pub fn u16_to_bytes(&self, value: u16) -> (r: [u8; 2])
        ensures
            r@ == self.spec_u16_bytes(value),
    {
        let hi = (value / 0x100) as u8;
        let lo = (value % 0x100) as u8;
        let r = match *self {
            ByteOrder::ABCD => [hi, lo],
            ByteOrder::DCBA => [lo, hi],
            ByteOrder::BADC => [lo, hi],
            ByteOrder::CDAB => [hi, lo],
        };
        proof {
            assert(r@ =~= self.spec_u16_bytes(value));
        }
        r
    }

    /// Reads one 32-bit value from the first four bytes, failing on shorter
    /// input.
    pub fn bytes_to_u32(&self, bytes: &[u8]) -> (r: Result<u32, ModbusError>)
        ensures
            bytes@.len() < 4 ==> r == Err::<u32, ModbusError>(ModbusError::InvalidDataLength),
            bytes@.len() >= 4 ==> r == Ok::<u32, ModbusError>(
                self.spec_word32(bytes@[0], bytes@[1], bytes@[2], bytes@[3]),
            ),
    {
        if bytes.len() < 4 {
            return Err(ModbusError::InvalidDataLength);
        }
        let b0 = bytes[0] as u32;
        let b1 = bytes[1] as u32;
        let b2 = bytes[2] as u32;
        let b3 = bytes[3] as u32;
        match *self {
            ByteOrder::ABCD => Ok(b0 * 0x1000000 + b1 * 0x10000 + b2 * 0x100 + b3),
            ByteOrder::DCBA => Ok(b3 * 0x1000000 + b2 * 0x10000 + b1 * 0x100 + b0),
            ByteOrder::BADC => Ok(b1 * 0x1000000 + b0 * 0x10000 + b3 * 0x100 + b2),
            ByteOrder::CDAB => Ok(b2 * 0x1000000 + b3 * 0x10000 + b0 * 0x100 + b1),
        }
    }

    /// Writes one 32-bit value as four bytes.
    pub fn u32_to_bytes(&self, value: u32) -> (r: [u8; 4])
        ensures
            r@ == self.spec_u32_bytes(value),
    {
        let b3 = (value % 0x100) as u8;
        let b2 = ((value / 0x100) % 0x100) as u8;
        let b1 = ((value / 0x10000) % 0x100) as u8;
        let b0 = ((value / 0x1000000) % 0x100) as u8;
        let r = match *self {
            ByteOrder::ABCD => [b0, b1, b2, b3],
            ByteOrder::DCBA => [b3, b2, b1, b0],
            ByteOrder::BADC => [b1, b0, b3, b2],
            ByteOrder::CDAB => [b2, b3, b0, b1],
        };
        proof {
            assert(r@ =~= self.spec_u32_bytes(value));
        }
        r
    }
}

/// One shift-and-conditionally-xor round of the CRC-16 register.
pub open spec fn crc_round(c: u16) -> u16 {
    if c & 1 == 1 {
        (c >> 1) ^ 0xA001
    } else {
        c >> 1
    }
}

/// `n` successive CRC rounds.
pub open spec fn crc_rounds(c: u16, n: nat) -> u16
    decreases n,
{
    if n == 0 {
        c
    } else {
        crc_round(crc_rounds(c, (n - 1) as nat))
    }
}

/// Folds one byte into the CRC register: xor it in, then run eight rounds.
pub open spec fn crc_step(c: u16, b: u8) -> u16 {
    crc_rounds(c ^ (b as u16), 8)
}

/// The CRC register after folding in every byte of `s`, starting from `c`.
pub open spec fn crc16_from(c: u16, s: Seq<u8>) -> u16
    decreases s.len(),
{
    if s.len() == 0 {
        c
    } else {
        crc16_from(crc_step(c, s[0]), s.drop_first())
    }
}

/// The CRC-16 checksum of a byte sequence: all-ones start, polynomial
/// 0xA001 applied least-significant-bit first.
pub open spec fn crc16_of(s: Seq<u8>) -> u16 {
    crc16_from(0xFFFF, s)
}

/// Folding a byte appended on the right equals one more step after the
/// prefix.
pub proof fn lemma_crc16_from_push(c: u16, s: Seq<u8>, b: u8)
    ensures
        crc16_from(c, s.push(b)) == crc_step(crc16_from(c, s), b),
    decreases s.len(),
{
    if s.len() == 0 {
        assert(s.push(b).len() == 1);
        assert(s.push(b)[0] == b);
        assert(s.push(b).drop_first() =~= Seq::<u8>::empty());
        assert(crc16_from(c, s.push(b)) == crc16_from(crc_step(c, b), Seq::<u8>::empty()));
        assert(crc16_from(crc_step(c, b), Seq::<u8>::empty()) == crc_step(c, b));
    } else {
        assert(s.push(b)[0] == s[0]);
        assert(s.push(b).drop_first() =~= s.drop_first().push(b));
        assert(crc16_from(c, s.push(b)) == crc16_from(crc_step(c, s[0]), s.drop_first().push(b)));
        lemma_crc16_from_push(crc_step(c, s[0]), s.drop_first(), b);
        assert(crc16_from(c, s) == crc16_from(crc_step(c, s[0]), s.drop_first()));
    }
}

/// Computes the CRC-16 checksum of `data`.
pub fn calculate_crc16(data: &[u8]) -> (r: u16)
    ensures
        r == crc16_of(data@),
{
    let mut crc: u16 = 0xFFFF;
    let mut i: usize = 0;
    while i < data.len()
        invariant
            i <= data@.len(),
            crc == crc16_from(0xFFFF, data@.take(i as int)),
        decreases data@.len() - i,
    {
        let b = data[i];
        let ghost c0 = crc ^ (b as u16);
        let ghost prev = crc;
        crc = crc ^ (b as u16);
        let mut j: usize = 0;
        while j < 8
            invariant
                j <= 8,
                crc == crc_rounds(c0, j as nat),
            decreases 8 - j,
        {
            if crc & 1 == 1 {
                crc = (crc >> 1) ^ 0xA001;
            } else {
                crc = crc >> 1;
            }
            proof {
                assert(crc == crc_round(crc_rounds(c0, j as nat)));
                assert(crc_rounds(c0, (j + 1) as nat) == crc_round(crc_rounds(c0, j as nat)));
            }
            j += 1;
        }
        proof {
            assert(crc == crc_step(prev, b));
            assert(data@.take(i as int).push(b) =~= data@.take(i + 1));
            lemma_crc16_from_push(0xFFFF, data@.take(i as int), b);
        }
        i += 1;
    }
    proof {
        assert(data@.take(data@.len() as int) =~= data@);
    }
    crc
}

/// Checks a byte sequence against an expected CRC-16 checksum.
pub fn verify_crc16(data: &[u8], expected_crc: u16) -> (r: bool)
    ensures
        r == (crc16_of(data@) == expected_crc),
{
    calculate_crc16(data) == expected_crc
}

/// One CRC round distributes over xor.
proof fn lemma_crc_round_linear(a: u16, b: u16)
    ensures
        crc_round(a ^ b) == crc_round(a) ^ crc_round(b),
{
    assert(crc_round(a ^ b) == crc_round(a) ^ crc_round(b)) by (bit_vector);
}

/// One CRC round maps no nonzero register to zero.
proof fn lemma_crc_round_nonzero(e: u16)
    requires
        e != 0,
    ensures
        crc_round(e) != 0,
{
    assert(e != 0 ==> crc_round(e) != 0) by (bit_vector);
}

/// CRC rounds distribute over xor.
proof fn lemma_crc_rounds_linear(a: u16, b: u16, n: nat)
    ensures
        crc_rounds(a ^ b, n) == crc_rounds(a, n) ^ crc_rounds(b, n),
    decreases n,
{
    if n > 0 {
        lemma_crc_rounds_linear(a, b, (n - 1) as nat);
        lemma_crc_round_linear(crc_rounds(a, (n - 1) as nat), crc_rounds(b, (n - 1) as nat));
    }
}

/// CRC rounds map no nonzero register to zero.
proof fn lemma_crc_rounds_nonzero(e: u16, n: nat)
    requires
        e != 0,
    ensures
        crc_rounds(e, n) != 0,
    decreases n,
{
    if n > 0 {
        lemma_crc_rounds_nonzero(e, (n - 1) as nat);
        lemma_crc_round_nonzero(crc_rounds(e, (n - 1) as nat));
    }
}

/// Consecutive runs of CRC rounds compose.
proof fn lemma_crc_rounds_add(c: u16, m: nat, n: nat)
    ensures
        crc_rounds(crc_rounds(c, m), n) == crc_rounds(c, m + n),
    decreases n,
{
    if n > 0 {
        lemma_crc_rounds_add(c, m, (n - 1) as nat);
    }
}

/// An error xored into the register passes through a byte step
/// untouched by the byte, evolving by eight rounds.
proof fn lemma_crc_step_register_error(c: u16, e: u16, b: u8)
    ensures
        crc_step(c ^ e, b) == crc_step(c, b) ^ crc_rounds(e, 8),
{
    assert((c ^ e) ^ (b as u16) == (c ^ (b as u16)) ^ e) by (bit_vector);
    lemma_crc_rounds_linear(c ^ (b as u16), e, 8);
}

/// An error xored into the byte enters the register and evolves by eight
/// rounds.
proof fn lemma_crc_step_byte_error(c: u16, b: u8, eb: u8)
    ensures
        crc_step(c, b ^ eb) == crc_step(c, b) ^ crc_rounds(eb as u16, 8),
{
    assert(c ^ ((b ^ eb) as u16) == (c ^ (b as u16)) ^ (eb as u16)) by (bit_vector);
    lemma_crc_rounds_linear(c ^ (b as u16), eb as u16, 8);
}

/// An error in the register before a run of bytes evolves independently
/// of the bytes: eight rounds for each of them.
proof fn lemma_crc16_from_error(c: u16, e: u16, s: Seq<u8>)
    ensures
        crc16_from(c ^ e, s) == crc16_from(c, s) ^ crc_rounds(e, (8 * s.len()) as nat),
    decreases s.len(),
{
    if s.len() == 0 {
    } else {
        lemma_crc_step_register_error(c, e, s[0]);
        lemma_crc16_from_error(crc_step(c, s[0]), crc_rounds(e, 8), s.drop_first());
        lemma_crc_rounds_add(e, 8, (8 * (s.len() - 1)) as nat);
        assert(8 + 8 * (s.len() - 1) == 8 * s.len());
    }
}

/// Folding a concatenation folds the parts in order.
proof fn lemma_crc16_from_concat(c: u16, a: Seq<u8>, b: Seq<u8>)
    ensures
        crc16_from(c, a + b) == crc16_from(crc16_from(c, a), b),
    decreases a.len(),
{
    if a.len() == 0 {
        assert(a + b =~= b);
    } else {
        assert((a + b)[0] == a[0]);
        assert((a + b).drop_first() =~= a.drop_first() + b);
        lemma_crc16_from_concat(crc_step(c, a[0]), a.drop_first(), b);
    }
}

/// Flipping any single bit of a byte sequence changes its CRC-16
/// checksum: the checksum detects every single-bit error.
pub proof fn lemma_crc16_detects_bit_flip(s: Seq<u8>, j: int, k: u8)
    requires
        0 <= j < s.len(),
        k < 8,
    ensures
        crc16_of(s.update(j, s[j] ^ (1u8 << k))) != crc16_of(s),
{
    let eb = 1u8 << k;
    assert((1u8 << k) != 0) by (bit_vector)
        requires
            k < 8,
    ;
    let bj = s[j];
    let t = s.update(j, bj ^ eb);
    let pre = s.take(j);
    let suf = s.skip(j + 1);
    assert(s =~= pre + seq![bj] + suf);
    assert(t =~= pre + seq![bj ^ eb] + suf);
    lemma_crc16_from_concat(0xFFFF, pre + seq![bj], suf);
    lemma_crc16_from_concat(0xFFFF, pre, seq![bj]);
    lemma_crc16_from_concat(0xFFFF, pre + seq![bj ^ eb], suf);
    lemma_crc16_from_concat(0xFFFF, pre, seq![bj ^ eb]);
    let c1 = crc16_from(0xFFFF, pre);
    assert(seq![bj].len() == 1 && seq![bj][0] == bj);
    assert(seq![bj ^ eb].len() == 1 && seq![bj ^ eb][0] == bj ^ eb);
    assert(seq![bj].drop_first() =~= Seq::<u8>::empty());
    assert(seq![bj ^ eb].drop_first() =~= Seq::<u8>::empty());
    assert(crc16_from(c1, seq![bj]) == crc16_from(crc_step(c1, bj), Seq::<u8>::empty()));
    assert(crc16_from(c1, seq![bj ^ eb]) == crc16_from(crc_step(c1, bj ^ eb), Seq::<u8>::empty()));
    lemma_crc_step_byte_error(c1, bj, eb);
    let e16 = eb as u16;
    assert((1u8 << k) as u16 != 0) by (bit_vector)
        requires
            k < 8,
    ;
    lemma_crc_rounds_nonzero(e16, 8);
    let e8 = crc_rounds(e16, 8);
    lemma_crc16_from_error(crc_step(c1, bj), e8, suf);
    lemma_crc_rounds_nonzero(e8, (8 * suf.len()) as nat);
    let d = crc_rounds(e8, (8 * suf.len()) as nat);
    assert(crc16_of(t) == crc16_of(s) ^ d);
    let x = crc16_of(s);
    assert(d != 0 ==> x ^ d != x) by (bit_vector);
}

} // verus!
