use vstd::prelude::*;
use crate::protocol::ByteOrder;
use crate::protocol::ModbusError;

verus! {

/// The 16-bit words a byte sequence denotes when read pairwise under a
/// byte order.
pub open spec fn words16_of(order: ByteOrder, s: Seq<u8>) -> Seq<u16> {
    Seq::new(s.len() / 2, |i: int| order.spec_word16(s[2 * i], s[2 * i + 1]))
}

/// The bytes a sequence of 16-bit words becomes under a byte order.
pub open spec fn bytes_of_words16(order: ByteOrder, w: Seq<u16>) -> Seq<u8> {
    Seq::new(w.len() * 2, |i: int| order.spec_u16_bytes(w[i / 2])[i % 2])
}

/// The 32-bit values a byte sequence denotes when read four bytes at a
/// time under a byte order.
pub open spec fn words32_of(order: ByteOrder, s: Seq<u8>) -> Seq<u32> {
    Seq::new(
        s.len() / 4,
        |i: int| order.spec_word32(s[4 * i], s[4 * i + 1], s[4 * i + 2], s[4 * i + 3]),
    )
}

/// The bytes a sequence of 32-bit values becomes under a byte order.
pub open spec fn bytes_of_words32(order: ByteOrder, w: Seq<u32>) -> Seq<u8> {
    Seq::new(w.len() * 4, |i: int| order.spec_u32_bytes(w[i / 4])[i % 4])
}

/// The 64-bit value an 8-byte group starting at `base` denotes under a
/// byte order. The orders permute the group exactly as they permute two
/// 4-byte groups.
pub open spec fn spec_word64(order: ByteOrder, s: Seq<u8>, base: int) -> u64 {
    let hi = match order {
        ByteOrder::ABCD => order.spec_word32(s[base], s[base + 1], s[base + 2], s[base + 3]),
        ByteOrder::DCBA => order.spec_word32(s[base + 4], s[base + 5], s[base + 6], s[base + 7]),
        ByteOrder::BADC => order.spec_word32(s[base], s[base + 1], s[base + 2], s[base + 3]),
        ByteOrder::CDAB => order.spec_word32(s[base + 4], s[base + 5], s[base + 6], s[base + 7]),
    };
    let lo = match order {
        ByteOrder::ABCD => order.spec_word32(s[base + 4], s[base + 5], s[base + 6], s[base + 7]),
        ByteOrder::DCBA => order.spec_word32(s[base], s[base + 1], s[base + 2], s[base + 3]),
        ByteOrder::BADC => order.spec_word32(s[base + 4], s[base + 5], s[base + 6], s[base + 7]),
        ByteOrder::CDAB => order.spec_word32(s[base], s[base + 1], s[base + 2], s[base + 3]),
    };
    ((hi as int) * 0x100000000 + (lo as int)) as u64
}

/// The eight bytes a 64-bit value becomes under a byte order.
pub open spec fn spec_u64_bytes(order: ByteOrder, v: u64) -> Seq<u8> {
    let hi = (v / 0x100000000) as u32;
    let lo = (v % 0x100000000) as u32;
    match order {
        ByteOrder::ABCD => order.spec_u32_bytes(hi) + order.spec_u32_bytes(lo),
        ByteOrder::DCBA => order.spec_u32_bytes(lo) + order.spec_u32_bytes(hi),
        ByteOrder::BADC => order.spec_u32_bytes(hi) + order.spec_u32_bytes(lo),
        ByteOrder::CDAB => order.spec_u32_bytes(lo) + order.spec_u32_bytes(hi),
    }
}

/// The 64-bit values a byte sequence denotes when read eight bytes at a
/// time under a byte order.
pub open spec fn words64_of(order: ByteOrder, s: Seq<u8>) -> Seq<u64> {
    Seq::new(s.len() / 8, |i: int| spec_word64(order, s, 8 * i))
}

/// The bytes a sequence of 64-bit values becomes under a byte order.
pub open spec fn bytes_of_words64(order: ByteOrder, w: Seq<u64>) -> Seq<u8> {
    Seq::new(w.len() * 8, |i: int| spec_u64_bytes(order, w[i / 8])[i % 8])
}

/// Whether position `j` of a boolean sequence holds a set bit; positions
/// past the end count as clear.
pub open spec fn bool_bit(s: Seq<bool>, j: int) -> bool {
    0 <= j < s.len() && s[j]
}

/// The byte that packs booleans `8*i .. 8*i+8`, least significant bit
/// first, with clear padding bits.
pub open spec fn bools_byte(s: Seq<bool>, i: int) -> u8 {
    ((if bool_bit(s, 8 * i) { 0x01int } else { 0int })
    + (if bool_bit(s, 8 * i + 1) { 0x02int } else { 0int })
    + (if bool_bit(s, 8 * i + 2) { 0x04int } else { 0int })
    + (if bool_bit(s, 8 * i + 3) { 0x08int } else { 0int })
    + (if bool_bit(s, 8 * i + 4) { 0x10int } else { 0int })
    + (if bool_bit(s, 8 * i + 5) { 0x20int } else { 0int })
    + (if bool_bit(s, 8 * i + 6) { 0x40int } else { 0int })
    + (if bool_bit(s, 8 * i + 7) { 0x80int } else { 0int })) as u8
}

/// A boolean sequence packed to bytes, eight booleans per byte.
pub open spec fn packed_bools(s: Seq<bool>) -> Seq<u8> {
    Seq::new((s.len() + 7) / 8, |i: int| bools_byte(s, i))
}

/// The first `bit_count` booleans a byte sequence unpacks to, least
/// significant bit of each byte first, cut short where the bytes run
/// out.
pub open spec fn unpacked_bools(s: Seq<u8>, bit_count: int) -> Seq<bool> {
    let n = if bit_count <= 8 * s.len() {
        bit_count
    } else {
        8 * s.len() as int
    };
    Seq::new(n as nat, |i: int| bit_of(s[i / 8], (i % 8) as u8))
}

/// Whether bit `k` (counting from the least significant end) of `b` is
/// set.
pub open spec fn bit_of(b: u8, k: u8) -> bool
    recommends
        k < 8,
{
    (b >> k) & 1 == 1
}

/// Conversions between raw byte sequences and numeric or boolean arrays.
pub struct DataConverter;

impl DataConverter {
    /// Groups bytes pairwise into 16-bit words; the length must be even.
    pub fn bytes_to_u16_array(bytes: &[u8], byte_order: ByteOrder) -> (r: Result<
        Vec<u16>,
        ModbusError,
    >)
        ensures
            bytes@.len() % 2 != 0 ==> r == Err::<Vec<u16>, ModbusError>(
                ModbusError::InvalidDataLength,
            ),
            bytes@.len() % 2 == 0 ==> (r matches Ok(v) && v@ == words16_of(byte_order, bytes@)),
    {
        if bytes.len() % 2 != 0 {
            return Err(ModbusError::InvalidDataLength);
        }
        let n = bytes.len() / 2;
        let mut result: Vec<u16> = Vec::new();
        let mut k: usize = 0;
        while k < n
            invariant
                n == bytes@.len() / 2,
                bytes@.len() % 2 == 0,
                bytes@.len() <= usize::MAX,
                k <= n,
                result@.len() == k,
                forall|j: int| 0 <= j < k ==> result@[j] == words16_of(byte_order, bytes@)[j],
            decreases n - k,
        {
            let b0 = bytes[2 * k];
            let b1 = bytes[2 * k + 1];
            let word = match byte_order {
                ByteOrder::ABCD => (b0 as u16) * 0x100 + (b1 as u16),
                ByteOrder::DCBA => (b1 as u16) * 0x100 + (b0 as u16),
                ByteOrder::BADC => (b1 as u16) * 0x100 + (b0 as u16),
                ByteOrder::CDAB => (b0 as u16) * 0x100 + (b1 as u16),
            };
            result.push(word);
            k += 1;
        }
        proof {
            assert(result@ =~= words16_of(byte_order, bytes@));
        }
        Ok(result)
    }

    /// Writes each 16-bit word as two bytes.
    pub fn u16_array_to_bytes(values: &[u16], byte_order: ByteOrder) -> (r: Vec<u8>)
        ensures
            r@ == bytes_of_words16(byte_order, values@),
    {
        let mut result: Vec<u8> = Vec::new();
        let mut k: usize = 0;
        while k < values.len()
            invariant
                k <= values@.len(),
                result@.len() == 2 * k,
                forall|j: int|
                    0 <= j < 2 * k ==> result@[j] == byte_order.spec_u16_bytes(
                        values@[j / 2],
                    )[j % 2],
            decreases values@.len() - k,
        {
            let bytes = byte_order.u16_to_bytes(values[k]);
            result.push(bytes[0]);
            result.push(bytes[1]);
            proof {
                assert((2 * k as int) / 2 == k as int && (2 * k as int) % 2 == 0);
                assert((2 * k as int + 1) / 2 == k as int && (2 * k as int + 1) % 2 == 1);
            }
            k += 1;
        }
        proof {
            assert(result@ =~= bytes_of_words16(byte_order, values@));
        }
        result
    }

    /// Groups bytes four at a time into 32-bit values; the length must be
    /// a multiple of four.
    pub fn bytes_to_u32_array(bytes: &[u8], byte_order: ByteOrder) -> (r: Result<
        Vec<u32>,
        ModbusError,
    >)
        ensures
            bytes@.len() % 4 != 0 ==> r == Err::<Vec<u32>, ModbusError>(
                ModbusError::InvalidDataLength,
            ),
            bytes@.len() % 4 == 0 ==> (r matches Ok(v) && v@ == words32_of(byte_order, bytes@)),
    {
        if bytes.len() % 4 != 0 {
            return Err(ModbusError::InvalidDataLength);
        }
        let n = bytes.len() / 4;
        let mut result: Vec<u32> = Vec::new();
        let mut k: usize = 0;
        while k < n
            invariant
                n == bytes@.len() / 4,
                bytes@.len() % 4 == 0,
                bytes@.len() <= usize::MAX,
                k <= n,
                result@.len() == k,
                forall|j: int| 0 <= j < k ==> result@[j] == words32_of(byte_order, bytes@)[j],
            decreases n - k,
        {
            let b0 = bytes[4 * k] as u32;
            let b1 = bytes[4 * k + 1] as u32;
            let b2 = bytes[4 * k + 2] as u32;
            let b3 = bytes[4 * k + 3] as u32;
            let value = match byte_order {
                ByteOrder::ABCD => b0 * 0x1000000 + b1 * 0x10000 + b2 * 0x100 + b3,
                ByteOrder::DCBA => b3 * 0x1000000 + b2 * 0x10000 + b1 * 0x100 + b0,
                ByteOrder::BADC => b1 * 0x1000000 + b0 * 0x10000 + b3 * 0x100 + b2,
                ByteOrder::CDAB => b2 * 0x1000000 + b3 * 0x10000 + b0 * 0x100 + b1,
            };
            result.push(value);
            k += 1;
        }
        proof {
            assert(result@ =~= words32_of(byte_order, bytes@));
        }
        Ok(result)
    }

    /// Writes each 32-bit value as four bytes.
    pub fn u32_array_to_bytes(values: &[u32], byte_order: ByteOrder) -> (r: Vec<u8>)
        ensures
            r@ == bytes_of_words32(byte_order, values@),
    {
        let mut result: Vec<u8> = Vec::new();
        let mut k: usize = 0;
        while k < values.len()
            invariant
                k <= values@.len(),
                result@.len() == 4 * k,
                forall|j: int|
                    0 <= j < 4 * k ==> result@[j] == byte_order.spec_u32_bytes(
                        values@[j / 4],
                    )[j % 4],
            decreases values@.len() - k,
        {
            let bytes = byte_order.u32_to_bytes(values[k]);
            result.push(bytes[0]);
            result.push(bytes[1]);
            result.push(bytes[2]);
            result.push(bytes[3]);
            proof {
                assert((4 * k as int) / 4 == k as int && (4 * k as int) % 4 == 0);
                assert((4 * k as int + 1) / 4 == k as int && (4 * k as int + 1) % 4 == 1);
                assert((4 * k as int + 2) / 4 == k as int && (4 * k as int + 2) % 4 == 2);
                assert((4 * k as int + 3) / 4 == k as int && (4 * k as int + 3) % 4 == 3);
            }
            k += 1;
        }
        proof {
            assert(result@ =~= bytes_of_words32(byte_order, values@));
        }
        result
    }

    /// Groups bytes eight at a time into 64-bit values; the length must be
    /// a multiple of eight.
    pub fn bytes_to_u64_array(bytes: &[u8], byte_order: ByteOrder) -> (r: Result<
        Vec<u64>,
        ModbusError,
    >)
        ensures
            bytes@.len() % 8 != 0 ==> r == Err::<Vec<u64>, ModbusError>(
                ModbusError::InvalidDataLength,
            ),
            bytes@.len() % 8 == 0 ==> (r matches Ok(v) && v@ == words64_of(byte_order, bytes@)),
    {
        if bytes.len() % 8 != 0 {
            return Err(ModbusError::InvalidDataLength);
        }
        let n = bytes.len() / 8;
        let mut result: Vec<u64> = Vec::new();
        let mut k: usize = 0;
        while k < n
            invariant
                n == bytes@.len() / 8,
                bytes@.len() % 8 == 0,
                bytes@.len() <= usize::MAX,
                k <= n,
                result@.len() == k,
                forall|j: int| 0 <= j < k ==> result@[j] == words64_of(byte_order, bytes@)[j],
            decreases n - k,
        {
            let first = match byte_order {
                ByteOrder::ABCD => Self::u32_at(bytes, 8 * k, byte_order),
                ByteOrder::DCBA => Self::u32_at(bytes, 8 * k + 4, byte_order),
                ByteOrder::BADC => Self::u32_at(bytes, 8 * k, byte_order),
                ByteOrder::CDAB => Self::u32_at(bytes, 8 * k + 4, byte_order),
            };
            let second = match byte_order {
                ByteOrder::ABCD => Self::u32_at(bytes, 8 * k + 4, byte_order),
                ByteOrder::DCBA => Self::u32_at(bytes, 8 * k, byte_order),
                ByteOrder::BADC => Self::u32_at(bytes, 8 * k + 4, byte_order),
                ByteOrder::CDAB => Self::u32_at(bytes, 8 * k, byte_order),
            };
            let value = (first as u64) * 0x100000000 + (second as u64);
            result.push(value);
            k += 1;
        }
        proof {
            assert(result@ =~= words64_of(byte_order, bytes@));
        }
        Ok(result)
    }

    /// Writes each 64-bit value as eight bytes.
    pub fn u64_array_to_bytes(values: &[u64], byte_order: ByteOrder) -> (r: Vec<u8>)
        ensures
            r@ == bytes_of_words64(byte_order, values@),
    {
        let mut result: Vec<u8> = Vec::new();
        let mut k: usize = 0;
        while k < values.len()
            invariant
                k <= values@.len(),
                result@.len() == 8 * k,
                forall|j: int|
                    0 <= j < 8 * k ==> result@[j] == spec_u64_bytes(byte_order, values@[j / 8])[j
                        % 8],
            decreases values@.len() - k,
        {
            let v = values[k];
            let hi = (v / 0x100000000) as u32;
            let lo = (v % 0x100000000) as u32;
            let first = match byte_order {
                ByteOrder::ABCD => byte_order.u32_to_bytes(hi),
                ByteOrder::DCBA => byte_order.u32_to_bytes(lo),
                ByteOrder::BADC => byte_order.u32_to_bytes(hi),
                ByteOrder::CDAB => byte_order.u32_to_bytes(lo),
            };
            let second = match byte_order {
                ByteOrder::ABCD => byte_order.u32_to_bytes(lo),
                ByteOrder::DCBA => byte_order.u32_to_bytes(hi),
                ByteOrder::BADC => byte_order.u32_to_bytes(lo),
                ByteOrder::CDAB => byte_order.u32_to_bytes(hi),
            };
            result.push(first[0]);
            result.push(first[1]);
            result.push(first[2]);
            result.push(first[3]);
            result.push(second[0]);
            result.push(second[1]);
            result.push(second[2]);
            result.push(second[3]);
            proof {
                assert(first@ + second@ =~= spec_u64_bytes(byte_order, values@[k as int]));
                assert((8 * k as int) / 8 == k as int && (8 * k as int) % 8 == 0);
                assert((8 * k as int + 1) / 8 == k as int && (8 * k as int + 1) % 8 == 1);
                assert((8 * k as int + 2) / 8 == k as int && (8 * k as int + 2) % 8 == 2);
                assert((8 * k as int + 3) / 8 == k as int && (8 * k as int + 3) % 8 == 3);
                assert((8 * k as int + 4) / 8 == k as int && (8 * k as int + 4) % 8 == 4);
                assert((8 * k as int + 5) / 8 == k as int && (8 * k as int + 5) % 8 == 5);
                assert((8 * k as int + 6) / 8 == k as int && (8 * k as int + 6) % 8 == 6);
                assert((8 * k as int + 7) / 8 == k as int && (8 * k as int + 7) % 8 == 7);
            }
            k += 1;
        }
        proof {
            assert(result@ =~= bytes_of_words64(byte_order, values@));
        }
        result
    }

    /// Unpacks the first `bit_count` bits of `bytes`, least significant
    /// bit of each byte first, stopping early when the bytes run out.
    pub fn bytes_to_bool_array(bytes: &[u8], bit_count: usize) -> (r: Vec<bool>)
        ensures
            r@.len() == if bit_count <= 8 * bytes@.len() {
                bit_count as int
            } else {
                8 * bytes@.len() as int
            },
            forall|i: int|
                0 <= i < r@.len() ==> r@[i] == bit_of(bytes@[i / 8], (i % 8) as u8),
            r@ == unpacked_bools(bytes@, bit_count as int),
    {
        let limit: usize = if bit_count / 8 < bytes.len() {
            bit_count
        } else {
            bytes.len() * 8
        };
        let mut result: Vec<bool> = Vec::new();
        let mut i: usize = 0;
        while i < limit
            invariant
                limit <= 8 * bytes@.len(),
                i <= limit,
                result@.len() == i,
                forall|j: int|
                    0 <= j < i ==> result@[j] == bit_of(bytes@[j / 8], (j % 8) as u8),
            decreases limit - i,
        {
            let byte = bytes[i / 8];
            let shift = (i % 8) as u8;
            result.push((byte >> shift) & 1 == 1);
            i += 1;
        }
        proof {
            assert(result@ =~= unpacked_bools(bytes@, bit_count as int));
        }
        result
    }

    /// Packs booleans to bytes, eight per byte, least significant bit
    /// first, padding a final partial byte with clear bits.
    pub fn bool_array_to_bytes(bools: &[bool]) -> (r: Vec<u8>)
        ensures
            r@ == packed_bools(bools@),
    {
        let n = bools.len() / 8 + if bools.len() % 8 != 0 {
            1
        } else {
            0
        };
        proof {
            assert(n == (bools@.len() + 7) / 8);
        }
        let mut result: Vec<u8> = Vec::new();
        let mut i: usize = 0;
        while i < n
            invariant
                n == (bools@.len() + 7) / 8,
                bools@.len() <= usize::MAX,
                i <= n,
                result@.len() == i,
                forall|j: int| 0 <= j < i ==> result@[j] == bools_byte(bools@, j),
            decreases n - i,
        {
            let base = i * 8;
            let mut byte: u8 = 0;
            if base < bools.len() && bools[base] {
                byte += 0x01;
            }
            if base + 1 < bools.len() && bools[base + 1] {
                byte += 0x02;
            }
            if base + 2 < bools.len() && bools[base + 2] {
                byte += 0x04;
            }
            if base + 3 < bools.len() && bools[base + 3] {
                byte += 0x08;
            }
            if base + 4 < bools.len() && bools[base + 4] {
                byte += 0x10;
            }
            if base + 5 < bools.len() && bools[base + 5] {
                byte += 0x20;
            }
            if base + 6 < bools.len() && bools[base + 6] {
                byte += 0x40;
            }
            if base + 7 < bools.len() && bools[base + 7] {
                byte += 0x80;
            }
            result.push(byte);
            i += 1;
        }
        proof {
            assert(result@ =~= packed_bools(bools@));
        }
        result
    }

    /// Reads the four bytes at `base` as one 32-bit value under the given
    /// order.
    fn u32_at(bytes: &[u8], base: usize, byte_order: ByteOrder) -> (r: u32)
        requires
            base + 4 <= bytes@.len(),
        ensures
            r == byte_order.spec_word32(
                bytes@[base as int],
                bytes@[base as int + 1],
                bytes@[base as int + 2],
                bytes@[base as int + 3],
            ),
    {
        let b0 = bytes[base] as u32;
        let b1 = bytes[base + 1] as u32;
        let b2 = bytes[base + 2] as u32;
        let b3 = bytes[base + 3] as u32;
        match byte_order {
            ByteOrder::ABCD => b0 * 0x1000000 + b1 * 0x10000 + b2 * 0x100 + b3,
            ByteOrder::DCBA => b3 * 0x1000000 + b2 * 0x10000 + b1 * 0x100 + b0,
            ByteOrder::BADC => b1 * 0x1000000 + b0 * 0x10000 + b3 * 0x100 + b2,
            ByteOrder::CDAB => b2 * 0x1000000 + b3 * 0x10000 + b0 * 0x100 + b1,
        }
    }
}

} // verus!
