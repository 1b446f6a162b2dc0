//! Byte-order detection and order-aware integer reads.
//!
//! SEG-Y predates a fixed byte order: a marker in the binary header says how
//! every multi-byte field of the file is stored. Besides big- and
//! little-endian there is a legacy "swapped word" order that reverses the
//! bytes within each 16-bit half of a value while keeping the halves in
//! place.

use vstd::prelude::*;

use crate::SegyError;

verus! {

/// The three byte orderings a SEG-Y file may use for its multi-byte fields.
#[derive(Debug, Copy, Clone, PartialEq, Eq, Structural)]
pub enum ByteOrder {
    BigEndian,
    LittleEndian,
    /// Big-endian with the bytes of each 16-bit half swapped: a 4-byte value
    /// is stored as [1, 0, 3, 2]. A legacy convention, distinct from
    /// little-endian.
    SwappedWord,
}

/// The display name of a byte order, as metadata reports it.
pub open spec fn spec_order_name(order: ByteOrder) -> Seq<char> {
    match order {
        ByteOrder::BigEndian => "BigEndian"@,
        ByteOrder::LittleEndian => "LittleEndian"@,
        ByteOrder::SwappedWord => "SwappedWord"@,
    }
}

impl ByteOrder {
    /// The display name of this byte order.
    pub fn name(&self) -> (r: &'static str)
        ensures
            r@ == spec_order_name(*self),
    {
        match self {
            ByteOrder::BigEndian => "BigEndian",
            ByteOrder::LittleEndian => "LittleEndian",
            ByteOrder::SwappedWord => "SwappedWord",
        }
    }
}

/// The 16-bit value stored big-endian as the two bytes `b0 b1`.
pub open spec fn u16_be(b0: u8, b1: u8) -> u16 {
    (b0 * 0x100 + b1) as u16
}

/// The 16-bit value the two bytes `b0 b1` denote under `order`.
/// At 16-bit width, swapping the bytes of each half and reversing all bytes
/// coincide, so swapped-word reads like little-endian here.
pub open spec fn u16_of(order: ByteOrder, b0: u8, b1: u8) -> u16 {
    match order {
        ByteOrder::BigEndian => u16_be(b0, b1),
        ByteOrder::LittleEndian => u16_be(b1, b0),
        ByteOrder::SwappedWord => u16_be(b1, b0),
    }
}

/// The signed 16-bit value the two bytes denote under `order`: the two's
/// complement reinterpretation of `u16_of`.
pub open spec fn i16_of(order: ByteOrder, b0: u8, b1: u8) -> i16 {
    u16_of(order, b0, b1) as i16
}

/// The 32-bit value stored big-endian as the four bytes `b0 b1 b2 b3`.
pub open spec fn u32_be(b0: u8, b1: u8, b2: u8, b3: u8) -> u32 {
    (b0 * 0x100_0000 + b1 * 0x1_0000 + b2 * 0x100 + b3) as u32
}

/// The 32-bit value the four bytes denote under `order`. Little-endian
/// reverses all four bytes; swapped-word reverses within each 16-bit half.
pub open spec fn u32_of(order: ByteOrder, b0: u8, b1: u8, b2: u8, b3: u8) -> u32 {
    match order {
        ByteOrder::BigEndian => u32_be(b0, b1, b2, b3),
        ByteOrder::LittleEndian => u32_be(b3, b2, b1, b0),
        ByteOrder::SwappedWord => u32_be(b1, b0, b3, b2),
    }
}

/// The signed 32-bit value the four bytes denote under `order`.
pub open spec fn i32_of(order: ByteOrder, b0: u8, b1: u8, b2: u8, b3: u8) -> i32 {
    u32_of(order, b0, b1, b2, b3) as i32
}

/// Reads the order-aware unsigned 16-bit field at `offset`.
pub fn read_u16(buf: &[u8], offset: usize, order: ByteOrder) -> (r: u16)
    requires
        offset + 2 <= buf@.len(),
    ensures
        r == u16_of(order, buf@[offset as int], buf@[offset + 1]),
{
    let b0: u8 = buf[offset];
    let b1: u8 = buf[offset + 1];
    match order {
        ByteOrder::BigEndian => (b0 as u16) * 0x100 + (b1 as u16),
        ByteOrder::LittleEndian => (b1 as u16) * 0x100 + (b0 as u16),
        ByteOrder::SwappedWord => (b1 as u16) * 0x100 + (b0 as u16),
    }
}

/// Reads the order-aware signed 16-bit field at `offset`.
pub fn read_i16(buf: &[u8], offset: usize, order: ByteOrder) -> (r: i16)
    requires
        offset + 2 <= buf@.len(),
    ensures
        r == i16_of(order, buf@[offset as int], buf@[offset + 1]),
{
    read_u16(buf, offset, order) as i16
}

/// Reads the order-aware unsigned 32-bit field at `offset`.
pub fn read_u32(buf: &[u8], offset: usize, order: ByteOrder) -> (r: u32)
    requires
        offset + 4 <= buf@.len(),
    ensures
        r == u32_of(
            order,
            buf@[offset as int],
            buf@[offset + 1],
            buf@[offset + 2],
            buf@[offset + 3],
        ),
{
    let b0: u8 = buf[offset];
    let b1: u8 = buf[offset + 1];
    let b2: u8 = buf[offset + 2];
    let b3: u8 = buf[offset + 3];
    match order {
        ByteOrder::BigEndian => (b0 as u32) * 0x100_0000 + (b1 as u32) * 0x1_0000 + (b2 as u32)
            * 0x100 + (b3 as u32),
        ByteOrder::LittleEndian => (b3 as u32) * 0x100_0000 + (b2 as u32) * 0x1_0000 + (b1 as u32)
            * 0x100 + (b0 as u32),
        ByteOrder::SwappedWord => (b1 as u32) * 0x100_0000 + (b0 as u32) * 0x1_0000 + (b3 as u32)
            * 0x100 + (b2 as u32),
    }
}

/// Reads the order-aware signed 32-bit field at `offset`.
pub fn read_i32(buf: &[u8], offset: usize, order: ByteOrder) -> (r: i32)
    requires
        offset + 4 <= buf@.len(),
    ensures
        r == i32_of(
            order,
            buf@[offset as int],
            buf@[offset + 1],
            buf@[offset + 2],
            buf@[offset + 3],
        ),
{
    read_u32(buf, offset, order) as i32
}

/// The byte order a 4-byte order-detection marker denotes, if any. An
/// all-zero marker belongs to rev-0 files, which are always big-endian.
pub open spec fn byte_order_of_marker(b0: u8, b1: u8, b2: u8, b3: u8) -> Option<ByteOrder> {
    if b0 == 0x01 && b1 == 0x02 && b2 == 0x03 && b3 == 0x04 {
        Some(ByteOrder::BigEndian)
    } else if b0 == 0x04 && b1 == 0x03 && b2 == 0x02 && b3 == 0x01 {
        Some(ByteOrder::LittleEndian)
    } else if b0 == 0x02 && b1 == 0x01 && b2 == 0x04 && b3 == 0x03 {
        Some(ByteOrder::SwappedWord)
    } else if b0 == 0x00 && b1 == 0x00 && b2 == 0x00 && b3 == 0x00 {
        Some(ByteOrder::BigEndian)
    } else {
        None
    }
}

/// Classifies the 4-byte order-detection marker. Any pattern other than the
/// three canonical ones or all-zero is a parse failure.
pub fn detect_byte_order(b0: u8, b1: u8, b2: u8, b3: u8) -> (r: Result<ByteOrder, SegyError>)
    ensures
        match byte_order_of_marker(b0, b1, b2, b3) {
            Some(order) => r == Ok::<ByteOrder, SegyError>(order),
            None => r == Err::<ByteOrder, SegyError>(SegyError::ParseFailure),
        },
{
    if b0 == 0x01 && b1 == 0x02 && b2 == 0x03 && b3 == 0x04 {
        Ok(ByteOrder::BigEndian)
    } else if b0 == 0x04 && b1 == 0x03 && b2 == 0x02 && b3 == 0x01 {
        Ok(ByteOrder::LittleEndian)
    } else if b0 == 0x02 && b1 == 0x01 && b2 == 0x04 && b3 == 0x03 {
        Ok(ByteOrder::SwappedWord)
    } else if b0 == 0x00 && b1 == 0x00 && b2 == 0x00 && b3 == 0x00 {
        Ok(ByteOrder::BigEndian)
    } else {
        Err(SegyError::ParseFailure)
    }
}

/// The same four bytes read under two different byte orders give two
/// different 32-bit values, except exactly when the byte pattern is symmetric
/// under the two orders: big- and little-endian agree only on palindromic
/// bytes, big-endian and swapped-word only when each 16-bit half holds two
/// equal bytes, and little-endian and swapped-word only when the halves
/// mirror each other.
pub proof fn lemma_byte_order_distinct(b0: u8, b1: u8, b2: u8, b3: u8)
    ensures
        (u32_of(ByteOrder::BigEndian, b0, b1, b2, b3) == u32_of(
            ByteOrder::LittleEndian,
            b0,
            b1,
            b2,
            b3,
        )) <==> (b0 == b3 && b1 == b2),
        (u32_of(ByteOrder::BigEndian, b0, b1, b2, b3) == u32_of(
            ByteOrder::SwappedWord,
            b0,
            b1,
            b2,
            b3,
        )) <==> (b0 == b1 && b2 == b3),
        (u32_of(ByteOrder::LittleEndian, b0, b1, b2, b3) == u32_of(
            ByteOrder::SwappedWord,
            b0,
            b1,
            b2,
            b3,
        )) <==> (b0 == b2 && b1 == b3),
{
    lemma_u32_be_injective(b0, b1, b2, b3, b3, b2, b1, b0);
    lemma_u32_be_injective(b0, b1, b2, b3, b1, b0, b3, b2);
    lemma_u32_be_injective(b3, b2, b1, b0, b1, b0, b3, b2);
}

/// Big-endian byte composition is injective: equal 32-bit values come from
/// equal byte quadruples.
pub proof fn lemma_u32_be_injective(a0: u8, a1: u8, a2: u8, a3: u8, b0: u8, b1: u8, b2: u8, b3: u8)
    ensures
        (u32_be(a0, a1, a2, a3) == u32_be(b0, b1, b2, b3)) <==> (a0 == b0 && a1 == b1 && a2 == b2
            && a3 == b3),
{
}

} // verus!
