//! The order in which a machine keeps the bytes of a number.

use vstd::prelude::*;

verus! {

/// Which byte of a number comes first in memory.
#[derive(Debug, Clone, Copy, PartialEq, Eq, Structural)]
pub enum ByteOrder {
    LowestFirst,
    HighestFirst,
}

/// Calls `u16::from_ne_bytes`: the number that these two bytes are in the memory of the
/// machine. Which of them is the lower one depends on the machine.
#[verifier::external_body]
fn number_in_memory(bytes: [u8; 2]) -> (number: u16)
    ensures
        number == bytes@[0] + 256 * bytes@[1] || number == 256 * bytes@[0] + bytes@[1],
{
    u16::from_ne_bytes(bytes)
}

/// What `number_in_memory` may answer.
pub closed spec fn number_in_memory_answers(bytes: Seq<u8>, number: u16) -> bool {
    exists|b: [u8; 2]| #[trigger] call_ensures(number_in_memory, (b,), number) && b@ == bytes
}

/// The order of a machine on which the bytes 1 and 0 are this number.
pub open spec fn order_of(number: u16) -> ByteOrder {
    if number == 1 {
        ByteOrder::LowestFirst
    } else {
        ByteOrder::HighestFirst
    }
}

/// The machine has shown this order: it made a number of the bytes 1 and 0.
pub open spec fn is_native(order: ByteOrder) -> bool {
    exists|bytes: Seq<u8>, number: u16|
        {
            &&& #[trigger] number_in_memory_answers(bytes, number)
            &&& bytes == seq![1u8, 0u8]
            &&& number == 1 || number == 256
            &&& order == order_of(number)
        }
}

impl ByteOrder {
    /// The order of a machine on which the bytes 1 and 0 are this number.
    pub fn of(number: u16) -> (order: Self)
        ensures
            order == order_of(number),
    {
        if number == 1 {
            ByteOrder::LowestFirst
        } else {
            ByteOrder::HighestFirst
        }
    }

    /// The order of this machine.
    pub fn native() -> (order: Self)
        ensures
            is_native(order),
    {
        let bytes: [u8; 2] = [1, 0];
        let number = number_in_memory(bytes);
        assert(bytes@ =~= seq![1u8, 0u8]);
        assert(number_in_memory_answers(bytes@, number));
        ByteOrder::of(number)
    }
}

/// Four bytes from `at` on as one number.
pub open spec fn number_at(order: ByteOrder, s: Seq<u8>, at: int) -> u32 {
    match order {
        ByteOrder::LowestFirst => (s[at] as u32) | (s[at + 1] as u32) << 8 | (s[at + 2] as u32)
            << 16 | (s[at + 3] as u32) << 24,
        ByteOrder::HighestFirst => (s[at + 3] as u32) | (s[at + 2] as u32) << 8 | (s[at + 1] as u32)
            << 16 | (s[at] as u32) << 24,
    }
}

/// A number as four bytes.
pub open spec fn number_bytes(order: ByteOrder, x: u32) -> Seq<u8> {
    match order {
        ByteOrder::LowestFirst => seq![
            (x & 0xff) as u8,
            (x >> 8 & 0xff) as u8,
            (x >> 16 & 0xff) as u8,
            (x >> 24 & 0xff) as u8,
        ],
        ByteOrder::HighestFirst => seq![
            (x >> 24 & 0xff) as u8,
            (x >> 16 & 0xff) as u8,
            (x >> 8 & 0xff) as u8,
            (x & 0xff) as u8,
        ],
    }
}

/// Reading a number gives back what was written in the same order.
pub proof fn lemma_number_round_trip(order: ByteOrder, x: u32, prefix: Seq<u8>, suffix: Seq<u8>)
    ensures
        number_at(order, prefix + number_bytes(order, x) + suffix, prefix.len() as int) == x,
{
    let bytes = number_bytes(order, x);
    let s = prefix + bytes + suffix;
    let at = prefix.len() as int;
    assert(s[at] == bytes[0]);
    assert(s[at + 1] == bytes[1]);
    assert(s[at + 2] == bytes[2]);
    assert(s[at + 3] == bytes[3]);
    let (b0, b1, b2, b3) = (
        (x & 0xff) as u8,
        (x >> 8 & 0xff) as u8,
        (x >> 16 & 0xff) as u8,
        (x >> 24 & 0xff) as u8,
    );
    assert(((b0 as u32) | (b1 as u32) << 8 | (b2 as u32) << 16 | (b3 as u32) << 24) == x)
        by (bit_vector)
        requires
            b0 == (x & 0xff) as u8,
            b1 == (x >> 8 & 0xff) as u8,
            b2 == (x >> 16 & 0xff) as u8,
            b3 == (x >> 24 & 0xff) as u8,
    ;
}

/// Reads four bytes from `at` on as one number.
pub fn read_number(order: ByteOrder, s: &[u8], at: usize) -> (x: u32)
    requires
        at + 4 <= s.len(),
    ensures
        x == number_at(order, s@, at as int),
{
    match order {
        ByteOrder::LowestFirst => (s[at] as u32) | (s[at + 1] as u32) << 8 | (s[at + 2] as u32)
            << 16 | (s[at + 3] as u32) << 24,
        ByteOrder::HighestFirst => (s[at + 3] as u32) | (s[at + 2] as u32) << 8 | (s[at + 1] as u32)
            << 16 | (s[at] as u32) << 24,
    }
}

/// Appends a number as four bytes.
pub fn push_number(order: ByteOrder, s: &mut Vec<u8>, x: u32)
    ensures
        final(s)@ == old(s)@ + number_bytes(order, x),
{
    let (b0, b1, b2, b3) = (
        (x & 0xff) as u8,
        (x >> 8 & 0xff) as u8,
        (x >> 16 & 0xff) as u8,
        (x >> 24 & 0xff) as u8,
    );
    match order {
        ByteOrder::LowestFirst => {
            s.push(b0);
            s.push(b1);
            s.push(b2);
            s.push(b3);
        },
        ByteOrder::HighestFirst => {
            s.push(b3);
            s.push(b2);
            s.push(b1);
            s.push(b0);
        },
    }
    assert(s@ =~= old(s)@ + number_bytes(order, x));
}

/// What is read is the number whose four digits to base 256 are the bytes from `at` on, of
/// which the first counts least where the lowest byte comes first, and most where the
/// highest one does.
pub proof fn lemma_read_number(order: ByteOrder, s: &[u8], at: usize, x: u32)
    requires
        at + 4 <= s@.len(),
        call_ensures(read_number, (order, s, at), x),
    ensures
        order is LowestFirst ==> x == s@[at as int] + 0x100 * s@[at + 1] + 0x1_0000 * s@[at + 2]
            + 0x100_0000 * s@[at + 3],
        order is HighestFirst ==> x == s@[at + 3] + 0x100 * s@[at + 2] + 0x1_0000 * s@[at + 1]
            + 0x100_0000 * s@[at as int],
{
    lemma_four_digits(s@[at as int], s@[at + 1], s@[at + 2], s@[at + 3]);
    lemma_four_digits(s@[at + 3], s@[at + 2], s@[at + 1], s@[at as int]);
}

proof fn lemma_four_digits(b0: u8, b1: u8, b2: u8, b3: u8)
    ensures
        (b0 as u32) | (b1 as u32) << 8 | (b2 as u32) << 16 | (b3 as u32) << 24 == b0 + 0x100 * b1
            + 0x1_0000 * b2 + 0x100_0000 * b3,
{
    assert((b0 as u32) | (b1 as u32) << 8 | (b2 as u32) << 16 | (b3 as u32) << 24 == b0 + 0x100
        * b1 + 0x1_0000 * b2 + 0x100_0000 * b3) by (bit_vector);
}

/// A number is kept as its four digits to base 256, the lowest of them first or the highest
/// one.
pub proof fn lemma_number_bytes(order: ByteOrder, x: u32)
    ensures
        number_bytes(order, x).len() == 4,
        order is LowestFirst ==> x == number_bytes(order, x)[0] + 0x100 * number_bytes(order, x)[1]
            + 0x1_0000 * number_bytes(order, x)[2] + 0x100_0000 * number_bytes(order, x)[3],
        order is HighestFirst ==> x == number_bytes(order, x)[3] + 0x100 * number_bytes(order, x)[2]
            + 0x1_0000 * number_bytes(order, x)[1] + 0x100_0000 * number_bytes(order, x)[0],
{
    assert(x == (x & 0xff) as u8 + 0x100 * ((x >> 8 & 0xff) as u8) + 0x1_0000 * ((x >> 16
        & 0xff) as u8) + 0x100_0000 * ((x >> 24 & 0xff) as u8)) by (bit_vector);
}

/// A machine whose memory holds a number lowest byte first makes 1 of the bytes 1 and 0,
/// and one whose memory holds it highest byte first makes 256 of them.
pub proof fn lemma_order_of(number: u16, order: ByteOrder)
    requires
        call_ensures(ByteOrder::of, (number,), order),
    ensures
        number == 1 ==> order is LowestFirst,
        number == 256 ==> order is HighestFirst,
{
}

/// A number that is appended is read back where it was put, and what stood before it stays.
pub proof fn lemma_number_appended(
    order: ByteOrder,
    s: &mut Vec<u8>,
    x: u32,
    bytes: &[u8],
    at: usize,
    read: u32,
)
    requires
        call_ensures(push_number, (order, s, x), ()),
        bytes@ == final(s)@,
        at == old(s)@.len(),
        call_ensures(read_number, (order, bytes, at), read),
    ensures
        read == x,
        final(s)@.len() == old(s)@.len() + 4,
        old(s)@.is_prefix_of(final(s)@),
{
    lemma_number_round_trip(order, x, old(s)@, Seq::empty());
    assert(old(s)@ + number_bytes(order, x) + Seq::<u8>::empty() =~= final(s)@);
    lemma_number_bytes(order, x);
}

} // verus!
