//! Byte order of the 32-bit words that a Wayland message is made of.

use vstd::prelude::*;

verus! {

/// The order in which the four bytes of a word stand in memory.
#[derive(Clone, Copy, Debug, PartialEq, Eq, Structural)]
pub enum ByteOrder {
    /// Least significant byte first.
    Little,
    /// Most significant byte first.
    Big,
}

/// The word that the four bytes `bytes` hold.
pub open spec fn word(order: ByteOrder, bytes: Seq<u8>) -> u32 {
    match order {
        ByteOrder::Little => (bytes[0] + 0x100 * bytes[1] + 0x1_0000 * bytes[2] + 0x100_0000
            * bytes[3]) as u32,
        ByteOrder::Big => (bytes[3] + 0x100 * bytes[2] + 0x1_0000 * bytes[1] + 0x100_0000
            * bytes[0]) as u32,
    }
}

/// The word at offset `at` of `data`.
pub open spec fn word_at(order: ByteOrder, data: Seq<u8>, at: int) -> u32 {
    word(order, data.subrange(at, at + 4))
}

/// The four bytes that hold the word `value`.
pub open spec fn word_bytes(order: ByteOrder, value: u32) -> Seq<u8> {
    let b0 = (value % 0x100) as u8;
    let b1 = (value / 0x100 % 0x100) as u8;
    let b2 = (value / 0x1_0000 % 0x100) as u8;
    let b3 = (value / 0x100_0000) as u8;
    match order {
        ByteOrder::Little => seq![b0, b1, b2, b3],
        ByteOrder::Big => seq![b3, b2, b1, b0],
    }
}

/// Reading the bytes of a word gives back the word, in either order.
pub proof fn law_word_reads_back(order: ByteOrder, value: u32)
    ensures
        word_bytes(order, value).len() == 4,
        word(order, word_bytes(order, value)) == value,
{
    assert(value == value % 0x100 + 0x100 * (value / 0x100 % 0x100) + 0x1_0000 * (value / 0x1_0000
        % 0x100) + 0x100_0000 * (value / 0x100_0000)) by (bit_vector);
    assert(value / 0x100_0000 < 0x100) by (bit_vector);
}

/// A word has the four bytes that it is the weighted sum of.
#[verifier::rlimit(30)]
proof fn lemma_bytes_of_sum(value: u32, b0: u8, b1: u8, b2: u8, b3: u8)
    requires
        value == b0 + 0x100 * b1 + 0x1_0000 * b2 + 0x100_0000 * b3,
    ensures
        (value % 0x100) as u8 == b0,
        (value / 0x100 % 0x100) as u8 == b1,
        (value / 0x1_0000 % 0x100) as u8 == b2,
        (value / 0x100_0000) as u8 == b3,
{
    assert(value / 0x100 == b1 + 0x100 * b2 + 0x1_0000 * b3);
    assert(value / 0x1_0000 == b2 + 0x100 * b3);
    assert(value / 0x100_0000 == b3);
}

/// The weight of each byte of a word: 1, 256, 256 squared and 256 cubed, from the first byte
/// to the last in little-endian order, from the last to the first in big-endian order. So
/// the two orders are the reverse of each other, and a word has its bytes back.
#[verifier::rlimit(30)]
pub proof fn law_byte_weights(order: ByteOrder, bytes: Seq<u8>)
    requires
        bytes.len() == 4,
    ensures
        word(ByteOrder::Little, bytes) == bytes[0] + 256 * bytes[1] + 65536 * bytes[2] + 16777216
            * bytes[3],
        word(ByteOrder::Big, bytes) == 16777216 * bytes[0] + 65536 * bytes[1] + 256 * bytes[2]
            + bytes[3],
        word(ByteOrder::Big, bytes) == word(ByteOrder::Little, bytes.reverse()),
        word_bytes(order, word(order, bytes)) == bytes,
{
    assert(bytes.reverse().len() == 4);
    let value = word(order, bytes);
    match order {
        ByteOrder::Little => lemma_bytes_of_sum(value, bytes[0], bytes[1], bytes[2], bytes[3]),
        ByteOrder::Big => lemma_bytes_of_sum(value, bytes[3], bytes[2], bytes[1], bytes[0]),
    }
    assert(word_bytes(order, value) =~= bytes);
}

/// A word stands where its bytes stand, whatever is in front of it and behind it.
pub proof fn law_word_at_offset(order: ByteOrder, front: Seq<u8>, value: u32, rest: Seq<u8>)
    ensures
        word_at(order, front + word_bytes(order, value) + rest, front.len() as int) == value,
{
    law_word_reads_back(order, value);
    let data = front + word_bytes(order, value) + rest;
    assert(data.subrange(front.len() as int, front.len() as int + 4) =~= word_bytes(order, value));
}

/// Calls `u32::from_ne_bytes`: the word that the four bytes hold in the byte order of the
/// machine. Only two byte orders exist, so the result is the word in one of them; which
/// one it is depends on the machine, and is left unsaid.
#[verifier::external_body]
pub(crate) fn native_word(bytes: [u8; 4]) -> (value: u32)
    ensures
        value == word(ByteOrder::Little, bytes@) || value == word(ByteOrder::Big, bytes@),
{
    u32::from_ne_bytes(bytes)
}

/// The bytes by which the byte order of the machine is found out.
pub open spec fn probe_bytes() -> Seq<u8> {
    seq![1u8, 0, 0, 0]
}

/// Whether `order` is the byte order of the machine that the program runs on: the one in
/// which the bytes `1, 0, 0, 0` hold what `u32::from_ne_bytes` makes of them.
pub closed spec fn of_machine(order: ByteOrder) -> bool {
    exists|bytes: [u8; 4], value: u32|
        {
            &&& bytes@ == probe_bytes()
            &&& #[trigger] call_ensures(native_word, (bytes,), value)
            &&& value == word(order, bytes@)
        }
}

impl ByteOrder {
    /// The byte order of the machine that the program runs on.
    ///
    /// The bytes `1, 0, 0, 0` hold 1 on a little-endian machine and `0x100_0000` on a
    /// big-endian one. Which of the two it is rests on the machine alone, and is left unsaid.
    pub(crate) fn native() -> (order: ByteOrder)
        ensures
            of_machine(order),
    {
        let bytes: [u8; 4] = [1, 0, 0, 0];
        let probe: u32 = native_word(bytes);
        assert(bytes@ =~= probe_bytes());
        assert(call_ensures(native_word, (bytes,), probe));
        if probe == 1 {
            ByteOrder::Little
        } else {
            ByteOrder::Big
        }
    }
}

/// On a machine of either order, the bytes `1, 0, 0, 0` are the word 1 if the order is
/// little-endian, and 256 cubed if it is big-endian.
pub(crate) proof fn law_machine_reads_probe(order: ByteOrder)
    requires
        of_machine(order),
    ensures
        exists|bytes: [u8; 4], value: u32|
            {
                &&& bytes@ == seq![1u8, 0, 0, 0]
                &&& #[trigger] call_ensures(native_word, (bytes,), value)
                &&& value == match order {
                    ByteOrder::Little => 1u32,
                    ByteOrder::Big => 16777216u32,
                }
            },
{
}

/// Reads the word at offset `at` of `data`.
pub fn read_word(order: ByteOrder, data: &[u8], at: usize) -> (value: u32)
    requires
        at + 4 <= data@.len(),
    ensures
        value == word_at(order, data@, at as int),
{
    let b0: u32 = data[at] as u32;
    let b1: u32 = data[at + 1] as u32;
    let b2: u32 = data[at + 2] as u32;
    let b3: u32 = data[at + 3] as u32;
    match order {
        ByteOrder::Little => b0 + 0x100 * b1 + 0x1_0000 * b2 + 0x100_0000 * b3,
        ByteOrder::Big => b3 + 0x100 * b2 + 0x1_0000 * b1 + 0x100_0000 * b0,
    }
}

/// Appends the bytes of the word `value` to `out`.
pub fn push_word(order: ByteOrder, out: &mut Vec<u8>, value: u32)
    ensures
        final(out)@ == old(out)@ + word_bytes(order, value),
{
    let b0: u8 = (value % 0x100) as u8;
    let b1: u8 = (value / 0x100 % 0x100) as u8;
    let b2: u8 = (value / 0x1_0000 % 0x100) as u8;
    let b3: u8 = (value / 0x100_0000) as u8;
    match order {
        ByteOrder::Little => {
            out.push(b0);
            out.push(b1);
            out.push(b2);
            out.push(b3);
        },
        ByteOrder::Big => {
            out.push(b3);
            out.push(b2);
            out.push(b1);
            out.push(b0);
        },
    }
}

} // verus!
