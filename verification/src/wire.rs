//! Numbers in test messages: four bytes each, in the order in which the machine that sends
//! the message keeps them.

use vstd::prelude::*;

verus! {

/// The order in which a machine keeps the bytes of a number.
#[derive(Debug, Clone, Copy, PartialEq, Eq, Structural)]
pub enum ByteOrder {
    /// The least significant byte comes first.
    LeastFirst,
    /// The most significant byte comes first.
    MostFirst,
}

/// The four bytes of `x`, the least significant first.
pub open spec fn bytes_up(x: u32) -> Seq<u8> {
    seq![
        (x as int % 256) as u8,
        (x as int / 256 % 256) as u8,
        (x as int / 65536 % 256) as u8,
        (x as int / 16777216) as u8,
    ]
}

/// The four bytes of `x` in an order.
pub open spec fn word_bytes(x: u32, order: ByteOrder) -> Seq<u8> {
    match order {
        ByteOrder::LeastFirst => bytes_up(x),
        ByteOrder::MostFirst => bytes_up(x).reverse(),
    }
}

/// The number whose four bytes stand in `bytes` from the index `at` on, in an order.
pub open spec fn word_at(bytes: Seq<u8>, at: int, order: ByteOrder) -> u32 {
    match order {
        ByteOrder::LeastFirst => (bytes[at] + 256 * bytes[at + 1] + 65536 * bytes[at + 2] + 16777216
            * bytes[at + 3]) as u32,
        ByteOrder::MostFirst => (bytes[at + 3] + 256 * bytes[at + 2] + 65536 * bytes[at + 1]
            + 16777216 * bytes[at]) as u32,
    }
}

/// Appends the four bytes of `x`.
pub fn append_word(out: &mut Vec<u8>, x: u32, order: ByteOrder)
    ensures
        final(out)@ == old(out)@ + word_bytes(x, order),
{
    let b0: u8 = (x % 256) as u8;
    let b1: u8 = (x / 256 % 256) as u8;
    let b2: u8 = (x / 65536 % 256) as u8;
    let b3: u8 = (x / 16777216) as u8;
    match order {
        ByteOrder::LeastFirst => {
            out.push(b0);
            out.push(b1);
            out.push(b2);
            out.push(b3);
        },
        ByteOrder::MostFirst => {
            out.push(b3);
            out.push(b2);
            out.push(b1);
            out.push(b0);
        },
    }
    assert(out@ =~= old(out)@ + word_bytes(x, order));
}

/// Reads the number whose four bytes stand in `bytes` from the index `at` on.
pub fn read_word(bytes: &[u8], at: usize, order: ByteOrder) -> (r: u32)
    requires
        at + 4 <= bytes@.len(),
    ensures
        r == word_at(bytes@, at as int, order),
{
    let b0: u32 = bytes[at] as u32;
    let b1: u32 = bytes[at + 1] as u32;
    let b2: u32 = bytes[at + 2] as u32;
    let b3: u32 = bytes[at + 3] as u32;
    match order {
        ByteOrder::LeastFirst => b0 + 256 * b1 + 65536 * b2 + 16777216 * b3,
        ByteOrder::MostFirst => b3 + 256 * b2 + 65536 * b1 + 16777216 * b0,
    }
}

/// A number is read back from its four bytes in the same order, whatever surrounds them.
pub proof fn law_word_is_read_back(before: Seq<u8>, x: u32, behind: Seq<u8>, order: ByteOrder)
    ensures
        word_at(before + word_bytes(x, order) + behind, before.len() as int, order) == x,
{
    let all = before + word_bytes(x, order) + behind;
    let n = before.len() as int;
    assert(all[n] == word_bytes(x, order)[0]);
    assert(all[n + 1] == word_bytes(x, order)[1]);
    assert(all[n + 2] == word_bytes(x, order)[2]);
    assert(all[n + 3] == word_bytes(x, order)[3]);
}

/// The bytes of a number weigh 1, 256, 65536 and 16777216, from the first on where the least
/// significant comes first, and from the last on where the most significant does; together they
/// make up the number.
pub proof fn law_weights(x: u32)
    ensures
        ({
            let up = word_bytes(x, ByteOrder::LeastFirst);
            let down = word_bytes(x, ByteOrder::MostFirst);
            &&& up.len() == 4 && down.len() == 4
            &&& up[0] + 256 * up[1] + 65536 * up[2] + 16777216 * up[3] == x
            &&& down[3] + 256 * down[2] + 65536 * down[1] + 16777216 * down[0] == x
        }),
{
}

} // verus!
