//! Decoding of a price record: nine bytes, a kind byte followed by two
//! big-endian signed 32-bit integers, the timestamp then the amount.
use vstd::prelude::*;

verus! {

/// A price at a point in time.
#[derive(Clone, Copy, Debug, PartialEq, Eq, Structural)]
pub struct Transaction {
    pub amount: i32,
    pub timestamp: i32,
}

/// The two's-complement value of the four bytes of `b` from `at` on, most
/// significant first.
pub open spec fn be_i32(b: Seq<u8>, at: int) -> int {
    let u = b[at] * 0x1000000 + b[at + 1] * 0x10000 + b[at + 2] * 0x100 + b[at + 3];
    if u >= 0x80000000 {
        u - 0x100000000
    } else {
        u
    }
}

/// Reads the four bytes of `buffer` from `at` on as a big-endian `i32`.
fn read_be_i32(buffer: &[u8; 9], at: usize) -> (r: i32)
    requires
        at + 4 <= 9,
    ensures
        r as int == be_i32(buffer@, at as int),
{
    let u: u64 = (buffer[at] as u64) * 0x1000000 + (buffer[at + 1] as u64) * 0x10000
        + (buffer[at + 2] as u64) * 0x100 + (buffer[at + 3] as u64);
    if u >= 0x80000000 {
        let v: i64 = (u as i64) - 0x100000000;
        v as i32
    } else {
        u as i32
    }
}

/// The record that `buffer` holds: bytes 1 to 4 give the timestamp, bytes 5
/// to 8 the amount.
pub fn evaluate_transaction(buffer: &[u8; 9]) -> (r: Transaction)
    ensures
        r.timestamp as int == be_i32(buffer@, 1),
        r.amount as int == be_i32(buffer@, 5),
{
    Transaction { amount: read_be_i32(buffer, 5), timestamp: read_be_i32(buffer, 1) }
}

} // verus!
