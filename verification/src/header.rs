//! A look at the header of a weight container before it is handed to the
//! reader: the header is text, and no run of digits in it may stand for a
//! number that the reader could not add the header's own length to.

use vstd::prelude::*;
use vstd::slice::slice_subrange;

verus! {

/// The longest header that the reader accepts, in bytes.
pub const MAX_HEADER_SIZE: usize = 100_000_000;

/// The length that the first eight bytes of a container declare for its
/// header: they are read least significant byte first.
pub open spec fn declared_len(bytes: Seq<u8>) -> nat {
    (bytes[0] + 0x100 * bytes[1] + 0x1_0000 * bytes[2] + 0x100_0000 * bytes[3] + 0x1_0000_0000
        * bytes[4] + 0x100_0000_0000 * bytes[5] + 0x1_0000_0000_0000 * bytes[6]
        + 0x100_0000_0000_0000 * bytes[7]) as nat
}

/// The header of a container: the bytes behind the first eight, as many as
/// those declare. Where the bytes are fewer than that, there is no header to
/// read.
pub open spec fn header(bytes: Seq<u8>) -> Seq<u8> {
    if bytes.len() < 8 || declared_len(bytes) > bytes.len() - 8 {
        Seq::empty()
    } else {
        bytes.subrange(8, 8 + declared_len(bytes) as int)
    }
}

/// Whether a byte is an ASCII digit.
pub open spec fn is_digit(b: u8) -> bool {
    48 <= b <= 57
}

/// The number that the digits right before place `end` stand for, read as
/// far back as digits go. It is zero where no digit stands before `end`.
pub open spec fn run_value(text: Seq<u8>, end: int) -> nat
    decreases end,
{
    if end <= 0 || !is_digit(text[end - 1]) {
        0
    } else {
        run_value(text, end - 1) * 10 + (text[end - 1] - 48) as nat
    }
}

/// No run of digits in `text` stands for a number above `limit`.
pub open spec fn numbers_within(text: Seq<u8>, limit: nat) -> bool {
    forall|end: int| 0 <= end <= text.len() ==> #[trigger] run_value(text, end) <= limit
}

/// The largest number that a header may hold: the header's greatest length
/// and the eight bytes before it can still be added to it in a machine word.
pub open spec fn offset_limit() -> nat {
    (usize::MAX - 8 - MAX_HEADER_SIZE) as nat
}

/// No run of digits in the header stands for a number above the limit.
pub open spec fn header_is_plain(bytes: Seq<u8>) -> bool {
    numbers_within(header(bytes), offset_limit())
}

/// Whether no run of digits in `text` stands for a number above `limit`.
pub fn numbers_fit(text: &[u8], limit: usize) -> (r: bool)
    ensures
        r == numbers_within(text@, limit as nat),
{
    let mut value: usize = 0;
    let mut i: usize = 0;
    while i < text.len()
        invariant
            i <= text@.len(),
            value == run_value(text@, i as int),
            forall|end: int| 0 <= end <= i ==> #[trigger] run_value(text@, end) <= limit,
        decreases text@.len() - i,
    {
        let b: u8 = text[i];
        if b >= 48 && b <= 57 {
            let digit: usize = (b - 48) as usize;
            if digit > limit || value > (limit - digit) / 10 {
                assert(run_value(text@, i + 1) > limit);
                return false;
            }
            value = value * 10 + digit;
        } else {
            value = 0;
        }
        i += 1;
    }
    true
}

/// Whether the header of a container is plain: no run of digits in it stands
/// for a number above the limit.
pub fn check_header(bytes: &[u8]) -> (r: bool)
    ensures
        r == header_is_plain(bytes@),
{
    if bytes.len() < 8 {
        assert(numbers_within(Seq::<u8>::empty(), offset_limit()));
        return true;
    }
    let declared: u64 = bytes[0] as u64 + 0x100 * (bytes[1] as u64) + 0x1_0000 * (bytes[2] as u64)
        + 0x100_0000 * (bytes[3] as u64) + 0x1_0000_0000 * (bytes[4] as u64) + 0x100_0000_0000 * (
    bytes[5] as u64) + 0x1_0000_0000_0000 * (bytes[6] as u64) + 0x100_0000_0000_0000 * (
    bytes[7] as u64);
    let room: usize = bytes.len() - 8;
    if declared > room as u64 {
        assert(numbers_within(Seq::<u8>::empty(), offset_limit()));
        return true;
    }
    let length: usize = declared as usize;
    let text: &[u8] = slice_subrange(bytes, 8, 8 + length);
    numbers_fit(text, usize::MAX - 8 - MAX_HEADER_SIZE)
}

} // verus!
