//! The bounded line-reading operation: validate one line of input and copy
//! its digits, null-terminated, into a caller-owned fixed-capacity buffer.

use crate::line::all_digits;
use crate::line::digits_value;
use crate::line::trimmed;
use vstd::prelude::*;

verus! {

/// Largest value the operation accepts.
///
/// This is not a general fit-in-32-bits check: the caller is expected to
/// multiply the returned number by ten afterwards, so any value whose tenfold
/// would leave the signed 32-bit range is rejected up front.
pub const MAX_TENFOLD_SAFE: i32 = 214748364;

/// Why the operation rejected a call.  Every variant is reported to the
/// caller as the same uniform failure status; only the diagnostic text
/// differs.
#[derive(Clone, Copy, Debug, PartialEq, Eq, Structural)]
pub enum LineError {
    /// The output buffer was absent or had zero capacity.
    InvalidBuffer,
    /// The input stream could not be read.
    IoFailure,
    /// The trimmed input line was empty.
    EmptyInput,
    /// The trimmed input held a byte outside ASCII `0`-`9`.
    NonDigitInput,
    /// The digit string does not fit a signed 32-bit integer, or exceeds the
    /// pre-multiplication guard.
    NumericOverflow,
}

/// Whether a line is accepted when written into a buffer of capacity `cap`:
/// the capacity is at least one, the trimmed line is non-empty, holds only
/// ASCII digits, and its value does not exceed the pre-multiplication guard.
pub open spec fn accepted(line: Seq<u8>, cap: nat) -> bool {
    &&& cap >= 1
    &&& trimmed(line).len() > 0
    &&& all_digits(trimmed(line))
    &&& digits_value(trimmed(line)) <= MAX_TENFOLD_SAFE as int
}

/// The buffer contents after a successful write of `digits` into a buffer
/// that held `buf0`: the digits, truncated to one less than the capacity,
/// then a terminating zero byte, then the untouched tail of the buffer.
pub open spec fn filled(digits: Seq<u8>, buf0: Seq<u8>) -> Seq<u8>
    recommends
        buf0.len() >= 1,
{
    let n = if digits.len() <= buf0.len() - 1 {
        digits.len() as int
    } else {
        buf0.len() - 1
    };
    digits.take(n) + seq![0u8] + buf0.skip(n + 1)
}

/// Writes at most `buf.len() - 1` bytes of `digits` into the front of `buf`,
/// then a zero byte right after them; the rest of `buf` is untouched.
fn copy_digits(digits: &Vec<u8>, buf: &mut Vec<u8>)
    requires
        old(buf)@.len() >= 1,
    ensures
        final(buf)@.len() == old(buf)@.len(),
        final(buf)@ == filled(digits@, old(buf)@),
{
    let n: usize = if digits.len() <= buf.len() - 1 {
        digits.len()
    } else {
        buf.len() - 1
    };
    let mut i: usize = 0;
    while i < n
        invariant
            i <= n,
            n < buf@.len(),
            n <= digits@.len(),
            buf@.len() == old(buf)@.len(),
            forall|k: int| 0 <= k < i ==> buf@[k] == digits@[k],
            forall|k: int| i <= k < buf@.len() ==> buf@[k] == old(buf)@[k],
        decreases n - i,
    {
        let b = digits[i];
        buf.set(i, b);
        i += 1;
    }
    buf.set(n, 0);
    proof {
        assert(buf@ =~= filled(digits@, old(buf)@));
    }
}

/// Validates one line of input and, on success, writes its digits into
/// `buf`, truncated to `buf.len() - 1` bytes and null-terminated.
///
/// On any failure the buffer is left untouched, and the error says which
/// check rejected the line: a zero-capacity buffer, an empty trimmed line, a
/// non-digit byte, or a value above [`MAX_TENFOLD_SAFE`], in that order.
pub fn line_into_buffer(line: &Vec<u8>, buf: &mut Vec<u8>) -> (r: Result<(), LineError>)
    ensures
        final(buf)@.len() == old(buf)@.len(),
        r is Ok <==> accepted(line@, old(buf)@.len()),
        r is Ok ==> final(buf)@ == filled(trimmed(line@), old(buf)@),
        r is Err ==> final(buf)@ == old(buf)@,
        r == Err::<(), LineError>(LineError::InvalidBuffer) <==> old(buf)@.len() == 0,
        old(buf)@.len() >= 1 ==> (r == Err::<(), LineError>(LineError::EmptyInput) <==> trimmed(
            line@,
        ).len() == 0),
        old(buf)@.len() >= 1 && trimmed(line@).len() > 0 ==> (r == Err::<(), LineError>(
            LineError::NonDigitInput,
        ) <==> !all_digits(trimmed(line@))),
        old(buf)@.len() >= 1 && trimmed(line@).len() > 0 && all_digits(trimmed(line@)) ==> (r
            == Err::<(), LineError>(LineError::NumericOverflow) <==> digits_value(trimmed(line@))
            > MAX_TENFOLD_SAFE as int),
{
    if buf.len() == 0 {
        return Err(LineError::InvalidBuffer);
    }
    let t = crate::line::trim_bytes(line);
    if t.len() == 0 {
        return Err(LineError::EmptyInput);
    }
    if !crate::line::all_ascii_digits(&t) {
        return Err(LineError::NonDigitInput);
    }
    if !crate::line::digits_value_at_most(&t, MAX_TENFOLD_SAFE as u64) {
        return Err(LineError::NumericOverflow);
    }
    copy_digits(&t, buf);
    Ok(())
}

/// The status code reported across the foreign boundary: `0` for success,
/// `1` for failure of any cause.
pub fn status_of(r: &Result<(), LineError>) -> (c: i32)
    ensures
        c == 0 <==> r is Ok,
        c == 0 || c == 1,
{
    match r {
        Ok(()) => 0,
        Err(_) => 1,
    }
}

/// The prompt shown when the caller supplies none, or one that does not
/// decode as text.
pub fn default_prompt() -> (p: String)
    ensures
        p@ == "Enter a number: "@,
{
    String::from_str("Enter a number: ")
}

impl LineError {
    /// The human-readable diagnostic for this error.  The text is advisory
    /// only and is not part of the stable boundary contract.
    pub fn message(&self) -> (m: String)
        ensures
            *self is InvalidBuffer ==> m@ == "Wrong buffer provided"@,
            *self is IoFailure ==> m@ == "Error in I/O"@,
            *self is EmptyInput ==> m@ == "Empty input"@,
            *self is NonDigitInput ==> m@ == "Enter a valid number"@,
            *self is NumericOverflow ==> m@ == "Number too large"@,
    {
        match self {
            LineError::InvalidBuffer => String::from_str("Wrong buffer provided"),
            LineError::IoFailure => String::from_str("Error in I/O"),
            LineError::EmptyInput => String::from_str("Empty input"),
            LineError::NonDigitInput => String::from_str("Enter a valid number"),
            LineError::NumericOverflow => String::from_str("Number too large"),
        }
    }
}

/// A line of plain digits that fits the buffer and the numeric bound is
/// accepted, and the buffer then holds exactly those digits followed by one
/// terminating zero byte, with the tail of the buffer untouched.
pub proof fn lemma_digit_line_accepted(line: Seq<u8>, buf0: Seq<u8>)
    requires
        buf0.len() >= 1,
        0 < line.len() <= buf0.len() - 1,
        all_digits(line),
        digits_value(line) <= MAX_TENFOLD_SAFE as int,
    ensures
        accepted(line, buf0.len()),
        filled(trimmed(line), buf0) == line + seq![0u8] + buf0.skip(line.len() as int + 1),
{
    crate::line::lemma_trim_digits(line);
    assert(line.take(line.len() as int) =~= line);
}

/// A line of plain digits longer than the buffer can hold is still accepted:
/// the buffer then holds the first `capacity - 1` digits followed by the
/// terminating zero byte — truncation, not failure.
pub proof fn lemma_long_digit_line_truncated(line: Seq<u8>, buf0: Seq<u8>)
    requires
        buf0.len() >= 1,
        line.len() > buf0.len() - 1,
        all_digits(line),
        digits_value(line) <= MAX_TENFOLD_SAFE as int,
    ensures
        accepted(line, buf0.len()),
        filled(trimmed(line), buf0) == line.take(buf0.len() - 1) + seq![0u8],
{
    crate::line::lemma_trim_digits(line);
    assert(buf0.skip(buf0.len() as int) =~= Seq::<u8>::empty());
    assert(line.take(buf0.len() - 1) + seq![0u8] + buf0.skip(buf0.len() as int) =~= line.take(
        buf0.len() - 1,
    ) + seq![0u8]);
}

/// The operation is stateless: whether a line is accepted depends only on the
/// line and the buffer's capacity, and the bytes written on success — the
/// digits up to and including the terminating zero — depend on nothing else
/// either.  Two calls with the same line and equally long buffers therefore
/// agree on every byte they define.
pub proof fn lemma_outcome_deterministic(line: Seq<u8>, buf0: Seq<u8>, buf1: Seq<u8>)
    requires
        buf0.len() == buf1.len(),
        buf0.len() >= 1,
    ensures
        accepted(line, buf0.len()) == accepted(line, buf1.len()),
        ({
            let d = trimmed(line);
            let n = if d.len() <= buf0.len() - 1 {
                d.len() as int
            } else {
                buf0.len() - 1
            };
            filled(d, buf0).take(n + 1) == filled(d, buf1).take(n + 1)
        }),
{
    let d = trimmed(line);
    let n = if d.len() <= buf0.len() - 1 {
        d.len() as int
    } else {
        buf0.len() - 1
    };
    assert(filled(d, buf0).take(n + 1) =~= filled(d, buf1).take(n + 1));
}

} // verus!

