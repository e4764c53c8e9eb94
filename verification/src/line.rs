//! Byte-level model of an input line: whitespace trimming, digit checks, and
//! the numeric value of a digit string.

use vstd::prelude::*;

verus! {

/// An ASCII whitespace byte: space, tab, line feed, vertical tab, form feed,
/// or carriage return.
pub open spec fn is_space(b: u8) -> bool {
    b == 32 || 9 <= b <= 13
}

/// An ASCII decimal digit byte, `'0'` through `'9'`.
pub open spec fn is_digit(b: u8) -> bool {
    48 <= b <= 57
}

/// Every byte of `s` is an ASCII decimal digit.
pub open spec fn all_digits(s: Seq<u8>) -> bool {
    forall|i: int| 0 <= i < s.len() ==> is_digit(s[i])
}

/// The numeric value of the digit string `s`, read in base ten.
pub open spec fn digits_value(s: Seq<u8>) -> int
    decreases s.len(),
{
    if s.len() == 0 {
        0
    } else {
        digits_value(s.drop_last()) * 10 + (s.last() - 48)
    }
}

/// `s` with its leading ASCII whitespace removed.
pub open spec fn trim_start(s: Seq<u8>) -> Seq<u8>
    decreases s.len(),
{
    if s.len() > 0 && is_space(s[0]) {
        trim_start(s.drop_first())
    } else {
        s
    }
}

/// `s` with its trailing ASCII whitespace removed.
pub open spec fn trim_end(s: Seq<u8>) -> Seq<u8>
    decreases s.len(),
{
    if s.len() > 0 && is_space(s.last()) {
        trim_end(s.drop_last())
    } else {
        s
    }
}

/// `s` with both leading and trailing ASCII whitespace removed.
pub open spec fn trimmed(s: Seq<u8>) -> Seq<u8> {
    trim_end(trim_start(s))
}

/// Whether `b` is ASCII whitespace.
pub fn is_space_byte(b: u8) -> (r: bool)
    ensures
        r == is_space(b),
{
    b == 32 || (b >= 9 && b <= 13)
}

/// Whether every byte of `v` is an ASCII decimal digit.
pub fn all_ascii_digits(v: &Vec<u8>) -> (r: bool)
    ensures
        r == all_digits(v@),
{
    let mut i: usize = 0;
    while i < v.len()
        invariant
            i <= v@.len(),
            forall|k: int| 0 <= k < i ==> is_digit(v@[k]),
        decreases v@.len() - i,
    {
        if v[i] < 48 || v[i] > 57 {
            return false;
        }
        i += 1;
    }
    true
}

/// The value of a digit string is never negative.
pub proof fn lemma_digits_value_nonneg(s: Seq<u8>)
    requires
        all_digits(s),
    ensures
        digits_value(s) >= 0,
    decreases s.len(),
{
    if s.len() > 0 {
        assert(all_digits(s.drop_last())) by {
            assert(forall|i: int| 0 <= i < s.len() - 1 ==> s.drop_last()[i] == s[i]);
        }
        lemma_digits_value_nonneg(s.drop_last());
    }
}

/// Extending a digit string on the right multiplies its value by ten and adds
/// the new digit, so the value of a prefix never exceeds the value of the
/// whole string.
pub proof fn lemma_digits_value_prefix(s: Seq<u8>, i: int)
    requires
        all_digits(s),
        0 <= i <= s.len(),
    ensures
        digits_value(s.take(i)) <= digits_value(s),
    decreases s.len() - i,
{
    if i == s.len() {
        assert(s.take(i) =~= s);
    } else {
        assert(s.take(i + 1).drop_last() =~= s.take(i));
        assert(s.take(i + 1).last() == s[i]);
        assert(all_digits(s.take(i))) by {
            assert(forall|k: int| 0 <= k < i ==> s.take(i)[k] == s[k]);
        }
        lemma_digits_value_nonneg(s.take(i));
        assert(digits_value(s.take(i)) <= digits_value(s.take(i + 1)));
        lemma_digits_value_prefix(s, i + 1);
    }
}

/// Whether the value of the digit string `t` is at most `limit`.
///
/// The accumulator stays below `10 * limit + 10`, so with any `limit` below
/// `u64::MAX / 10 - 1` no step can overflow, however long the input is.
pub fn digits_value_at_most(t: &Vec<u8>, limit: u64) -> (r: bool)
    requires
        all_digits(t@),
        limit < 0x1000_0000_0000_0000,
    ensures
        r == (digits_value(t@) <= limit as int),
{
    let mut acc: u64 = 0;
    let mut i: usize = 0;
    proof {
        assert(t@.take(0) =~= Seq::<u8>::empty());
    }
    while i < t.len()
        invariant
            i <= t@.len(),
            all_digits(t@),
            limit < 0x1000_0000_0000_0000,
            acc == digits_value(t@.take(i as int)),
        decreases t@.len() - i,
    {
        if acc > limit {
            proof {
                lemma_digits_value_prefix(t@, i as int);
            }
            return false;
        }
        let d: u8 = t[i] - 48;
        proof {
            assert(t@.take(i as int + 1).drop_last() =~= t@.take(i as int));
            assert(t@.take(i as int + 1).last() == t@[i as int]);
            assert(all_digits(t@.take(i as int))) by {
                assert(forall|k: int| 0 <= k < i ==> t@.take(i as int)[k] == t@[k]);
            }
            lemma_digits_value_nonneg(t@.take(i as int));
        }
        acc = acc * 10 + d as u64;
        i += 1;
    }
    proof {
        assert(t@.take(t@.len() as int) =~= t@);
    }
    acc <= limit
}

/// A line made only of digits carries no whitespace at either end, so
/// trimming leaves it unchanged.
pub proof fn lemma_trim_digits(s: Seq<u8>)
    requires
        all_digits(s),
    ensures
        trimmed(s) == s,
{
    if s.len() > 0 {
        assert(is_digit(s[0]));
        assert(is_digit(s.last()));
    }
}

/// Copies `line` without its leading and trailing ASCII whitespace.
pub fn trim_bytes(line: &Vec<u8>) -> (t: Vec<u8>)
    ensures
        t@ == trimmed(line@),
{
    let mut start: usize = 0;
    proof {
        assert(line@.skip(0) =~= line@);
    }
    while start < line.len() && is_space_byte(line[start])
        invariant
            start <= line@.len(),
            trim_start(line@) == trim_start(line@.skip(start as int)),
        decreases line@.len() - start,
    {
        proof {
            assert(line@.skip(start as int).drop_first() =~= line@.skip(start as int + 1));
        }
        start += 1;
    }
    proof {
        if start < line@.len() {
            assert(!is_space(line@.skip(start as int)[0]));
        }
        assert(trim_start(line@) == line@.skip(start as int));
    }
    let mut end: usize = line.len();
    while end > start && is_space_byte(line[end - 1])
        invariant
            start <= end <= line@.len(),
            trim_end(line@.skip(start as int)) == trim_end(line@.subrange(start as int, end as int)),
        decreases end,
    {
        proof {
            assert(line@.subrange(start as int, end as int).drop_last() =~= line@.subrange(
                start as int,
                end as int - 1,
            ));
        }
        end -= 1;
    }
    proof {
        if end > start {
            assert(!is_space(line@.subrange(start as int, end as int).last()));
        }
        assert(trimmed(line@) == line@.subrange(start as int, end as int));
    }
    let mut t: Vec<u8> = Vec::new();
    let mut i: usize = start;
    while i < end
        invariant
            start <= i <= end <= line@.len(),
            t@ =~= line@.subrange(start as int, i as int),
        decreases end - i,
    {
        t.push(line[i]);
        i += 1;
    }
    proof {
        assert(t@ =~= trimmed(line@));
    }
    t
}

} // verus!
