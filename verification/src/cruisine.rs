//! Canteen grid positions.
//!
//! A position on the canteen floor plan is a letter column `A`–`J` and a
//! row `1`–`10`, written in either order and in either case: `B7`, `7b`,
//! `J10`. This module parses that little grammar exactly.

use vstd::prelude::*;

verus! {

/// Why a position string was rejected.
#[derive(Clone, Copy, PartialEq, Eq, Structural, Debug)]
pub enum PositionError {
    /// Not two or three characters.
    BadLength,
    /// Neither end is a letter.
    NoLetter,
    /// What remains beside the letter is not a number a byte can hold.
    BadNumber,
    /// Letter or number falls outside the grid.
    OutOfBounds,
}

/// ASCII uppercasing of one character; anything but `a`–`z` is untouched.
pub open spec fn spec_upper(c: char) -> char {
    if 'a' <= c && c <= 'z' {
        ((c as u8) - 32) as char
    } else {
        c
    }
}

/// ASCII uppercasing of a whole string.
pub open spec fn upper_seq(s: Seq<char>) -> Seq<char> {
    Seq::new(s.len(), |i: int| spec_upper(s[i]))
}

/// An ASCII letter, after uppercasing.
pub open spec fn is_ascii_letter(c: char) -> bool {
    'A' <= c && c <= 'Z'
}

pub open spec fn is_digit_char(c: char) -> bool {
    '0' <= c && c <= '9'
}

pub open spec fn all_digits(s: Seq<char>) -> bool {
    forall|i: int| 0 <= i < s.len() ==> is_digit_char(#[trigger] s[i])
}

/// The number a digit string denotes.
pub open spec fn digits_val(s: Seq<char>) -> int
    decreases s.len(),
{
    if s.len() == 0 {
        0
    } else {
        digits_val(s.drop_last()) * 10 + (s.last() as int - '0' as int)
    }
}

/// A number may carry one leading `+`, as the standard integer parser
/// accepts.
pub open spec fn number_digits(s: Seq<char>) -> Seq<char> {
    if s.len() >= 1 && s[0] == '+' {
        s.skip(1)
    } else {
        s
    }
}

/// Whether `s` parses as a byte-sized number, and its value.
pub open spec fn parses_as_byte(s: Seq<char>) -> bool {
    let d = number_digits(s);
    d.len() > 0 && all_digits(d) && digits_val(d) <= 255
}

/// ASCII uppercasing of one character.
fn upper_char(c: char) -> (r: char)
    ensures
        r == spec_upper(c),
{
    if 'a' <= c && c <= 'z' {
        ((c as u8) - 32) as char
    } else {
        c
    }
}

proof fn lemma_digits_val_nonneg(s: Seq<char>)
    requires
        all_digits(s),
    ensures
        digits_val(s) >= 0,
    decreases s.len(),
{
    if s.len() > 0 {
        assert(all_digits(s.drop_last())) by {
            assert(forall|i: int| 0 <= i < s.len() - 1 ==> is_digit_char(#[trigger] s[i]));
        }
        lemma_digits_val_nonneg(s.drop_last());
        assert(is_digit_char(s.last()));
    }
}

proof fn lemma_digits_val_grows(s: Seq<char>, i: int, j: int)
    requires
        all_digits(s),
        0 <= i <= j <= s.len(),
    ensures
        digits_val(s.take(j)) >= digits_val(s.take(i)),
    decreases j - i,
{
    if i < j {
        lemma_digits_val_grows(s, i, j - 1);
        let t = s.take(j);
        assert(t.drop_last() =~= s.take(j - 1));
        assert(all_digits(s.take(j - 1))) by {
            assert(forall|k: int| 0 <= k < j - 1 ==> s.take(j - 1)[k] == s[k]);
        }
        lemma_digits_val_nonneg(s.take(j - 1));
        assert(is_digit_char(t.last())) by {
            assert(t.last() == s[j - 1]);
        }
    }
}

/// Parse a canteen grid position: two or three characters, a letter at
/// either end, a number in the rest; the letter must be `A`–`J` (any
/// case) and the number `1`–`10`.
#[verifier::loop_isolation(false)]
pub fn parse_cruisine_letters(position: &str) -> (r: Result<(char, u8), PositionError>)
    ensures
        ({
            let u = upper_seq(position@);
            let n = u.len() as int;
            if n < 2 || n > 3 {
                r == Err::<(char, u8), PositionError>(PositionError::BadLength)
            } else if !is_ascii_letter(u[0]) && !is_ascii_letter(u[n - 1]) {
                r == Err::<(char, u8), PositionError>(PositionError::NoLetter)
            } else {
                let letter = if is_ascii_letter(u[0]) {
                    u[0]
                } else {
                    u[n - 1]
                };
                let rest = if is_ascii_letter(u[0]) {
                    u.skip(1)
                } else {
                    u.take(n - 1)
                };
                let d = number_digits(rest);
                if !parses_as_byte(rest) {
                    r == Err::<(char, u8), PositionError>(PositionError::BadNumber)
                } else if 'A' <= letter && letter <= 'J' && 1 <= digits_val(d) && digits_val(d)
                    <= 10 {
                    r == Ok::<(char, u8), PositionError>((letter, digits_val(d) as u8))
                } else {
                    r == Err::<(char, u8), PositionError>(PositionError::OutOfBounds)
                }
            }
        }),
{
    let n = position.unicode_len();
    if n < 2 || n > 3 {
        return Err(PositionError::BadLength);
    }
    let mut cs: Vec<char> = Vec::new();
    let mut i: usize = 0;
    while i < n
        invariant
            i <= n,
            n == position@.len(),
            cs@.len() == i,
            forall|j: int| 0 <= j < i ==> cs@[j] == spec_upper(position@[j]),
        decreases n - i,
    {
        cs.push(upper_char(position.get_char(i)));
        i = i + 1;
    }
    let ghost u = upper_seq(position@);
    proof {
        assert(cs@ =~= u);
    }
    let first = cs[0];
    let last = cs[n - 1];
    let first_is_letter = 'A' <= first && first <= 'Z';
    let last_is_letter = 'A' <= last && last <= 'Z';
    let letter: char;
    let lo0: usize;
    let hi: usize;
    if first_is_letter {
        letter = first;
        lo0 = 1;
        hi = n;
    } else if last_is_letter {
        letter = last;
        lo0 = 0;
        hi = n - 1;
    } else {
        return Err(PositionError::NoLetter);
    }
    let ghost rest = if is_ascii_letter(u[0]) {
        u.skip(1)
    } else {
        u.take(n as int - 1)
    };
    proof {
        assert(rest =~= u.subrange(lo0 as int, hi as int));
    }
    let lo: usize = if lo0 < hi && cs[lo0] == '+' {
        lo0 + 1
    } else {
        lo0
    };
    let ghost d = number_digits(rest);
    proof {
        assert(d =~= u.subrange(lo as int, hi as int));
    }
    if lo == hi {
        return Err(PositionError::BadNumber);
    }
    let mut value: u32 = 0;
    let mut k: usize = lo;
    while k < hi
        invariant
            lo <= k <= hi <= n,
            n == cs@.len(),
            cs@ == u,
            d == u.subrange(lo as int, hi as int),
            hi - lo == d.len(),
            value <= 255,
            all_digits(d.take(k - lo)),
            value == digits_val(d.take(k - lo)),
        decreases hi - k,
    {
        let c = cs[k];
        if !('0' <= c && c <= '9') {
            proof {
                assert(d[k - lo] == c);
                assert(!is_digit_char(d[k - lo]));
            }
            return Err(PositionError::BadNumber);
        }
        let digit = (c as u32) - 48;
        proof {
            assert(d.take(k - lo + 1).drop_last() =~= d.take(k - lo));
            assert(d.take(k - lo + 1).last() == d[k - lo]);
            assert(d[k - lo] == c);
        }
        let next = value * 10 + digit;
        if next > 255 {
            proof {
                assert(all_digits(d.take(k - lo + 1)));
                assert(digits_val(d.take(k - lo + 1)) > 255);
                if all_digits(d) {
                    lemma_digits_val_grows(d, k - lo + 1, d.len() as int);
                    assert(d.take(d.len() as int) =~= d);
                    assert(digits_val(d) > 255);
                }
            }
            return Err(PositionError::BadNumber);
        }
        value = next;
        k = k + 1;
    }
    proof {
        assert(d.take(d.len() as int) =~= d);
    }
    let number = value as u8;
    if 'A' <= letter && letter <= 'J' && 1 <= number && number <= 10 {
        Ok((letter, number))
    } else {
        Err(PositionError::OutOfBounds)
    }
}

} // verus!
