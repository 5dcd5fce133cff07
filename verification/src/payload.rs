//! The sensor ingest payload format: `"<value>#<sensor_id>"`, where the
//! value is a decimal floating-point literal and `#` may not occur inside
//! a sensor identifier. Parsing failure is reported, never fatal.

use vstd::prelude::*;

verus! {

/// `c` is a decimal digit.
pub open spec fn is_digit(c: char) -> bool {
    ||| c == '0'
    ||| c == '1'
    ||| c == '2'
    ||| c == '3'
    ||| c == '4'
    ||| c == '5'
    ||| c == '6'
    ||| c == '7'
    ||| c == '8'
    ||| c == '9'
}

/// `c` is a leading sign.
pub open spec fn is_sign(c: char) -> bool {
    c == '+' || c == '-'
}

/// An unsigned decimal literal: nonempty, only digits and at most one
/// decimal point, and at least one digit.
pub open spec fn is_unsigned_decimal(t: Seq<char>) -> bool {
    &&& t.len() > 0
    &&& forall|i: int| 0 <= i < t.len() ==> is_digit(#[trigger] t[i]) || t[i] == '.'
    &&& exists|i: int| 0 <= i < t.len() && is_digit(#[trigger] t[i])
    &&& forall|i: int, j: int|
        #![trigger t[i], t[j]]
        0 <= i < j < t.len() ==> !(t[i] == '.' && t[j] == '.')
}

/// A decimal floating-point literal: an unsigned decimal literal with an
/// optional leading sign.
pub open spec fn is_decimal_literal(s: Seq<char>) -> bool {
    if s.len() > 0 && is_sign(s[0]) {
        is_unsigned_decimal(s.subrange(1, s.len() as int))
    } else {
        is_unsigned_decimal(s)
    }
}

/// Decides whether `c` is a decimal digit.
fn check_digit(c: char) -> (r: bool)
    ensures
        r == is_digit(c),
{
    c == '0' || c == '1' || c == '2' || c == '3' || c == '4' || c == '5' || c == '6' || c == '7'
        || c == '8' || c == '9'
}

/// Decides whether `s` is an unsigned decimal literal.
fn check_unsigned_decimal(s: &str) -> (r: bool)
    ensures
        r == is_unsigned_decimal(s@),
{
    let n = s.unicode_len();
    if n == 0 {
        return false;
    }
    let mut i: usize = 0;
    let mut saw_digit: bool = false;
    let mut saw_dot: bool = false;
    while i < n
        invariant
            i <= n,
            n == s@.len(),
            saw_digit == exists|j: int| 0 <= j < i && is_digit(#[trigger] s@[j]),
            saw_dot == exists|j: int| 0 <= j < i && #[trigger] s@[j] == '.',
            forall|j: int| 0 <= j < i ==> is_digit(#[trigger] s@[j]) || s@[j] == '.',
            forall|j: int, k: int|
                #![trigger s@[j], s@[k]]
                0 <= j < k < i ==> !(s@[j] == '.' && s@[k] == '.'),
        decreases n - i,
    {
        let c = s.get_char(i);
        if check_digit(c) {
            saw_digit = true;
        } else if c == '.' {
            if saw_dot {
                proof {
                    let j = choose|j: int| 0 <= j < i && s@[j] == '.';
                    assert(s@[j] == '.' && s@[i as int] == '.' && j < i);
                }
                return false;
            }
            saw_dot = true;
        } else {
            return false;
        }
        i += 1;
    }
    saw_digit
}

/// Decides whether `s` is a decimal floating-point literal.
pub fn check_decimal_literal(s: &str) -> (r: bool)
    ensures
        r == is_decimal_literal(s@),
{
    let n = s.unicode_len();
    if n > 0 {
        let c = s.get_char(0);
        if c == '+' || c == '-' {
            let body = s.substring_char(1, n);
            return check_unsigned_decimal(body);
        }
    }
    check_unsigned_decimal(s)
}

/// How many `#` delimiters a payload holds.
pub open spec fn hash_count(s: Seq<char>) -> nat
    decreases s.len(),
{
    if s.len() == 0 {
        0
    } else {
        hash_count(s.drop_last()) + if s.last() == '#' {
            1nat
        } else {
            0nat
        }
    }
}

/// A payload without `#` has a zero delimiter count.
proof fn lemma_hash_count_zero(s: Seq<char>)
    ensures
        (hash_count(s) == 0) <==> (forall|i: int| 0 <= i < s.len() ==> s[i] != '#'),
    decreases s.len(),
{
    if s.len() > 0 {
        lemma_hash_count_zero(s.drop_last());
        assert(forall|i: int| 0 <= i < s.len() - 1 ==> s[i] == s.drop_last()[i]);
    }
}

/// A `#` at position `k` makes the delimiter count positive.
proof fn lemma_hash_count_pos(s: Seq<char>, k: int)
    requires
        0 <= k < s.len(),
        s[k] == '#',
    ensures
        hash_count(s) >= 1,
    decreases s.len(),
{
    if k == s.len() - 1 {
    } else {
        lemma_hash_count_pos(s.drop_last(), k);
    }
}

/// Two `#` delimiters at distinct positions make the count at least two.
proof fn lemma_hash_count_two(s: Seq<char>, k1: int, k2: int)
    requires
        0 <= k1 < k2 < s.len(),
        s[k1] == '#',
        s[k2] == '#',
    ensures
        hash_count(s) >= 2,
    decreases s.len(),
{
    if k2 == s.len() - 1 {
        lemma_hash_count_pos(s.drop_last(), k1);
    } else {
        lemma_hash_count_two(s.drop_last(), k1, k2);
    }
}

/// The delimiter count never exceeds the length.
proof fn lemma_hash_count_le_len(s: Seq<char>)
    ensures
        hash_count(s) <= s.len(),
    decreases s.len(),
{
    if s.len() > 0 {
        lemma_hash_count_le_len(s.drop_last());
    }
}

/// The position of the payload's `#` delimiter.
pub open spec fn delim_index(s: Seq<char>) -> int {
    choose|k: int| 0 <= k < s.len() && s[k] == '#'
}

/// The value part of a payload: everything before the delimiter.
pub open spec fn payload_value_part(s: Seq<char>) -> Seq<char> {
    s.subrange(0, delim_index(s))
}

/// The sensor-identifier part of a payload: everything after the delimiter.
pub open spec fn payload_id_part(s: Seq<char>) -> Seq<char> {
    s.subrange(delim_index(s) + 1, s.len() as int)
}

/// A valid sensor payload: exactly one `#`, preceded by a decimal literal.
pub open spec fn is_valid_sensor_payload(s: Seq<char>) -> bool {
    hash_count(s) == 1 && is_decimal_literal(payload_value_part(s))
}

/// Why a sensor payload was rejected.
#[derive(Clone, Copy, PartialEq, Eq, Structural, Debug)]
pub enum PayloadError {
    /// No `#` delimiter at all.
    MissingDelimiter,
    /// More than one `#`: the delimiter may not occur in an identifier.
    ExtraDelimiter,
    /// The part before the delimiter is not a decimal literal.
    InvalidValue,
}

/// Which error a malformed payload is rejected with.
pub open spec fn payload_error_spec(s: Seq<char>) -> PayloadError {
    if hash_count(s) == 0 {
        PayloadError::MissingDelimiter
    } else if hash_count(s) >= 2 {
        PayloadError::ExtraDelimiter
    } else {
        PayloadError::InvalidValue
    }
}

/// Splits a sensor payload `"<value>#<sensor_id>"` into its value literal
/// and its sensor identifier, rejecting every malformed payload.
pub fn parse_sensor_payload(payload: &str) -> (r: Result<(String, String), PayloadError>)
    ensures
        r is Ok <==> is_valid_sensor_payload(payload@),
        r matches Ok(p) ==> p.0@ == payload_value_part(payload@) && p.1@ == payload_id_part(
            payload@,
        ),
        r matches Err(e) ==> e == payload_error_spec(payload@),
        r matches Err(e) ==> match e {
            PayloadError::MissingDelimiter => hash_count(payload@) == 0,
            PayloadError::ExtraDelimiter => hash_count(payload@) >= 2,
            PayloadError::InvalidValue => hash_count(payload@) == 1 && !is_decimal_literal(
                payload_value_part(payload@),
            ),
        },
{
    let n = payload.unicode_len();
    let mut i: usize = 0;
    let mut count: usize = 0;
    let mut first: Option<usize> = None;
    while i < n
        invariant
            i <= n,
            n == payload@.len(),
            count == hash_count(payload@.subrange(0, i as int)),
            count <= i,
            match first {
                Option::None => forall|j: int| 0 <= j < i ==> payload@[j] != '#',
                Option::Some(k) => k < i && payload@[k as int] == '#',
            },
        decreases n - i,
    {
        proof {
            assert(payload@.subrange(0, i + 1).drop_last() =~= payload@.subrange(0, i as int));
            assert(payload@.subrange(0, i + 1).last() == payload@[i as int]);
        }
        if payload.get_char(i) == '#' {
            count = count + 1;
            if first.is_none() {
                first = Some(i);
            }
        }
        i += 1;
    }
    proof {
        assert(payload@.subrange(0, n as int) =~= payload@);
    }
    match first {
        None => {
            proof {
                lemma_hash_count_zero(payload@);
            }
            Err(PayloadError::MissingDelimiter)
        },
        Some(k) => {
            if count >= 2 {
                return Err(PayloadError::ExtraDelimiter);
            }
            proof {
                lemma_hash_count_pos(payload@, k as int);
                let k2 = delim_index(payload@);
                assert(0 <= k2 < payload@.len() && payload@[k2] == '#');
                if k2 != k as int {
                    if k2 < k as int {
                        lemma_hash_count_two(payload@, k2, k as int);
                    } else {
                        lemma_hash_count_two(payload@, k as int, k2);
                    }
                }
                assert(k as int == delim_index(payload@));
            }
            let value = payload.substring_char(0, k);
            if check_decimal_literal(value) {
                let id = payload.substring_char(k + 1, n);
                Ok((value.to_owned(), id.to_owned()))
            } else {
                Err(PayloadError::InvalidValue)
            }
        },
    }
}

} // verus!
