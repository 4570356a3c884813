use vstd::prelude::*;
use vstd::string::StringSliceAdditionalSpecFns;

verus! {

/// The largest row id that a table assigns.
pub const MAX_ROW_ID: u64 = 9_223_372_036_854_775_807;

/// The id of the next row in a table that numbers its rows from 1 and holds
/// `count` of them, if one is left.
pub open spec fn next_row_id_spec(count: nat) -> Option<nat> {
    if count < MAX_ROW_ID {
        Some(count + 1)
    } else {
        None
    }
}

/// The id that a table with `count` rows gives to its next row; `None` once
/// the ids are used up.
pub fn next_row_id(count: usize) -> (id: Option<u64>)
    ensures
        match id {
            Some(n) => next_row_id_spec(count as nat) == Some(n as nat),
            None => next_row_id_spec(count as nat) is None,
        },
{
    if count as u64 >= MAX_ROW_ID {
        None
    } else {
        Some(count as u64 + 1)
    }
}

/// Whether a byte is an ASCII decimal digit.
pub open spec fn is_digit(byte: u8) -> bool {
    0x30 <= byte <= 0x39
}

/// Whether every byte is an ASCII decimal digit.
pub open spec fn all_digits(bytes: Seq<u8>) -> bool {
    forall|i: int| 0 <= i < bytes.len() ==> is_digit(#[trigger] bytes[i])
}

/// The number that a run of ASCII decimal digits writes, most significant
/// digit first.
pub open spec fn decimal_value(digits: Seq<u8>) -> nat
    decreases digits.len(),
{
    if digits.len() == 0 {
        0
    } else {
        decimal_value(digits.drop_last()) * 10 + (digits.last() - 0x30) as nat
    }
}

/// The id that a text writes: the text is one or more decimal digits and
/// nothing else, and the number is no larger than `MAX_ROW_ID`.
pub open spec fn parse_id_spec(bytes: Seq<u8>) -> Option<nat> {
    if bytes.len() > 0 && all_digits(bytes) && decimal_value(bytes) <= MAX_ROW_ID {
        Some(decimal_value(bytes))
    } else {
        None
    }
}

/// Digits that follow never make the number smaller.
proof fn prefix_value_is_smaller(digits: Seq<u8>, k: int)
    requires
        all_digits(digits),
        0 <= k <= digits.len(),
    ensures
        decimal_value(digits.take(k)) <= decimal_value(digits),
    decreases digits.len(),
{
    if k == digits.len() {
        assert(digits.take(k) =~= digits);
    } else {
        let front = digits.drop_last();
        assert(is_digit(digits[digits.len() - 1]));
        assert(front.take(k) =~= digits.take(k));
        prefix_value_is_smaller(front, k);
    }
}

/// Reads an id that arrives as text. Signs, spaces and an empty text are
/// refused, as are numbers beyond `MAX_ROW_ID`; leading zeros are not.
pub fn parse_id(text: &str) -> (id: Option<u64>)
    ensures
        match id {
            Some(n) => parse_id_spec(text.spec_bytes()) == Some(n as nat),
            None => parse_id_spec(text.spec_bytes()) is None,
        },
{
    let bytes = text.as_bytes();
    let n = bytes.len();
    if n == 0 {
        return None;
    }
    let mut value: u64 = 0;
    let mut i: usize = 0;
    while i < n
        invariant
            bytes@ == text.spec_bytes(),
            n == bytes@.len(),
            i <= n,
            all_digits(bytes@.take(i as int)),
            value == decimal_value(bytes@.take(i as int)),
            value <= MAX_ROW_ID,
        decreases n - i,
    {
        let byte = bytes[i];
        if byte < 0x30 || byte > 0x39 {
            proof {
                assert(!is_digit(bytes@[i as int]));
            }
            return None;
        }
        let digit: u64 = (byte - 0x30) as u64;
        proof {
            let longer = bytes@.take(i + 1);
            assert(longer.drop_last() =~= bytes@.take(i as int));
            assert(longer.last() == byte);
            assert(decimal_value(longer) == value * 10 + digit);
            assert forall|k: int| 0 <= k < longer.len() implies is_digit(#[trigger] longer[k]) by {
                if k < i {
                    assert(longer[k] == bytes@.take(i as int)[k]);
                }
            }
        }
        if value > (MAX_ROW_ID - digit) / 10 {
            proof {
                if all_digits(bytes@) {
                    prefix_value_is_smaller(bytes@, i + 1);
                }
            }
            return None;
        }
        value = value * 10 + digit;
        i += 1;
    }
    proof {
        assert(bytes@.take(n as int) =~= bytes@);
    }
    Some(value)
}

} // verus!
