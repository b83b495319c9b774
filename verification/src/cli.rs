//! The command-line surface: the custom-duration argument and the
//! terminal front end's key decoding.

use vstd::prelude::*;
use vstd::string::StrSliceExecFns;

verus! {

/// A key the terminal front end recognises.
#[derive(Clone, Copy, Debug, PartialEq, Eq, Structural)]
pub enum Key {
    Up,
    Down,
    Char(char),
    Enter,
    Unknown,
}

/// How the terminal front end reads one key press: newline or carriage
/// return is Enter; an escape byte followed by a bracketed A or B is an
/// arrow, any other completed escape is unknown, and a lone escape is
/// the escape character itself; every other byte is that character.
pub open spec fn spec_decode_key(first: u8, escape_tail: Option<(u8, u8)>) -> Key {
    if first == 10 || first == 13 {
        Key::Enter
    } else if first == 27 {
        match escape_tail {
            Some(pair) => if pair.0 == 91 {
                if pair.1 == 65 {
                    Key::Up
                } else if pair.1 == 66 {
                    Key::Down
                } else {
                    Key::Unknown
                }
            } else {
                Key::Unknown
            },
            None => Key::Char('\x1b'),
        }
    } else {
        Key::Char(first as char)
    }
}

/// Decodes one key press from the byte just read and, after an escape
/// byte, the two-byte tail that followed it (when the read succeeded).
pub fn decode_key(first: u8, escape_tail: Option<(u8, u8)>) -> (k: Key)
    ensures
        k == spec_decode_key(first, escape_tail),
{
    if first == 10 || first == 13 {
        Key::Enter
    } else if first == 27 {
        match escape_tail {
            Some(pair) => if pair.0 == 91 {
                if pair.1 == 65 {
                    Key::Up
                } else if pair.1 == 66 {
                    Key::Down
                } else {
                    Key::Unknown
                }
            } else {
                Key::Unknown
            },
            None => Key::Char('\x1b'),
        }
    } else {
        Key::Char(first as char)
    }
}

/// Decimal digit characters.
pub open spec fn spec_is_digit(c: char) -> bool {
    48 <= c as int <= 57
}

/// The value of a decimal digit character.
pub open spec fn spec_digit_value(c: char) -> nat {
    (c as int - 48) as nat
}

/// The number a digit string denotes, most significant digit first.
pub open spec fn spec_digits_value(s: Seq<char>) -> nat
    decreases s.len(),
{
    if s.len() == 0 {
        0
    } else {
        spec_digits_value(s.drop_last()) * 10 + spec_digit_value(s.last())
    }
}

/// A non-empty, all-digit string.
pub open spec fn spec_all_digits(s: Seq<char>) -> bool {
    s.len() > 0 && forall|i: int| 0 <= i < s.len() ==> spec_is_digit(#[trigger] s[i])
}

/// The digit part of a duration argument: everything before an `m` or
/// `s` suffix, or the whole argument without one.
pub open spec fn spec_arg_digits(s: Seq<char>) -> Seq<char> {
    if s.len() > 0 && (s.last() == 'm' || s.last() == 's') {
        s.drop_last()
    } else {
        s
    }
}

/// The seconds-per-unit of a duration argument: 1 with an `s` suffix,
/// 60 (minutes) otherwise.
pub open spec fn spec_arg_unit(s: Seq<char>) -> nat {
    if s.len() > 0 && s.last() == 's' {
        1
    } else {
        60
    }
}

/// The custom duration, in seconds, that a command-line argument
/// denotes: decimal digits with an optional suffix, `m` for minutes
/// (also the default without a suffix) or `s` for seconds. Arguments
/// of any other shape, a zero duration, and durations that do not fit
/// in 64 bits are rejected.
pub open spec fn spec_parse_duration_arg(s: Seq<char>) -> Option<u64> {
    if spec_all_digits(spec_arg_digits(s)) {
        let v = spec_digits_value(spec_arg_digits(s)) * spec_arg_unit(s);
        if 0 < v <= u64::MAX {
            Some(v as u64)
        } else {
            None
        }
    } else {
        None
    }
}

proof fn lemma_digits_value_step(s: Seq<char>, i: int)
    requires
        0 <= i < s.len(),
    ensures
        spec_digits_value(s.subrange(0, i + 1)) == spec_digits_value(s.subrange(0, i)) * 10
            + spec_digit_value(s[i]),
{
    assert(s.subrange(0, i + 1).drop_last() =~= s.subrange(0, i));
    assert(s.subrange(0, i + 1).last() == s[i]);
}

proof fn lemma_digits_value_mono(s: Seq<char>, i: int)
    requires
        0 <= i <= s.len(),
        forall|j: int| 0 <= j < s.len() ==> spec_is_digit(#[trigger] s[j]),
    ensures
        spec_digits_value(s) >= spec_digits_value(s.subrange(0, i)),
    decreases s.len() - i,
{
    if i == s.len() {
        assert(s.subrange(0, i) =~= s);
    } else {
        lemma_digits_value_mono(s, i + 1);
        lemma_digits_value_step(s, i);
    }
}

/// Parses the command-line duration argument. See
/// `spec_parse_duration_arg` for the accepted shape.
pub fn parse_duration_arg(s: &str) -> (r: Option<u64>)
    ensures
        r == spec_parse_duration_arg(s@),
{
    let n = s.unicode_len();
    if n == 0 {
        return None;
    }
    let last = s.get_char(n - 1);
    let digits_end: usize = if last == 'm' || last == 's' {
        n - 1
    } else {
        n
    };
    let unit: u64 = if last == 's' {
        1
    } else {
        60
    };
    let ghost digits = spec_arg_digits(s@);
    proof {
        if digits_end < n {
            assert(digits =~= s@.subrange(0, digits_end as int));
        } else {
            assert(digits =~= s@.subrange(0, digits_end as int));
        }
    }
    if digits_end == 0 {
        return None;
    }
    let mut i: usize = 0;
    let mut v: u64 = 0;
    while i < digits_end
        invariant
            0 <= i <= digits_end <= n,
            n == s@.len(),
            digits == spec_arg_digits(s@),
            digits == s@.subrange(0, digits_end as int),
            unit == spec_arg_unit(s@),
            forall|j: int| 0 <= j < i ==> spec_is_digit(#[trigger] digits[j]),
            v == spec_digits_value(digits.subrange(0, i as int)),
        decreases digits_end - i,
    {
        let c = s.get_char(i);
        let cv = c as u32;
        if cv < 48 || cv > 57 {
            proof {
                assert(digits[i as int] == s@[i as int]);
                assert(!spec_is_digit(digits[i as int]));
            }
            return None;
        }
        let d = (cv - 48) as u64;
        proof {
            assert(digits[i as int] == s@[i as int]);
            assert(spec_digit_value(digits[i as int]) == d);
            lemma_digits_value_step(digits, i as int);
        }
        let scaled = match v.checked_mul(10) {
            Some(x) => x,
            None => {
                proof {
                    overflow_means_rejected(digits, i as int, unit as nat, u64::MAX as nat + 1);
                }
                return None;
            },
        };
        let next = match scaled.checked_add(d) {
            Some(x) => x,
            None => {
                proof {
                    overflow_means_rejected(digits, i as int, unit as nat, u64::MAX as nat + 1);
                }
                return None;
            },
        };
        v = next;
        i = i + 1;
    }
    proof {
        assert(digits.subrange(0, digits_end as int) =~= digits);
    }
    let total = match v.checked_mul(unit) {
        Some(x) => x,
        None => {
            return None;
        },
    };
    if total == 0 {
        return None;
    }
    Some(total)
}

proof fn overflow_means_rejected(digits: Seq<char>, i: int, unit: nat, bound: nat)
    requires
        0 <= i < digits.len(),
        forall|j: int| 0 <= j < i ==> spec_is_digit(#[trigger] digits[j]),
        spec_is_digit(digits[i]),
        unit >= 1,
        bound >= 1,
        spec_digits_value(digits.subrange(0, i)) * 10 + spec_digit_value(digits[i]) >= bound,
    ensures
        spec_all_digits(digits) ==> spec_digits_value(digits) * unit >= bound,
{
    if spec_all_digits(digits) {
        lemma_digits_value_step(digits, i);
        lemma_digits_value_mono(digits, i + 1);
        let dv = spec_digits_value(digits);
        assert(dv >= bound);
        assert(dv * unit >= dv * 1) by (nonlinear_arith)
            requires
                unit >= 1,
                dv >= 0,
        ;
    }
}

} // verus!
