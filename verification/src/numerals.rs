//! Decimal numerals: parsing a facet value as a 16-bit signed integer and
//! rendering one back, both against an exact grammar. A string is a numeral
//! exactly when it is an optional `+` or `-` sign followed by one or more
//! ASCII digits and its value fits the 16-bit signed range.

use vstd::prelude::*;
use vstd::string::StrSliceExecFns;
use vstd::string::StringExecFns;

verus! {

/// Whether `c` is an ASCII decimal digit.
pub open spec fn is_dec_digit(c: char) -> bool {
    '0' as u32 <= c as u32 && c as u32 <= '9' as u32
}

/// The value of a digit; zero for anything that is not a digit.
pub open spec fn digit_val(c: char) -> nat {
    if is_dec_digit(c) {
        (c as u32 - '0' as u32) as nat
    } else {
        0
    }
}

/// Whether every character of `s` is an ASCII decimal digit.
pub open spec fn all_dec_digits(s: Seq<char>) -> bool {
    forall|i: int| 0 <= i < s.len() ==> is_dec_digit(#[trigger] s[i])
}

/// The value of a digit string, most significant digit first.
pub open spec fn dec_value(s: Seq<char>) -> nat
    decreases s.len(),
{
    if s.len() == 0 {
        0
    } else {
        dec_value(s.drop_last()) * 10 + digit_val(s.last())
    }
}

/// The value of `s` read as a 16-bit signed decimal numeral, or `None`
/// where `s` is not such a numeral: grammar `['+' | '-'] digit+`, value
/// within `-32768 ..= 32767`.
pub open spec fn spec_i16_value(s: Seq<char>) -> Option<int> {
    let signed = s.len() > 0 && (s[0] == '-' || s[0] == '+');
    let neg = s.len() > 0 && s[0] == '-';
    let digits = if signed {
        s.drop_first()
    } else {
        s
    };
    if digits.len() > 0 && all_dec_digits(digits) {
        let v = if neg {
            -(dec_value(digits) as int)
        } else {
            dec_value(digits) as int
        };
        if -32768 <= v <= 32767 {
            Some(v)
        } else {
            None
        }
    } else {
        None
    }
}

/// A digit string's value only grows as digits are appended: the value of a
/// prefix never exceeds the value of the whole.
proof fn lemma_dec_value_prefix(s: Seq<char>, k: int)
    requires
        0 <= k <= s.len(),
    ensures
        dec_value(s.take(k)) <= dec_value(s),
    decreases s.len() - k,
{
    if k == s.len() {
        assert(s.take(k) =~= s);
    } else {
        assert(s.take(k + 1).drop_last() =~= s.take(k));
        assert(s.take(k + 1).last() == s[k]);
        assert(dec_value(s.take(k + 1)) == dec_value(s.take(k)) * 10 + digit_val(s[k]));
        lemma_dec_value_prefix(s, k + 1);
    }
}

/// Read `s` as a 16-bit signed decimal numeral. Returns the value exactly
/// when [`spec_i16_value`] accepts `s`, and `None` exactly when it does not.
pub fn parse_i16(s: &str) -> (r: Option<i16>)
    ensures
        match r {
            Some(v) => spec_i16_value(s@) == Some(v as int),
            None => spec_i16_value(s@) is None,
        },
{
    let n = s.unicode_len();
    if n == 0 {
        return None;
    }
    let c0 = s.get_char(0);
    let neg = c0 == '-';
    let start: usize = if c0 == '-' || c0 == '+' {
        1
    } else {
        0
    };
    let ghost digits = if start == 1 {
        s@.drop_first()
    } else {
        s@
    };
    proof {
        assert(digits.len() == n - start);
        assert(forall|j: int| 0 <= j < digits.len() ==> digits[j] == s@[j + start]);
    }
    if start >= n {
        // a bare sign has no digits
        return None;
    }
    let mut acc: u32 = 0;
    let mut i: usize = start;
    while i < n
        invariant
            n == s@.len(),
            n > 0,
            start <= i <= n,
            start == 1 || start == 0,
            (start == 1) <==> (s@[0] == '-' || s@[0] == '+'),
            neg <==> (s@[0] == '-'),
            digits == (if start == 1 {
                s@.drop_first()
            } else {
                s@
            }),
            digits.len() == n - start,
            forall|j: int| 0 <= j < digits.len() ==> digits[j] == s@[j + start],
            acc == dec_value(digits.take(i - start)),
            all_dec_digits(digits.take(i - start)),
            acc <= 32768,
        decreases n - i,
    {
        let c = s.get_char(i);
        let cu = c as u32;
        if cu < '0' as u32 || cu > '9' as u32 {
            proof {
                assert(digits[i - start] == c);
                assert(!is_dec_digit(digits[i - start]));
            }
            return None;
        }
        let d: u32 = cu - '0' as u32;
        proof {
            assert(digits.take(i - start + 1).drop_last() =~= digits.take(i - start));
            assert(digits.take(i - start + 1).last() == digits[i - start]);
            assert(digits[i - start] == c);
            assert(digit_val(c) == d);
        }
        acc = acc * 10 + d;
        if acc > 32768 {
            proof {
                lemma_dec_value_prefix(digits, i - start + 1);
                assert(dec_value(digits) >= acc > 32768);
            }
            return None;
        }
        i += 1;
    }
    proof {
        assert(digits.take(n - start) =~= digits);
        assert(acc == dec_value(digits));
        assert(all_dec_digits(digits));
    }
    if neg {
        let v: i32 = -(acc as i32);
        proof {
            assert(-32768 <= v <= 0);
        }
        Some(v as i16)
    } else {
        if acc > 32767 {
            None
        } else {
            Some(acc as i16)
        }
    }
}

/// The character of a single digit value.
pub open spec fn digit_char(n: nat) -> char {
    if n == 0 {
        '0'
    } else if n == 1 {
        '1'
    } else if n == 2 {
        '2'
    } else if n == 3 {
        '3'
    } else if n == 4 {
        '4'
    } else if n == 5 {
        '5'
    } else if n == 6 {
        '6'
    } else if n == 7 {
        '7'
    } else if n == 8 {
        '8'
    } else {
        '9'
    }
}

/// The decimal numeral of `n`, most significant digit first, no sign and no
/// leading zero except for `n == 0` itself.
pub open spec fn spec_dec_numeral(n: nat) -> Seq<char>
    decreases n,
{
    if n < 10 {
        seq![digit_char(n)]
    } else {
        spec_dec_numeral(n / 10).push(digit_char(n % 10))
    }
}

/// The canonical decimal numeral of a 16-bit signed value: a `-` sign for
/// negative values, then the digits of the magnitude.
pub open spec fn spec_i16_numeral(v: int) -> Seq<char> {
    if v < 0 {
        seq!['-'] + spec_dec_numeral((-v) as nat)
    } else {
        spec_dec_numeral(v as nat)
    }
}

/// The one-character string of a single digit value.
fn digit_str(d: u32) -> (r: &'static str)
    requires
        d < 10,
    ensures
        r@ == seq![digit_char(d as nat)],
{
    proof {
        reveal_strlit("0");
        reveal_strlit("1");
        reveal_strlit("2");
        reveal_strlit("3");
        reveal_strlit("4");
        reveal_strlit("5");
        reveal_strlit("6");
        reveal_strlit("7");
        reveal_strlit("8");
        reveal_strlit("9");
        assert("0"@ =~= seq!['0']);
        assert("1"@ =~= seq!['1']);
        assert("2"@ =~= seq!['2']);
        assert("3"@ =~= seq!['3']);
        assert("4"@ =~= seq!['4']);
        assert("5"@ =~= seq!['5']);
        assert("6"@ =~= seq!['6']);
        assert("7"@ =~= seq!['7']);
        assert("8"@ =~= seq!['8']);
        assert("9"@ =~= seq!['9']);
    }
    match d {
        0 => "0",
        1 => "1",
        2 => "2",
        3 => "3",
        4 => "4",
        5 => "5",
        6 => "6",
        7 => "7",
        8 => "8",
        _ => "9",
    }
}

/// The decimal digits of `n`, as a string.
fn dec_string(n: u32) -> (r: String)
    ensures
        r@ == spec_dec_numeral(n as nat),
    decreases n,
{
    if n < 10 {
        digit_str(n).to_owned()
    } else {
        let mut s = dec_string(n / 10);
        s.append(digit_str(n % 10));
        proof {
            assert(spec_dec_numeral((n / 10) as nat).push(digit_char((n % 10) as nat))
                =~= spec_dec_numeral((n / 10) as nat) + seq![digit_char((n % 10) as nat)]);
        }
        s
    }
}

/// Render `v` as its canonical decimal numeral.
pub fn i16_to_string(v: i16) -> (r: String)
    ensures
        r@ == spec_i16_numeral(v as int),
{
    if v < 0 {
        let m: u32 = (-(v as i32)) as u32;
        let mut s = String::from_str("-");
        let digits = dec_string(m);
        s.append(digits.as_str());
        proof {
            reveal_strlit("-");
            assert("-"@ =~= seq!['-']);
        }
        s
    } else {
        dec_string(v as u32)
    }
}

} // verus!
