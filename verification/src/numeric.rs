//! Decimal text for integer cell values.
//!
//! Remote numeric attributes arrive as text and are held as `i64`; cells are
//! rendered back to text. Both directions are defined here against one
//! canonical form: base-10 digits, a leading `-` for negative values.

use vstd::prelude::*;
use vstd::string::StrSliceExecFns;
use vstd::string::StringExecFns;

verus! {

/// The decimal digit character for `d` (`0 <= d <= 9`).
pub open spec fn digit_char(d: int) -> char {
    if d == 0 {
        '0'
    } else if d == 1 {
        '1'
    } else if d == 2 {
        '2'
    } else if d == 3 {
        '3'
    } else if d == 4 {
        '4'
    } else if d == 5 {
        '5'
    } else if d == 6 {
        '6'
    } else if d == 7 {
        '7'
    } else if d == 8 {
        '8'
    } else {
        '9'
    }
}

/// Canonical base-10 text of a natural number: no sign, no leading zeros.
pub open spec fn dec_str_nat(n: nat) -> Seq<char>
    decreases n,
{
    if n < 10 {
        seq![digit_char(n as int)]
    } else {
        dec_str_nat(n / 10) + seq![digit_char((n % 10) as int)]
    }
}

/// Canonical base-10 text of an integer: a leading '-' for negative values.
pub open spec fn dec_str_int(n: int) -> Seq<char> {
    if n >= 0 {
        dec_str_nat(n as nat)
    } else {
        seq!['-'] + dec_str_nat((-n) as nat)
    }
}

/// Whether `c` is an ASCII decimal digit.
pub open spec fn is_digit(c: char) -> bool {
    48 <= c as int && c as int <= 57
}

/// The numeric value of a digit character.
pub open spec fn digit_val(c: char) -> int {
    c as int - 48
}

/// Whether every character of `s` is a decimal digit.
pub open spec fn all_digits(s: Seq<char>) -> bool {
    forall|i: int| 0 <= i < s.len() ==> is_digit(#[trigger] s[i])
}

/// The value of a digit string, most significant digit first.
pub open spec fn digits_val(s: Seq<char>) -> int
    decreases s.len(),
{
    if s.len() == 0 {
        0
    } else {
        digits_val(s.drop_last()) * 10 + digit_val(s.last())
    }
}

/// What this library's decimal parser accepts: an optional leading '-',
/// then one or more digits, and a value within `i64` range. Anything else
/// is rejected.
pub open spec fn parse_dec(s: Seq<char>) -> Option<int> {
    if s.len() > 0 && s[0] == '-' {
        let d = s.subrange(1, s.len() as int);
        if d.len() > 0 && all_digits(d) && -digits_val(d) >= i64::MIN as int {
            Some(-digits_val(d))
        } else {
            None
        }
    } else {
        if s.len() > 0 && all_digits(s) && digits_val(s) <= i64::MAX as int {
            Some(digits_val(s))
        } else {
            None
        }
    }
}

/// The parsed value of a numeric attribute's text, zero where the text does
/// not parse.
pub open spec fn parse_or_zero(s: Seq<char>) -> int {
    match parse_dec(s) {
        Some(n) => n,
        None => 0,
    }
}

fn digit_str(d: u64) -> (r: &'static str)
    requires
        d < 10,
    ensures
        r@ == seq![digit_char(d as int)],
{
    proof {
        reveal_strlit("0");
        reveal_strlit("1");
        reveal_strlit("2");
        reveal_strlit("3");
        reveal_strlit("4");
        reveal_strlit("5");
        reveal_strlit("6");
        reveal_strlit("7");
        reveal_strlit("8");
        reveal_strlit("9");
    }
    let r = match d {
        0 => "0",
        1 => "1",
        2 => "2",
        3 => "3",
        4 => "4",
        5 => "5",
        6 => "6",
        7 => "7",
        8 => "8",
        _ => "9",
    };
    proof {
        assert(r@ =~= seq![digit_char(d as int)]);
    }
    r
}

/// Canonical decimal text of an unsigned value.
pub fn u64_to_dec(n: u64) -> (r: String)
    ensures
        r@ == dec_str_nat(n as nat),
    decreases n,
{
    if n < 10 {
        digit_str(n).to_owned()
    } else {
        let prefix = u64_to_dec(n / 10);
        prefix.concat(digit_str(n % 10))
    }
}

/// Canonical decimal text of a signed value.
pub fn i64_to_dec(n: i64) -> (r: String)
    ensures
        r@ == dec_str_int(n as int),
{
    if n >= 0 {
        u64_to_dec(n as u64)
    } else {
        let mag: u64 = (0i128 - (n as i128)) as u64;
        let digits = u64_to_dec(mag);
        let r = "-".to_owned().concat(digits.as_str());
        proof {
            reveal_strlit("-");
            assert(r@ =~= dec_str_int(n as int));
        }
        r
    }
}

fn digit_of(c: char) -> (r: Option<u64>)
    ensures
        r is Some <==> is_digit(c),
        match r {
            Some(d) => d == digit_val(c),
            None => true,
        },
{
    let x = c as u32;
    if 48 <= x && x <= 57 {
        Some((x - 48) as u64)
    } else {
        None
    }
}

proof fn lemma_digits_val_nonneg(s: Seq<char>)
    requires
        all_digits(s),
    ensures
        digits_val(s) >= 0,
    decreases s.len(),
{
    if s.len() > 0 {
        assert(all_digits(s.drop_last()));
        lemma_digits_val_nonneg(s.drop_last());
    }
}

proof fn lemma_digits_val_prefix(s: Seq<char>, k: int)
    requires
        all_digits(s),
        0 <= k <= s.len(),
    ensures
        digits_val(s) >= digits_val(s.subrange(0, k)),
    decreases s.len() - k,
{
    if k == s.len() {
        assert(s.subrange(0, k) =~= s);
    } else {
        lemma_digits_val_prefix(s, k + 1);
        let longer = s.subrange(0, k + 1);
        assert(longer.drop_last() =~= s.subrange(0, k));
        assert(all_digits(s.subrange(0, k)));
        lemma_digits_val_nonneg(s.subrange(0, k));
    }
}

/// Parse a decimal integer exactly as `parse_dec` describes.
pub fn parse_i64(s: &str) -> (r: Option<i64>)
    ensures
        match r {
            Some(n) => parse_dec(s@) == Some(n as int),
            None => parse_dec(s@) is None,
        },
{
    let len = s.unicode_len();
    let neg = len > 0 && s.get_char(0) == '-';
    let start: usize = if neg {
        1
    } else {
        0
    };
    if start >= len {
        return None;
    }
    let ghost digits: Seq<char> = if neg {
        s@.subrange(1, len as int)
    } else {
        s@
    };
    proof {
        assert(!neg ==> s@.subrange(0, len as int) =~= s@);
    }
    let mut mag: u64 = 0;
    let mut i: usize = start;
    while i < len
        invariant
            s@.len() == len,
            start <= i <= len,
            start < len,
            neg ==> s@[0] == '-' && start == 1,
            !neg ==> start == 0 && s@[0] != '-',
            digits == if neg {
                s@.subrange(1, len as int)
            } else {
                s@
            },
            all_digits(s@.subrange(start as int, i as int)),
            mag == digits_val(s@.subrange(start as int, i as int)),
            mag <= 9223372036854775808u64,
        decreases len - i,
    {
        let ghost seen = s@.subrange(start as int, i as int);
        let c = s.get_char(i);
        match digit_of(c) {
            None => {
                proof {
                    assert(digits[i - start] == s@[i as int]);
                    assert(!all_digits(digits));
                }
                return None;
            },
            Some(d) => {
                let ghost next = s@.subrange(start as int, i + 1);
                proof {
                    assert(next.drop_last() =~= seen);
                    assert(next.last() == s@[i as int]);
                    assert(digits_val(next) == mag * 10 + digit_val(c));
                }
                if mag > 922337203685477580u64 || (mag == 922337203685477580u64 && d > 8) {
                    proof {
                        assert(mag * 10 + d > 9223372036854775808) by {
                            if mag > 922337203685477580u64 {
                                assert(mag * 10 >= 9223372036854775810) by (nonlinear_arith)
                                    requires mag >= 922337203685477581u64;
                            }
                        }
                        if all_digits(digits) {
                            assert(next =~= digits.subrange(0, i + 1 - start));
                            assert(all_digits(next));
                            lemma_digits_val_prefix(digits, i + 1 - start);
                            assert(digits_val(digits) > 9223372036854775808);
                        }
                        assert(parse_dec(s@) is None);
                    }
                    return None;
                }
                proof {
                    assert(mag * 10 + d <= 9223372036854775808) by (nonlinear_arith)
                        requires
                            mag <= 922337203685477580u64,
                            d <= 9,
                            mag == 922337203685477580u64 ==> d <= 8,
                    ;
                }
                mag = mag * 10 + d;
                proof {
                    assert(all_digits(next));
                }
            },
        }
        i += 1;
    }
    proof {
        assert(s@.subrange(start as int, len as int) == digits);
        assert(all_digits(digits));
        assert(digits_val(digits) == mag);
        assert(digits.len() > 0);
        lemma_digits_val_nonneg(digits);
    }
    if neg {
        if mag == 9223372036854775808u64 {
            Some(i64::MIN)
        } else {
            Some(-(mag as i64))
        }
    } else {
        if mag <= 9223372036854775807u64 {
            Some(mag as i64)
        } else {
            None
        }
    }
}

proof fn lemma_digit_char(d: int)
    requires
        0 <= d <= 9,
    ensures
        is_digit(digit_char(d)),
        digit_val(digit_char(d)) == d,
{
}

proof fn lemma_dec_str_nat(n: nat)
    ensures
        dec_str_nat(n).len() >= 1,
        all_digits(dec_str_nat(n)),
        digits_val(dec_str_nat(n)) == n,
    decreases n,
{
    if n < 10 {
        lemma_digit_char(n as int);
        let s = dec_str_nat(n);
        assert(s =~= seq![digit_char(n as int)]);
        assert(s.drop_last() =~= Seq::<char>::empty());
        assert(s.last() == digit_char(n as int));
        assert(digits_val(s) == digits_val(s.drop_last()) * 10 + digit_val(s.last()));
        assert(digits_val(Seq::<char>::empty()) == 0);
    } else {
        lemma_dec_str_nat(n / 10);
        lemma_digit_char((n % 10) as int);
        vstd::arithmetic::div_mod::lemma_fundamental_div_mod(n as int, 10);
        let s = dec_str_nat(n);
        assert(s.drop_last() =~= dec_str_nat(n / 10));
        assert(s.last() == digit_char((n % 10) as int));
        assert(digits_val(s) == (n / 10) * 10 + (n % 10));
    }
}

/// Round trip for numbers: the canonical text of any `i64` parses back to
/// the same value.
pub proof fn lemma_parse_canonical(n: int)
    requires
        i64::MIN <= n <= i64::MAX,
    ensures
        parse_dec(dec_str_int(n)) == Some(n),
{
    if n >= 0 {
        let s = dec_str_nat(n as nat);
        lemma_dec_str_nat(n as nat);
        assert(is_digit(s[0]));
        assert(s[0] != '-');
    } else {
        let s = dec_str_int(n);
        let d = dec_str_nat((-n) as nat);
        lemma_dec_str_nat((-n) as nat);
        assert(s[0] == '-');
        assert(s.subrange(1, s.len() as int) =~= d);
    }
}

} // verus!
