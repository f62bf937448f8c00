//! Decimal notation for `u64` values.
//!
//! The progress and status lines quote interval lengths and repeat
//! counts in decimal, and the command-line surface accepts repeat and
//! interval arguments only when they are the decimal notation of a
//! `u64`. Both directions are specified here: `dec_digits` gives the
//! canonical digit sequence of a number, `dec_value` reads a digit
//! sequence back, and the executable functions are proved against
//! them.

use vstd::prelude::*;

verus! {

/// The character for a single decimal digit.
pub open spec fn digit_char(d: nat) -> char {
    if d == 0 {
        '0'
    } else if d == 1 {
        '1'
    } else if d == 2 {
        '2'
    } else if d == 3 {
        '3'
    } else if d == 4 {
        '4'
    } else if d == 5 {
        '5'
    } else if d == 6 {
        '6'
    } else if d == 7 {
        '7'
    } else if d == 8 {
        '8'
    } else {
        '9'
    }
}

/// The canonical decimal digit sequence of `n`: no sign, no leading
/// zero except for `n == 0` itself.
pub open spec fn dec_digits(n: nat) -> Seq<char>
    decreases n,
{
    if n < 10 {
        seq![digit_char(n)]
    } else {
        dec_digits(n / 10).push(digit_char(n % 10))
    }
}

/// Whether `c` is one of the ten decimal digit characters.
pub open spec fn is_digit(c: char) -> bool {
    48 <= (c as u32) && (c as u32) <= 57
}

/// The numeric value of a digit character.
pub open spec fn digit_val(c: char) -> nat
    recommends
        is_digit(c),
{
    ((c as u32) - 48) as nat
}

/// The number denoted by a digit sequence, most significant digit
/// first.
pub open spec fn dec_value(s: Seq<char>) -> nat
    decreases s.len(),
{
    if s.len() == 0 {
        0
    } else {
        dec_value(s.drop_last()) * 10 + digit_val(s.last())
    }
}

/// The digit portion of a decimal numeral: everything after an
/// optional leading plus sign.
pub open spec fn u64_digits(s: Seq<char>) -> Seq<char> {
    if s.len() > 0 && s[0] == '+' {
        s.drop_first()
    } else {
        s
    }
}

/// Whether `s` denotes a `u64`: an optional leading plus sign, then at
/// least one digit, all digits, and a value that fits in 64 bits.
pub open spec fn is_u64_decimal(s: Seq<char>) -> bool {
    let d = u64_digits(s);
    &&& d.len() > 0
    &&& (forall|i: int| 0 <= i < d.len() ==> is_digit(d[i]))
    &&& dec_value(d) <= u64::MAX
}

/// Every character of a canonical digit sequence is a digit.
pub proof fn lemma_dec_digits_are_digits(n: nat)
    ensures
        forall|i: int| 0 <= i < dec_digits(n).len() ==> is_digit(dec_digits(n)[i]),
    decreases n,
{
    if n < 10 {
    } else {
        lemma_dec_digits_are_digits(n / 10);
        assert forall|i: int| 0 <= i < dec_digits(n).len() implies is_digit(dec_digits(n)[i]) by {
            if i < dec_digits(n / 10).len() {
                assert(dec_digits(n)[i] == dec_digits(n / 10)[i]);
            }
        }
    }
}

/// Reading a canonical digit sequence gives the number back.
pub proof fn lemma_dec_digits_value(n: nat)
    ensures
        dec_value(dec_digits(n)) == n,
    decreases n,
{
    if n < 10 {
        let s = dec_digits(n);
        assert(s.drop_last() =~= Seq::<char>::empty());
        assert(dec_value(Seq::<char>::empty()) == 0);
        assert(s.last() == digit_char(n));
        assert(dec_value(s) == digit_val(digit_char(n)));
    } else {
        lemma_dec_digits_value(n / 10);
        let s = dec_digits(n);
        assert(s.drop_last() =~= dec_digits(n / 10));
        assert(s.last() == digit_char(n % 10));
        assert(digit_val(digit_char(n % 10)) == n % 10);
    }
}

/// The notation the library prints is notation the library accepts:
/// for every `u64`, its canonical digit sequence denotes a `u64`, and
/// denotes that very number.
pub proof fn lemma_decimal_round_trip(n: u64)
    ensures
        is_u64_decimal(dec_digits(n as nat)),
        dec_value(dec_digits(n as nat)) == n,
{
    let s = dec_digits(n as nat);
    lemma_dec_digits_value(n as nat);
    lemma_dec_digits_are_digits(n as nat);
    // A digit sequence never starts with a plus sign, so the numeral
    // is its own digit portion.
    assert(is_digit(s[0]));
    assert(('+' as u32) == 43);
    assert(s[0] != '+');
    assert(u64_digits(s) == s);
}

fn digit_str(d: u64) -> (r: &'static str)
    requires
        d < 10,
    ensures
        r@ =~= seq![digit_char(d as nat)],
{
    if d == 0 {
        proof {
            reveal_strlit("0");
        }
        "0"
    } else if d == 1 {
        proof {
            reveal_strlit("1");
        }
        "1"
    } else if d == 2 {
        proof {
            reveal_strlit("2");
        }
        "2"
    } else if d == 3 {
        proof {
            reveal_strlit("3");
        }
        "3"
    } else if d == 4 {
        proof {
            reveal_strlit("4");
        }
        "4"
    } else if d == 5 {
        proof {
            reveal_strlit("5");
        }
        "5"
    } else if d == 6 {
        proof {
            reveal_strlit("6");
        }
        "6"
    } else if d == 7 {
        proof {
            reveal_strlit("7");
        }
        "7"
    } else if d == 8 {
        proof {
            reveal_strlit("8");
        }
        "8"
    } else {
        proof {
            reveal_strlit("9");
        }
        "9"
    }
}

/// A digit sequence denotes at least as much as any of its prefixes.
proof fn lemma_dec_value_prefix_le(s: Seq<char>, k: int)
    requires
        0 <= k <= s.len(),
    ensures
        dec_value(s.subrange(0, k)) <= dec_value(s),
    decreases s.len() - k,
{
    if k < s.len() {
        lemma_dec_value_prefix_le(s, k + 1);
        let a = s.subrange(0, k);
        let b = s.subrange(0, k + 1);
        assert(b.drop_last() =~= a);
        assert(dec_value(b) == dec_value(a) * 10 + digit_val(b.last()));
    } else {
        assert(s.subrange(0, k) =~= s);
    }
}

/// Accepts exactly the strings that denote a `u64`; the command-line
/// surface uses it to validate the interval and repeat arguments.
pub fn is_an_unsigned_integer(val: String) -> (r: Result<(), String>)
    ensures
        r is Ok <==> is_u64_decimal(val@),
        r is Err ==> r->Err_0@ == "the value must be a positive integer."@,
{
    let s = val.as_str();
    let len = s.unicode_len();
    let start: usize = if len > 0 && s.get_char(0) == '+' {
        1
    } else {
        0
    };
    let ghost d = u64_digits(val@);
    proof {
        assert(d =~= val@.subrange(start as int, len as int));
    }
    if len == start {
        return Err(String::from_str("the value must be a positive integer."));
    }
    let mut acc: u64 = 0;
    let mut i: usize = start;
    while i < len
        invariant
            start <= i <= len,
            s@ == val@,
            len == val@.len(),
            start == 1 ==> len > 0 && val@[0] == '+',
            start == 0 || start == 1,
            d == u64_digits(val@),
            d =~= val@.subrange(start as int, len as int),
            forall|j: int| start <= j < i ==> is_digit(val@[j]),
            acc as nat == dec_value(val@.subrange(start as int, i as int)),
        decreases len - i,
    {
        let c = s.get_char(i);
        let u = c as u32;
        if u < 48 || u > 57 {
            proof {
                assert(!is_digit(d[i - start]));
            }
            return Err(String::from_str("the value must be a positive integer."));
        }
        let dv = (u - 48) as u64;
        let ghost pref = val@.subrange(start as int, i as int);
        let ghost pref1 = val@.subrange(start as int, i + 1);
        proof {
            assert(pref1.drop_last() =~= pref);
            assert(dec_value(pref1) == dec_value(pref) * 10 + digit_val(val@[i as int]));
            assert(digit_val(val@[i as int]) == dv);
        }
        if acc > (u64::MAX - dv) / 10 {
            proof {
                // The value read so far already exceeds `u64::MAX`, so
                // the whole numeral does too.
                assert(acc * 10 + dv > u64::MAX) by (nonlinear_arith)
                    requires
                        acc > (u64::MAX - dv) / 10,
                        dv <= 9,
                ;
                assert(pref1 =~= d.subrange(0, i + 1 - start));
                lemma_dec_value_prefix_le(d, i + 1 - start);
                assert(dec_value(d) > u64::MAX);
            }
            return Err(String::from_str("the value must be a positive integer."));
        }
        proof {
            assert(acc * 10 + dv <= u64::MAX) by (nonlinear_arith)
                requires
                    acc <= (u64::MAX - dv) / 10,
                    dv <= 9,
            ;
        }
        acc = acc * 10 + dv;
        i = i + 1;
    }
    proof {
        assert(val@.subrange(start as int, i as int) =~= d);
        assert(forall|j: int| 0 <= j < d.len() ==> is_digit(#[trigger] d[j]));
        assert(dec_value(d) <= u64::MAX);
    }
    Ok(())
}

/// The decimal notation of `n`, as the status lines print it.
pub fn u64_to_dec(n: u64) -> (r: String)
    ensures
        r@ == dec_digits(n as nat),
    decreases n,
{
    if n < 10 {
        let r = digit_str(n).to_owned();
        proof {
            assert(r@ =~= dec_digits(n as nat));
        }
        r
    } else {
        let mut r = u64_to_dec(n / 10);
        r.append(digit_str(n % 10));
        proof {
            assert(r@ =~= dec_digits(n as nat));
        }
        r
    }
}

} // verus!
