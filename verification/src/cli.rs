//! What the command-line front end decides without doing I/O.

use vstd::prelude::*;

use crate::driver::session::OptLevel;
use crate::errors::codes::{code_text, explain_text, ErrorCode};
use crate::text::{dec, dec_padded, digit_char, push_dec, push_str};

verus! {

/// Whether every character is an ASCII decimal digit.
pub open spec fn all_digits(s: Seq<char>) -> bool {
    forall|i: int| 0 <= i < s.len() ==> '0' <= #[trigger] s[i] <= '9'
}

/// The value of a string of decimal digits.
pub open spec fn digits_value(s: Seq<char>) -> nat
    decreases s.len(),
{
    if s.len() == 0 {
        0
    } else {
        10 * digits_value(s.drop_last()) + ((s.last() as u32) - ('0' as u32)) as nat
    }
}

/// What `u16::from_str` reads: an optional `+`, then at least one decimal
/// digit, with a value that fits in 16 bits.
pub open spec fn parse_u16_text(s: Seq<char>) -> Option<u16> {
    let digits = if s.len() > 0 && s[0] == '+' {
        s.drop_first()
    } else {
        s
    };
    if digits.len() > 0 && all_digits(digits) && digits_value(digits) <= 65535 {
        Some(digits_value(digits) as u16)
    } else {
        None
    }
}

/// The number of an error code written `E0001` or `e0001`.
pub open spec fn code_number(code: Seq<char>) -> Option<u16> {
    if code.len() > 0 && (code[0] == 'E' || code[0] == 'e') {
        parse_u16_text(code.drop_first())
    } else {
        None
    }
}

/// The answer to a request for the documentation of an error code.
pub open spec fn explain_error_text(code: Seq<char>) -> &'static str {
    match code_number(code) {
        Some(n) => explain_text(n),
        None => "expected error code like E0001",
    }
}

proof fn lemma_digits_value_grows(s: Seq<char>, k: int)
    requires
        all_digits(s),
        0 <= k <= s.len(),
    ensures
        digits_value(s.subrange(0, k)) <= digits_value(s),
    decreases s.len() - k,
{
    if k < s.len() {
        let t = s.subrange(0, k + 1);
        assert(t.drop_last() =~= s.subrange(0, k));
        assert('0' <= t.last());
        lemma_digits_value_grows(s, k + 1);
    } else {
        assert(s.subrange(0, k) =~= s);
    }
}

/// Reads the number after the letter of an error code, as
/// `u16::from_str` does.
fn parse_code_digits(code: &str) -> (r: Option<u16>)
    requires
        code@.len() > 0,
    ensures
        r == parse_u16_text(code@.drop_first()),
{
    let n = code.unicode_len();
    let ghost s = code@.drop_first();
    let mut start: usize = 1;
    if n > 1 && code.get_char(1) == '+' {
        start = 2;
    }
    let ghost digits = code@.subrange(start as int, n as int);
    assert(digits =~= (if s.len() > 0 && s[0] == '+' { s.drop_first() } else { s }));
    if start >= n {
        return None;
    }
    let mut value: u32 = 0;
    let mut i: usize = start;
    while i < n
        invariant
            n == code@.len(),
            1 <= start < n,
            start <= i <= n,
            digits == code@.subrange(start as int, n as int),
            s == code@.drop_first(),
            digits == (if s.len() > 0 && s[0] == '+' { s.drop_first() } else { s }),
            all_digits(code@.subrange(start as int, i as int)),
            value == digits_value(code@.subrange(start as int, i as int)),
            value <= 65535,
        decreases n - i,
    {
        let c = code.get_char(i);
        let ghost pre = code@.subrange(start as int, i as int);
        let ghost next = code@.subrange(start as int, i + 1);
        assert(next.drop_last() =~= pre);
        if c < '0' || c > '9' {
            assert(!all_digits(digits)) by {
                assert(digits[i - start] == c);
            }
            return None;
        }
        let d: u32 = (c as u32) - ('0' as u32);
        value = value * 10 + d;
        if value > 65535 {
            proof {
                assert(all_digits(next));
                if all_digits(digits) {
                    lemma_digits_value_grows(digits, i + 1 - start);
                    assert(digits.subrange(0, i + 1 - start) =~= next);
                }
            }
            return None;
        }
        i = i + 1;
        assert(all_digits(code@.subrange(start as int, i as int))) by {
            assert(forall|j: int| 0 <= j < next.len() - 1 ==> next[j] == pre[j]);
        }
    }
    assert(code@.subrange(start as int, n as int) =~= digits);
    Some(value as u16)
}

/// The documentation of an error code given as `E0001` (or `e0001`), or
/// a hint at the expected form.
pub fn explain_error(code: &str) -> (s: &'static str)
    ensures
        s == explain_error_text(code@),
{
    let n = code.unicode_len();
    if n == 0 {
        return "expected error code like E0001";
    }
    let first = code.get_char(0);
    if first != 'E' && first != 'e' {
        return "expected error code like E0001";
    }
    match parse_code_digits(code) {
        Some(num) => ErrorCode(num).explain(),
        None => "expected error code like E0001",
    }
}

/// The optimisation level of `--opt n`: 0 to 3, else the message that
/// refuses `n`.
pub open spec fn opt_level_of(n: u8) -> Result<OptLevel, Seq<char>> {
    if n == 0 {
        Ok(OptLevel::O0)
    } else if n == 1 {
        Ok(OptLevel::O1)
    } else if n == 2 {
        Ok(OptLevel::O2)
    } else if n == 3 {
        Ok(OptLevel::O3)
    } else {
        Err("unsupported optimization level "@ + dec(n as nat) + " (use 0-3)"@)
    }
}

/// The optimisation level asked for with `--opt n`.
pub fn parse_opt_level(n: u8) -> (r: Result<OptLevel, String>)
    ensures
        match opt_level_of(n) {
            Ok(l) => r == Ok::<OptLevel, String>(l),
            Err(m) => r matches Err(e) && e@ == m,
        },
{
    match n {
        0 => Ok(OptLevel::O0),
        1 => Ok(OptLevel::O1),
        2 => Ok(OptLevel::O2),
        3 => Ok(OptLevel::O3),
        _ => {
            let mut m = String::new();
            push_str(&mut m, "unsupported optimization level ");
            push_dec(&mut m, n as u128);
            push_str(&mut m, " (use 0-3)");
            assert(m@ =~= "unsupported optimization level "@ + dec(n as nat) + " (use 0-3)"@);
            Err(m)
        },
    }
}

proof fn lemma_digit_char_value(d: nat)
    requires
        d < 10,
    ensures
        '0' <= digit_char(d) <= '9',
        ((digit_char(d) as u32) - ('0' as u32)) as nat == d,
{
    assert(('0' as u32) == 48u32);
    assert(('1' as u32) == 49u32);
    assert(('2' as u32) == 50u32);
    assert(('3' as u32) == 51u32);
    assert(('4' as u32) == 52u32);
    assert(('5' as u32) == 53u32);
    assert(('6' as u32) == 54u32);
    assert(('7' as u32) == 55u32);
    assert(('8' as u32) == 56u32);
    assert(('9' as u32) == 57u32);
}

proof fn lemma_dec_digits(n: nat)
    ensures
        dec(n).len() > 0,
        all_digits(dec(n)),
        digits_value(dec(n)) == n,
    decreases n,
{
    lemma_digit_char_value(n % 10);
    if n < 10 {
        let d = dec(n);
        assert(d.drop_last() =~= Seq::<char>::empty());
        assert(digits_value(Seq::<char>::empty()) == 0);
        assert(d.last() == digit_char(n));
        assert(digits_value(d) == 10 * digits_value(d.drop_last()) + ((d.last() as u32) - ('0' as u32)) as nat);
    } else {
        lemma_dec_digits(n / 10);
        let d = dec(n);
        assert(d.drop_last() =~= dec(n / 10));
        assert(d.last() == digit_char(n % 10));
        assert(digits_value(d) == 10 * digits_value(d.drop_last()) + ((d.last() as u32) - ('0' as u32)) as nat);
        assert(10 * (n / 10) + n % 10 == n);
        assert(forall|i: int| 0 <= i < d.len() - 1 ==> d[i] == dec(n / 10)[i]);
    }
}

proof fn lemma_zeros_value(k: nat)
    ensures
        all_digits(Seq::new(k, |_i: int| '0')),
        digits_value(Seq::new(k, |_i: int| '0')) == 0,
    decreases k,
{
    if k > 0 {
        lemma_zeros_value((k - 1) as nat);
        assert(Seq::new(k, |_i: int| '0').drop_last() =~= Seq::new((k - 1) as nat, |_i: int| '0'));
    }
}

proof fn lemma_zeros_prefix(z: Seq<char>, s: Seq<char>)
    requires
        all_digits(z),
        digits_value(z) == 0,
        all_digits(s),
    ensures
        all_digits(z + s),
        digits_value(z + s) == digits_value(s),
    decreases s.len(),
{
    if s.len() == 0 {
        assert(z + s =~= z);
    } else {
        assert((z + s).drop_last() =~= z + s.drop_last());
        lemma_zeros_prefix(z, s.drop_last());
    }
    assert forall|i: int| 0 <= i < (z + s).len() implies '0' <= #[trigger] (z + s)[i] <= '9' by {
        if i < z.len() {
            assert(z[i] == (z + s)[i]);
        } else {
            assert(s[i - z.len()] == (z + s)[i]);
        }
    }
}

/// Explaining the text of an error code (as `ErrorCode::as_str` writes it)
/// gives that code's documentation: the text reads back as the same number.
pub proof fn explain_error_of_code_text(c: ErrorCode)
    ensures
        code_number(code_text(c)) == Some(c.0),
        explain_error_text(code_text(c)) == explain_text(c.0),
{
    let n = c.0 as nat;
    lemma_dec_digits(n);
    let d = dec(n);
    let p = dec_padded(n, 4);
    if d.len() >= 4 {
        assert(p == d);
    } else {
        let z = Seq::new((4 - d.len()) as nat, |_i: int| '0');
        lemma_zeros_value((4 - d.len()) as nat);
        lemma_zeros_prefix(z, d);
        assert(p == z + d);
    }
    let t = code_text(c);
    assert(t.drop_first() =~= p);
    assert('0' <= p[0] <= '9');
}

} // verus!
