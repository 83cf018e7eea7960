//! Decimal numerals over character sequences: formatting of nonnegative
//! integers, parsing of digit runs, and the proof that parsing inverts
//! formatting.

use vstd::prelude::*;

verus! {

pub open spec fn is_digit(c: char) -> bool {
    48 <= c as u32 <= 57
}

pub open spec fn digit_val(c: char) -> int
    recommends
        is_digit(c),
{
    c as u32 - 48
}

pub open spec fn digit_char(d: int) -> char
    recommends
        0 <= d < 10,
{
    if d == 0 {
        '0'
    } else if d == 1 {
        '1'
    } else if d == 2 {
        '2'
    } else if d == 3 {
        '3'
    } else if d == 4 {
        '4'
    } else if d == 5 {
        '5'
    } else if d == 6 {
        '6'
    } else if d == 7 {
        '7'
    } else if d == 8 {
        '8'
    } else {
        '9'
    }
}

/// Decimal numeral of a nonnegative integer, most significant digit first,
/// with no leading zeros (a single `'0'` for zero).
pub open spec fn dec_u(n: int) -> Seq<char>
    recommends
        n >= 0,
    decreases n,
{
    if n < 10 {
        seq![digit_char(n)]
    } else {
        dec_u(n / 10).push(digit_char(n % 10))
    }
}

/// Ten to the power `k` (one for `k <= 0`).
pub open spec fn p10(k: int) -> int
    decreases k,
{
    if k <= 0 {
        1
    } else {
        10 * p10(k - 1)
    }
}

/// Reading a digit run left to right: consumes digits from position `i`
/// onward, accumulating into `acc`; stops at the first non-digit or at the
/// end, and refuses runs whose value would exceed `i64::MAX`.
pub open spec fn parse_digits(s: Seq<char>, i: int, acc: int) -> Option<(int, int)>
    decreases s.len() - i,
{
    if 0 <= i < s.len() && is_digit(s[i]) {
        let v = acc * 10 + digit_val(s[i]);
        if v > i64::MAX as int {
            None
        } else {
            parse_digits(s, i + 1, v)
        }
    } else {
        Some((acc, i))
    }
}

/// A decimal number at position `i`: at least one digit, value at most
/// `i64::MAX`.
pub open spec fn parse_num(s: Seq<char>, i: int) -> Option<(int, int)> {
    if 0 <= i < s.len() && is_digit(s[i]) {
        parse_digits(s, i, 0)
    } else {
        None
    }
}

pub proof fn lemma_p10_pos(k: int)
    ensures
        p10(k) >= 1,
    decreases k,
{
    if k > 0 {
        lemma_p10_pos(k - 1);
    }
}

pub proof fn lemma_digit_roundtrip(d: int)
    requires
        0 <= d < 10,
    ensures
        is_digit(digit_char(d)),
        digit_val(digit_char(d)) == d,
{
}

pub proof fn lemma_dec_u_digits(n: int)
    requires
        n >= 0,
    ensures
        dec_u(n).len() >= 1,
        forall|k: int| 0 <= k < dec_u(n).len() ==> is_digit(#[trigger] dec_u(n)[k]),
    decreases n,
{
    if n < 10 {
        lemma_digit_roundtrip(n);
    } else {
        lemma_dec_u_digits(n / 10);
        lemma_digit_roundtrip(n % 10);
        assert forall|k: int| 0 <= k < dec_u(n).len() implies is_digit(#[trigger] dec_u(n)[k]) by {
            if k < dec_u(n / 10).len() {
                assert(dec_u(n)[k] == dec_u(n / 10)[k]);
            } else {
                assert(dec_u(n)[k] == digit_char(n % 10));
            }
        }
    }
}

/// Consuming the numeral of `n` starting at `i` advances the accumulator by
/// `acc * 10^len + n`.
pub proof fn lemma_parse_digits_dec(s: Seq<char>, i: int, acc: int, n: int)
    requires
        0 <= n,
        0 <= acc,
        0 <= i,
        i + dec_u(n).len() <= s.len(),
        s.subrange(i, i + dec_u(n).len() as int) == dec_u(n),
        acc * p10(dec_u(n).len() as int) + n <= i64::MAX as int,
    ensures
        parse_digits(s, i, acc) == parse_digits(
            s,
            i + dec_u(n).len(),
            acc * p10(dec_u(n).len() as int) + n,
        ),
    decreases n,
{
    lemma_p10_pos(dec_u(n).len() as int);
    if n < 10 {
        assert(s[i] == dec_u(n)[0]);
        lemma_digit_roundtrip(n);
        assert(p10(1) == 10);
        assert(acc * 10 + n <= i64::MAX as int);
    } else {
        let l = dec_u(n / 10).len() as int;
        let r = n % 10;
        let q = n / 10;
        assert(dec_u(n) == dec_u(q).push(digit_char(r)));
        assert(dec_u(n).len() == l + 1);
        assert(s.subrange(i, i + l) =~= dec_u(q)) by {
            assert forall|k: int| 0 <= k < l implies s.subrange(i, i + l)[k] == dec_u(q)[k] by {
                assert(s.subrange(i, i + dec_u(n).len() as int)[k] == dec_u(n)[k]);
            }
        }
        lemma_p10_pos(l);
        assert(n == 10 * q + r && 0 <= r < 10) by {
            vstd::arithmetic::div_mod::lemma_fundamental_div_mod(n, 10);
        }
        let acc2 = acc * p10(l) + q;
        assert(acc2 >= 0) by (nonlinear_arith)
            requires
                acc2 == acc * p10(l) + q,
                acc >= 0,
                p10(l) >= 1,
                q >= 0,
        ;
        assert(acc2 * 10 + r == acc * p10(l + 1) + n) by (nonlinear_arith)
            requires
                acc2 == acc * p10(l) + q,
                p10(l + 1) == 10 * p10(l),
                n == 10 * q + r,
        ;
        assert(acc2 * 10 + r <= i64::MAX as int);
        assert(acc * p10(l) + q <= i64::MAX as int) by (nonlinear_arith)
            requires
                acc2 * 10 + r == acc * p10(l + 1) + n,
                acc2 == acc * p10(l) + q,
                acc2 >= 0,
                0 <= r,
                acc * p10(l + 1) + n <= i64::MAX as int,
        ;
        lemma_parse_digits_dec(s, i, acc, q);
        // one more step at position i + l, reading the last digit
        assert(s[i + l] == dec_u(n)[l]);
        assert(dec_u(n)[l] == digit_char(r));
        lemma_digit_roundtrip(r);
        assert(parse_digits(s, i + l, acc2) == parse_digits(s, i + l + 1, acc2 * 10 + r));
    }
}

/// Parsing inverts formatting: a numeral written at position `i`, followed by
/// a non-digit or the end, reads back as its value.
pub proof fn lemma_parse_num_dec(s: Seq<char>, i: int, n: int)
    requires
        0 <= n <= i64::MAX as int,
        0 <= i,
        i + dec_u(n).len() <= s.len(),
        s.subrange(i, i + dec_u(n).len() as int) == dec_u(n),
        i + dec_u(n).len() == s.len() || !is_digit(s[i + dec_u(n).len()]),
    ensures
        parse_num(s, i) == Some((n, i + dec_u(n).len())),
{
    lemma_dec_u_digits(n);
    assert(s[i] == dec_u(n)[0]);
    lemma_p10_pos(dec_u(n).len() as int);
    assert(0 * p10(dec_u(n).len() as int) == 0) by (nonlinear_arith);
    lemma_parse_digits_dec(s, i, 0, n);
}

/// Digit character of a value below ten.
pub fn digit_of(d: u64) -> (c: char)
    requires
        d < 10,
    ensures
        c == digit_char(d as int),
{
    if d == 0 {
        '0'
    } else if d == 1 {
        '1'
    } else if d == 2 {
        '2'
    } else if d == 3 {
        '3'
    } else if d == 4 {
        '4'
    } else if d == 5 {
        '5'
    } else if d == 6 {
        '6'
    } else if d == 7 {
        '7'
    } else if d == 8 {
        '8'
    } else {
        '9'
    }
}

/// Appends the decimal numeral of `n`.
pub fn push_dec(out: &mut Vec<char>, n: u64)
    ensures
        final(out)@ == old(out)@ + dec_u(n as int),
    decreases n,
{
    if n < 10 {
        out.push(digit_of(n));
        proof {
            assert(out@ =~= old(out)@ + dec_u(n as int));
        }
    } else {
        push_dec(out, n / 10);
        out.push(digit_of(n % 10));
        proof {
            assert(out@ =~= old(out)@ + dec_u(n as int));
        }
    }
}

/// Reads a decimal number at `start`, exactly as `parse_num` does.
pub fn parse_num_exec(s: &Vec<char>, start: usize) -> (r: Option<(i64, usize)>)
    requires
        start <= s@.len(),
    ensures
        match r {
            Some(p) => {
                &&& parse_num(s@, start as int) == Some((p.0 as int, p.1 as int))
                &&& start < p.1 <= s@.len()
                &&& p.0 >= 0
            },
            None => parse_num(s@, start as int) is None,
        },
{
    let n = s.len();
    if start >= n {
        return None;
    }
    let u0 = s[start] as u32;
    if !(48 <= u0 && u0 <= 57) {
        return None;
    }
    let mut i: usize = start + 1;
    let mut acc: i64 = (u0 - 48) as i64;
    proof {
        assert(is_digit(s@[start as int]) && digit_val(s@[start as int]) == acc as int);
        assert(0 * 10 + digit_val(s@[start as int]) == acc as int);
    }
    loop
        invariant
            start < i <= n,
            n == s@.len(),
            0 <= acc,
            parse_digits(s@, start as int, 0) == parse_digits(s@, i as int, acc as int),
            is_digit(s@[start as int]),
        ensures
            start < i <= n,
            0 <= acc,
            parse_digits(s@, start as int, 0) == parse_digits(s@, i as int, acc as int),
            i == n || !is_digit(s@[i as int]),
        decreases n - i,
    {
        if i >= n {
            break;
        }
        let u = s[i] as u32;
        if !(48 <= u && u <= 57) {
            break;
        }
        let d = (u - 48) as i64;
        proof {
            assert(is_digit(s@[i as int]) && digit_val(s@[i as int]) == d as int);
        }
        let m = i64::MAX;
        proof {
            vstd::arithmetic::div_mod::lemma_fundamental_div_mod(m as int - d as int, 10);
        }
        if acc > (m - d) / 10 {
            proof {
                let md = m as int - d as int;
                assert(acc as int * 10 + d as int > m as int) by (nonlinear_arith)
                    requires
                        acc as int > md / 10,
                        md == 10 * (md / 10) + md % 10,
                        0 <= md % 10 < 10,
                        d as int + md == m as int,
                ;
            }
            return None;
        }
        proof {
            let md = m as int - d as int;
            assert(acc as int * 10 + d as int <= m as int) by (nonlinear_arith)
                requires
                    acc as int <= md / 10,
                    md == 10 * (md / 10) + md % 10,
                    0 <= md % 10 < 10,
                    d as int + md == m as int,
                    acc >= 0,
            ;
        }
        acc = acc * 10 + d;
        i = i + 1;
    }
    proof {
        assert(parse_digits(s@, i as int, acc as int) == Some((acc as int, i as int)));
    }
    Some((acc, i))
}

} // verus!
