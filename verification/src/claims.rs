//! Claims: the identity and validity window embedded in a token, and their
//! canonical JSON text, `{"sub":S,"email":E,"exp":N,"iat":N}`, with a
//! serializer, a parser, and the proof that parsing inverts serialization.

use vstd::prelude::*;
use crate::numerals::{
    is_digit, digit_val, dec_u, parse_num, lemma_parse_num_dec, lemma_dec_u_digits, push_dec,
    parse_num_exec,
};
use crate::chars::{chars_of, string_from_chars};

verus! {

/// The identity and validity window carried by a token: subject, email,
/// expiry and issue time (seconds since the Unix epoch).
#[derive(Debug, PartialEq, Eq)]
pub struct Claims {
    pub sub: String,
    pub email: String,
    pub exp: i64,
    pub iat: i64,
}

pub ghost struct ClaimsView {
    pub sub: Seq<char>,
    pub email: Seq<char>,
    pub exp: int,
    pub iat: int,
}

impl View for Claims {
    type V = ClaimsView;

    open spec fn view(&self) -> ClaimsView {
        ClaimsView { sub: self.sub@, email: self.email@, exp: self.exp as int, iat: self.iat as int }
    }
}

pub open spec fn hex_char(d: int) -> char
    recommends
        0 <= d < 16,
{
    if d < 10 {
        crate::numerals::digit_char(d)
    } else if d == 10 {
        'a'
    } else if d == 11 {
        'b'
    } else if d == 12 {
        'c'
    } else if d == 13 {
        'd'
    } else if d == 14 {
        'e'
    } else {
        'f'
    }
}

pub open spec fn is_hex(c: char) -> bool {
    is_digit(c) || 97 <= c as u32 <= 102 || 65 <= c as u32 <= 70
}

pub open spec fn hex_val(c: char) -> int
    recommends
        is_hex(c),
{
    if is_digit(c) {
        digit_val(c)
    } else if 97 <= c as u32 {
        c as u32 - 87
    } else {
        c as u32 - 55
    }
}

/// JSON escape of one character: quote and backslash are escaped, control
/// characters become `\u00XX`, everything else stands as itself.
pub open spec fn esc_char(c: char) -> Seq<char> {
    if c == '"' {
        seq!['\\', '"']
    } else if c == '\\' {
        seq!['\\', '\\']
    } else if (c as u32) < 32 {
        seq!['\\', 'u', '0', '0', hex_char((c as u32) as int / 16), hex_char((c as u32) as int % 16)]
    } else {
        seq![c]
    }
}

/// JSON escape of a string body.
pub open spec fn esc(s: Seq<char>) -> Seq<char>
    decreases s.len(),
{
    if s.len() == 0 {
        Seq::empty()
    } else {
        esc_char(s[0]) + esc(s.drop_first())
    }
}

/// A JSON string body read from position `i` up to its closing quote,
/// accumulating the unescaped characters into `acc`; yields the body and the
/// position after the closing quote.
pub open spec fn parse_jstr(s: Seq<char>, i: int, acc: Seq<char>) -> Option<(Seq<char>, int)>
    decreases s.len() - i,
{
    if !(0 <= i < s.len()) {
        None
    } else if s[i] == '"' {
        Some((acc, i + 1))
    } else if s[i] == '\\' {
        if i + 2 <= s.len() && (s[i + 1] == '"' || s[i + 1] == '\\') {
            parse_jstr(s, i + 2, acc.push(s[i + 1]))
        } else if i + 6 <= s.len() && s[i + 1] == 'u' && s[i + 2] == '0' && s[i + 3] == '0'
            && is_hex(s[i + 4]) && is_hex(s[i + 5]) {
            let v = hex_val(s[i + 4]) * 16 + hex_val(s[i + 5]);
            if 0 <= v < 32 {
                parse_jstr(s, i + 6, acc.push((v as u32) as char))
            } else {
                None
            }
        } else {
            None
        }
    } else {
        parse_jstr(s, i + 1, acc.push(s[i]))
    }
}

pub open spec fn match_at(s: Seq<char>, i: int, lit: Seq<char>) -> bool {
    0 <= i && i + lit.len() <= s.len() && s.subrange(i, i + lit.len() as int) == lit
}

pub open spec fn lit_sub() -> Seq<char> {
    seq!['{', '"', 's', 'u', 'b', '"', ':', '"']
}

pub open spec fn lit_email() -> Seq<char> {
    seq![',', '"', 'e', 'm', 'a', 'i', 'l', '"', ':', '"']
}

pub open spec fn lit_exp() -> Seq<char> {
    seq![',', '"', 'e', 'x', 'p', '"', ':']
}

pub open spec fn lit_iat() -> Seq<char> {
    seq![',', '"', 'i', 'a', 't', '"', ':']
}

/// The canonical claims text.
pub open spec fn claims_text(sub: Seq<char>, email: Seq<char>, exp: int, iat: int) -> Seq<char> {
    lit_sub() + esc(sub) + seq!['"'] + lit_email() + esc(email) + seq!['"'] + lit_exp() + dec_u(exp)
        + lit_iat() + dec_u(iat) + seq!['}']
}

/// The claims a text spells, when it is well formed.
pub open spec fn parse_claims_text(s: Seq<char>) -> Option<ClaimsView> {
    if !match_at(s, 0, lit_sub()) {
        None
    } else {
        match parse_jstr(s, lit_sub().len() as int, Seq::empty()) {
            None => None,
            Some((sub, i1)) => if !match_at(s, i1, lit_email()) {
                None
            } else {
                match parse_jstr(s, i1 + lit_email().len(), Seq::empty()) {
                    None => None,
                    Some((email, i2)) => if !match_at(s, i2, lit_exp()) {
                        None
                    } else {
                        match parse_num(s, i2 + lit_exp().len()) {
                            None => None,
                            Some((exp, i3)) => if !match_at(s, i3, lit_iat()) {
                                None
                            } else {
                                match parse_num(s, i3 + lit_iat().len()) {
                                    None => None,
                                    Some((iat, i4)) => if i4 + 1 == s.len() && s[i4] == '}' {
                                        Some(ClaimsView { sub, email, exp, iat })
                                    } else {
                                        None
                                    },
                                }
                            },
                        }
                    },
                }
            },
        }
    }
}

pub proof fn lemma_hex_roundtrip(d: int)
    requires
        0 <= d < 16,
    ensures
        is_hex(hex_char(d)),
        hex_val(hex_char(d)) == d,
        hex_char(d) != '"' && hex_char(d) != '\\',
{
}

/// Escaping distributes over appending one character.
pub proof fn lemma_esc_push(a: Seq<char>, c: char)
    ensures
        esc(a.push(c)) == esc(a) + esc_char(c),
    decreases a.len(),
{
    if a.len() == 0 {
        assert(a.push(c)[0] == c);
        assert(a.push(c).drop_first() =~= Seq::<char>::empty());
        assert(esc(Seq::<char>::empty()) == Seq::<char>::empty());
        assert(esc(a.push(c)) == esc_char(c) + esc(Seq::<char>::empty()));
        assert(esc(a) == Seq::<char>::empty());
        assert(esc(a.push(c)) =~= esc(a) + esc_char(c));
    } else {
        assert(a.push(c)[0] == a[0]);
        assert(a.push(c).drop_first() =~= a.drop_first().push(c));
        lemma_esc_push(a.drop_first(), c);
        assert(esc(a.push(c)) == esc_char(a[0]) + esc(a.drop_first().push(c)));
        assert(esc(a.push(c)) == esc_char(a[0]) + (esc(a.drop_first()) + esc_char(c)));
        assert(esc(a) == esc_char(a[0]) + esc(a.drop_first()));
        assert(esc(a.push(c)) =~= esc(a) + esc_char(c));
    }
}

/// Reading a JSON string body inverts escaping: the escaped body followed by
/// a closing quote reads back as the body itself.
pub proof fn lemma_parse_jstr_esc(t: Seq<char>, i: int, acc: Seq<char>, x: Seq<char>)
    requires
        0 <= i,
        i + esc(x).len() + 1 <= t.len(),
        t.subrange(i, i + esc(x).len() as int) == esc(x),
        t[i + esc(x).len()] == '"',
    ensures
        parse_jstr(t, i, acc) == Some((acc + x, i + esc(x).len() + 1)),
    decreases x.len(),
{
    if x.len() == 0 {
        assert(t[i] == '"');
        assert(acc + x =~= acc);
    } else {
        let c = x[0];
        let rest = x.drop_first();
        assert(esc(x) == esc_char(c) + esc(rest));
        let el = esc_char(c).len() as int;
        assert(t.subrange(i + el, i + esc(x).len() as int) =~= esc(rest)) by {
            assert forall|k: int| 0 <= k < esc(rest).len() implies t.subrange(
                i + el,
                i + esc(x).len() as int,
            )[k] == esc(rest)[k] by {
                assert(t.subrange(i, i + esc(x).len() as int)[el + k] == esc(x)[el + k]);
                assert(esc(x)[el + k] == esc(rest)[k]);
            }
        }
        assert forall|k: int| 0 <= k < el implies t[i + k] == esc_char(c)[k] by {
            assert(t.subrange(i, i + esc(x).len() as int)[k] == esc(x)[k]);
            assert(esc(x)[k] == esc_char(c)[k]);
        }
        assert(t[i] == t[i + 0] && t[i + 0] == esc_char(c)[0]);
        if c == '"' {
            assert(t[i + 1] == esc_char(c)[1]);
            assert(t[i] == '\\' && t[i + 1] == '"');
            lemma_parse_jstr_esc(t, i + 2, acc.push(c), rest);
            assert(acc.push(c) + rest =~= acc + x);
        } else if c == '\\' {
            assert(t[i + 1] == esc_char(c)[1]);
            assert(t[i] == '\\' && t[i + 1] == '\\');
            lemma_parse_jstr_esc(t, i + 2, acc.push(c), rest);
            assert(acc.push(c) + rest =~= acc + x);
        } else if (c as u32) < 32 {
            let hi = (c as u32) as int / 16;
            let lo = (c as u32) as int % 16;
            assert(0 <= hi < 16 && 0 <= lo < 16);
            lemma_hex_roundtrip(hi);
            lemma_hex_roundtrip(lo);
            assert(t[i + 1] == esc_char(c)[1]);
            assert(t[i + 2] == esc_char(c)[2]);
            assert(t[i + 3] == esc_char(c)[3]);
            assert(t[i + 4] == esc_char(c)[4]);
            assert(t[i + 5] == esc_char(c)[5]);
            assert(t[i] == '\\' && t[i + 1] == 'u' && t[i + 2] == '0' && t[i + 3] == '0');
            assert(t[i + 4] == hex_char(hi) && t[i + 5] == hex_char(lo));
            assert(hex_val(t[i + 4]) * 16 + hex_val(t[i + 5]) == c as u32) by {
                vstd::arithmetic::div_mod::lemma_fundamental_div_mod((c as u32) as int, 16);
            }
            assert(((c as u32) as u32) as char == c) by {
                vstd::utf8::char_u32_cast(c, c as u32);
            }
            // the two-character escape branch does not fire: 'u' is neither
            // a quote nor a backslash
            lemma_parse_jstr_esc(t, i + 6, acc.push(c), rest);
            assert(acc.push(c) + rest =~= acc + x);
        } else {
            assert(t[i] == c);
            assert(t[i] != '"' && t[i] != '\\');
            lemma_parse_jstr_esc(t, i + 1, acc.push(c), rest);
            assert(acc.push(c) + rest =~= acc + x);
        }
    }
}

/// Parsing inverts serialization: the canonical text of any claims reads
/// back as exactly those claims.
#[verifier::rlimit(100)]
#[verifier::spinoff_prover]
pub proof fn lemma_parse_claims_complete(sub: Seq<char>, email: Seq<char>, exp: int, iat: int)
    requires
        0 <= exp <= i64::MAX as int,
        0 <= iat <= i64::MAX as int,
    ensures
        parse_claims_text(claims_text(sub, email, exp, iat)) == Some(
            ClaimsView { sub, email, exp, iat },
        ),
{
    let t = claims_text(sub, email, exp, iat);
    let p0 = lit_sub().len() as int;
    let p1 = p0 + esc(sub).len() + 1;
    let p2 = p1 + lit_email().len() as int;
    let p3 = p2 + esc(email).len() + 1;
    let p4 = p3 + lit_exp().len() as int;
    let p5 = p4 + dec_u(exp).len() as int;
    let p6 = p5 + lit_iat().len() as int;
    let p7 = p6 + dec_u(iat).len() as int;
    assert(t.len() == p7 + 1);
    lemma_dec_u_digits(exp);
    lemma_dec_u_digits(iat);

    assert(t.subrange(0, p0) =~= lit_sub());
    assert(t.subrange(p0, p1 - 1) =~= esc(sub));
    assert(t[p1 - 1] == '"');
    assert(t.subrange(p1, p2) =~= lit_email());
    assert(t.subrange(p2, p3 - 1) =~= esc(email));
    assert(t[p3 - 1] == '"');
    assert(t.subrange(p3, p4) =~= lit_exp());
    assert(t.subrange(p4, p5) =~= dec_u(exp));
    assert(t.subrange(p5, p6) =~= lit_iat());
    assert(t.subrange(p6, p7) =~= dec_u(iat));
    assert(t[p7] == '}');

    assert(match_at(t, 0, lit_sub()));
    lemma_parse_jstr_esc(t, p0, Seq::empty(), sub);
    assert(Seq::<char>::empty() + sub =~= sub);
    assert(match_at(t, p1, lit_email()));
    lemma_parse_jstr_esc(t, p2, Seq::empty(), email);
    assert(Seq::<char>::empty() + email =~= email);
    assert(match_at(t, p3, lit_exp()));
    assert(!is_digit(t[p5]));
    lemma_parse_num_dec(t, p4, exp);
    assert(match_at(t, p5, lit_iat()));
    assert(!is_digit(t[p7]));
    lemma_parse_num_dec(t, p6, iat);
}

/// Hexadecimal digit character of a value below sixteen.
fn hex_of(d: u32) -> (c: char)
    requires
        d < 16,
    ensures
        c == hex_char(d as int),
{
    if d < 10 {
        crate::numerals::digit_of(d as u64)
    } else if d == 10 {
        'a'
    } else if d == 11 {
        'b'
    } else if d == 12 {
        'c'
    } else if d == 13 {
        'd'
    } else if d == 14 {
        'e'
    } else {
        'f'
    }
}

/// Appends the JSON escape of `s`.
fn push_escaped(out: &mut Vec<char>, s: &Vec<char>)
    ensures
        final(out)@ == old(out)@ + esc(s@),
{
    let n = s.len();
    let mut k: usize = 0;
    proof {
        assert(out@ =~= old(out)@ + esc(s@.take(0)));
    }
    while k < n
        invariant
            n == s@.len(),
            k <= n,
            out@ == old(out)@ + esc(s@.take(k as int)),
        decreases n - k,
    {
        let c = s[k];
        let u = c as u32;
        if c == '"' {
            out.push('\\');
            out.push('"');
        } else if c == '\\' {
            out.push('\\');
            out.push('\\');
        } else if u < 32 {
            out.push('\\');
            out.push('u');
            out.push('0');
            out.push('0');
            out.push(hex_of(u / 16));
            out.push(hex_of(u % 16));
        } else {
            out.push(c);
        }
        proof {
            lemma_esc_push(s@.take(k as int), s@[k as int]);
            assert(s@.take(k as int).push(s@[k as int]) =~= s@.take(k as int + 1));
            assert(out@ =~= old(out)@ + esc(s@.take(k as int + 1)));
        }
        k = k + 1;
    }
    proof {
        assert(s@.take(n as int) =~= s@);
    }
}

/// The canonical JSON text of the claims.
pub fn claims_to_text(c: &Claims) -> (r: Vec<char>)
    requires
        c.exp >= 0,
        c.iat >= 0,
    ensures
        r@ == claims_text(c@.sub, c@.email, c@.exp, c@.iat),
{
    let mut out: Vec<char> = Vec::new();
    out.push('{');
    out.push('"');
    out.push('s');
    out.push('u');
    out.push('b');
    out.push('"');
    out.push(':');
    out.push('"');
    proof {
        assert(out@ =~= lit_sub());
    }
    let subv = chars_of(c.sub.as_str());
    push_escaped(&mut out, &subv);
    out.push('"');
    out.push(',');
    out.push('"');
    out.push('e');
    out.push('m');
    out.push('a');
    out.push('i');
    out.push('l');
    out.push('"');
    out.push(':');
    out.push('"');
    proof {
        assert(out@ =~= lit_sub() + esc(c@.sub) + seq!['"'] + lit_email());
    }
    let emailv = chars_of(c.email.as_str());
    push_escaped(&mut out, &emailv);
    out.push('"');
    out.push(',');
    out.push('"');
    out.push('e');
    out.push('x');
    out.push('p');
    out.push('"');
    out.push(':');
    proof {
        assert(out@ =~= lit_sub() + esc(c@.sub) + seq!['"'] + lit_email() + esc(c@.email)
            + seq!['"'] + lit_exp());
    }
    push_dec(&mut out, c.exp as u64);
    out.push(',');
    out.push('"');
    out.push('i');
    out.push('a');
    out.push('t');
    out.push('"');
    out.push(':');
    push_dec(&mut out, c.iat as u64);
    out.push('}');
    proof {
        assert(out@ =~= claims_text(c@.sub, c@.email, c@.exp, c@.iat));
    }
    out
}

/// Whether `lit` stands at position `i` of `s`.
fn match_at_exec(s: &Vec<char>, i: usize, lit: &Vec<char>) -> (r: bool)
    ensures
        r == match_at(s@, i as int, lit@),
{
    let sl = s.len();
    let ll = lit.len();
    if i > sl || ll > sl - i {
        return false;
    }
    let mut k: usize = 0;
    while k < ll
        invariant
            i + ll <= sl,
            sl == s@.len(),
            ll == lit@.len(),
            k <= ll,
            forall|m: int| 0 <= m < k ==> s@[i + m] == lit@[m],
        decreases ll - k,
    {
        if s[i + k] != lit[k] {
            proof {
                assert(s@.subrange(i as int, i + ll) != lit@) by {
                    assert(s@.subrange(i as int, i + ll)[k as int] != lit@[k as int]);
                }
            }
            return false;
        }
        k = k + 1;
    }
    proof {
        assert(s@.subrange(i as int, i + ll) =~= lit@);
    }
    true
}

/// Reads a JSON string body at `start`, exactly as `parse_jstr` does.
fn parse_jstr_exec(s: &Vec<char>, start: usize) -> (r: Option<(Vec<char>, usize)>)
    requires
        start <= s@.len(),
    ensures
        match r {
            Some(p) => {
                &&& parse_jstr(s@, start as int, Seq::empty()) == Some((p.0@, p.1 as int))
                &&& start < p.1 <= s@.len()
            },
            None => parse_jstr(s@, start as int, Seq::empty()) is None,
        },
{
    let n = s.len();
    let mut i: usize = start;
    let mut acc: Vec<char> = Vec::new();
    loop
        invariant
            start <= i <= n,
            n == s@.len(),
            parse_jstr(s@, start as int, Seq::empty()) == parse_jstr(s@, i as int, acc@),
        decreases n - i,
    {
        if i >= n {
            return None;
        }
        let c = s[i];
        if c == '"' {
            return Some((acc, i + 1));
        }
        if c == '\\' {
            if n - i >= 2 && (s[i + 1] == '"' || s[i + 1] == '\\') {
                acc.push(s[i + 1]);
                i = i + 2;
            } else if n - i >= 6 && s[i + 1] == 'u' && s[i + 2] == '0' && s[i + 3] == '0' {
                let h = match hex_val_of(s[i + 4]) {
                    Some(v) => v,
                    None => return None,
                };
                let l = match hex_val_of(s[i + 5]) {
                    Some(v) => v,
                    None => return None,
                };
                let v = h * 16 + l;
                if v < 32 {
                    let decoded = (v as u8) as char;
                    proof {
                        assert(decoded == (v as u32) as char);
                    }
                    acc.push(decoded);
                    i = i + 6;
                } else {
                    return None;
                }
            } else {
                return None;
            }
        } else {
            acc.push(c);
            i = i + 1;
        }
    }
}

/// The value of a hexadecimal digit character.
fn hex_val_of(c: char) -> (r: Option<u32>)
    ensures
        match r {
            Some(v) => is_hex(c) && v == hex_val(c) && v < 16,
            None => !is_hex(c),
        },
{
    let u = c as u32;
    if 48 <= u && u <= 57 {
        Some(u - 48)
    } else if 97 <= u && u <= 102 {
        Some(u - 87)
    } else if 65 <= u && u <= 70 {
        Some(u - 55)
    } else {
        None
    }
}

/// Reads claims from their JSON text, exactly as `parse_claims_text` does.
pub fn parse_claims_exec(s: &Vec<char>) -> (r: Option<Claims>)
    ensures
        match r {
            Some(c) => parse_claims_text(s@) == Some(c@) && c.exp >= 0 && c.iat >= 0,
            None => parse_claims_text(s@) is None,
        },
{
    let slen = s.len();
    proof {
        assert(slen == s@.len());
    }
    let l_sub: Vec<char> = vec!['{', '"', 's', 'u', 'b', '"', ':', '"'];
    let l_email: Vec<char> = vec![',', '"', 'e', 'm', 'a', 'i', 'l', '"', ':', '"'];
    let l_exp: Vec<char> = vec![',', '"', 'e', 'x', 'p', '"', ':'];
    let l_iat: Vec<char> = vec![',', '"', 'i', 'a', 't', '"', ':'];
    proof {
        assert(l_sub@ =~= lit_sub());
        assert(l_email@ =~= lit_email());
        assert(l_exp@ =~= lit_exp());
        assert(l_iat@ =~= lit_iat());
    }
    if !match_at_exec(s, 0, &l_sub) {
        return None;
    }
    let (subv, i1) = match parse_jstr_exec(s, l_sub.len()) {
        Some(p) => p,
        None => return None,
    };
    if !match_at_exec(s, i1, &l_email) {
        return None;
    }
    proof {
        assert(i1 + l_email@.len() <= s@.len());
    }
    let (emailv, i2) = match parse_jstr_exec(s, i1 + l_email.len()) {
        Some(p) => p,
        None => return None,
    };
    if !match_at_exec(s, i2, &l_exp) {
        return None;
    }
    proof {
        assert(i2 + l_exp@.len() <= s@.len());
    }
    let (exp, i3) = match parse_num_exec(s, i2 + l_exp.len()) {
        Some(p) => p,
        None => return None,
    };
    if !match_at_exec(s, i3, &l_iat) {
        return None;
    }
    proof {
        assert(i3 + l_iat@.len() <= s@.len());
    }
    let (iat, i4) = match parse_num_exec(s, i3 + l_iat.len()) {
        Some(p) => p,
        None => return None,
    };
    if !(i4 < s.len() && i4 + 1 == s.len()) {
        return None;
    }
    if s[i4] != '}' {
        return None;
    }
    let c = Claims {
        sub: string_from_chars(&subv),
        email: string_from_chars(&emailv),
        exp,
        iat,
    };
    proof {
        assert(parse_claims_text(s@) == Some(c@));
    }
    Some(c)
}

} // verus!
