//! A verified JSON writer and reader for the crawler's own data: results,
//! statistics and checkpoints. The writer emits one canonical shape —
//! fixed key order, no extra whitespace, `null` for absent options — and the
//! reader accepts exactly what the writer emits, so that a stored snapshot
//! reads back as the same value.
use vstd::prelude::*;

use crate::text::{spec_dec, spec_dec_i64, i64_to_string, u64_to_string};
use crate::types::{CrawlStats, PageResult};

verus! {

/// Whether `c` is a decimal digit.
pub open spec fn is_digit(c: char) -> bool {
    48 <= c as u32 <= 57
}

/// The value of a decimal digit.
pub open spec fn digit_val(c: char) -> nat {
    (c as u32 - 48) as nat
}

/// The lower-case hex digit for `d` (below sixteen).
pub open spec fn hex_char(d: nat) -> char
    recommends
        d < 16,
{
    if d < 10 {
        ((d + 48) as u8) as char
    } else {
        ((d + 87) as u8) as char
    }
}

/// Whether `c` is a lower-case hex digit.
pub open spec fn is_hex(c: char) -> bool {
    is_digit(c) || (97 <= c as u32 <= 102)
}

/// The value of a lower-case hex digit.
pub open spec fn hex_val(c: char) -> nat {
    if is_digit(c) {
        digit_val(c)
    } else {
        (c as u32 - 87) as nat
    }
}

/// The escape of one character inside a JSON string: quote and backslash get
/// a backslash; control characters become `\u00XX`; all else stands as is.
pub open spec fn esc_char(c: char) -> Seq<char> {
    if c == '"' {
        seq!['\\', '"']
    } else if c == '\\' {
        seq!['\\', '\\']
    } else if (c as u32) < 32 {
        seq!['\\', 'u', '0', '0', hex_char((c as u32 / 16) as nat), hex_char(
            (c as u32 % 16) as nat,
        )]
    } else {
        seq![c]
    }
}

/// The escaped body of a JSON string.
pub open spec fn esc(s: Seq<char>) -> Seq<char>
    decreases s.len(),
{
    if s.len() == 0 {
        Seq::empty()
    } else {
        esc_char(s.first()) + esc(s.drop_first())
    }
}

/// A JSON string token: quote, escaped body, quote.
pub open spec fn spec_json_string(s: Seq<char>) -> Seq<char> {
    seq!['"'] + esc(s) + seq!['"']
}

/// Writes the escaped body of `s`.
fn escape(s: &str) -> (r: String)
    ensures
        r@ == esc(s@),
{
    let n = s.unicode_len();
    let mut r = String::new();
    let mut i: usize = 0;
    proof {
        assert(s@.skip(0) =~= s@);
        assert(esc(s@.take(0)) =~= Seq::<char>::empty());
    }
    while i < n
        invariant
            i <= n,
            n == s@.len(),
            r@ == esc(s@.take(i as int)),
        decreases n - i,
    {
        let c = s.get_char(i);
        let u = c as u32;
        if c == '"' {
            r.push('\\');
            r.push('"');
        } else if c == '\\' {
            r.push('\\');
            r.push('\\');
        } else if u < 32 {
            r.push('\\');
            r.push('u');
            r.push('0');
            r.push('0');
            let hi = u / 16;
            let lo = u % 16;
            r.push(
                if hi < 10 {
                    ((hi + 48) as u8) as char
                } else {
                    ((hi + 87) as u8) as char
                },
            );
            r.push(
                if lo < 10 {
                    ((lo + 48) as u8) as char
                } else {
                    ((lo + 87) as u8) as char
                },
            );
        } else {
            r.push(c);
        }
        proof {
            lemma_esc_take_step(s@, i as int);
        }
        i = i + 1;
    }
    proof {
        assert(s@.take(n as int) =~= s@);
    }
    r
}

/// Escaping one more character appends that character's escape.
proof fn lemma_esc_take_step(s: Seq<char>, i: int)
    requires
        0 <= i < s.len(),
    ensures
        esc(s.take(i + 1)) == esc(s.take(i)) + esc_char(s[i]),
    decreases i,
{
    if i == 0 {
        assert(s.take(1).first() == s[0]);
        assert(s.take(1).drop_first() =~= s.take(0));
        assert(esc(s.take(0)) =~= Seq::<char>::empty());
        assert(esc(s.take(1)) =~= Seq::<char>::empty() + esc_char(s[0]));
    } else {
        let t = s.drop_first();
        assert(s.take(i + 1).first() == s[0]);
        assert(s.take(i + 1).drop_first() =~= t.take(i));
        assert(s.take(i).first() == s[0]);
        assert(s.take(i).drop_first() =~= t.take(i - 1));
        lemma_esc_take_step(t, i - 1);
        assert(t[i - 1] == s[i]);
        assert(esc(s.take(i + 1)) == esc_char(s[0]) + esc(t.take(i)));
        assert(esc(s.take(i)) == esc_char(s[0]) + esc(t.take(i - 1)));
        assert(esc_char(s[0]) + (esc(t.take(i - 1)) + esc_char(s[i])) =~= (esc_char(s[0]) + esc(
            t.take(i - 1),
        )) + esc_char(s[i]));
    }
}

/// Writes `s` as a JSON string token.
pub fn write_json_string(out: &mut String, s: &str)
    ensures
        final(out)@ == old(out)@ + spec_json_string(s@),
{
    out.push('"');
    let e = escape(s);
    out.append(e.as_str());
    out.push('"');
    proof {
        assert(final(out)@ =~= old(out)@ + spec_json_string(s@));
    }
}

/// Reads the body of a JSON string up to its closing quote: the decoded
/// characters and the count of input characters consumed (closing quote
/// included). Accepts exactly what `esc` emits.
pub open spec fn spec_pchars(s: Seq<char>) -> Option<(Seq<char>, nat)>
    decreases s.len(),
{
    if s.len() == 0 {
        None
    } else if s.first() == '"' {
        Some((Seq::empty(), 1nat))
    } else if s.first() == '\\' {
        if s.len() >= 2 && (s[1] == '"' || s[1] == '\\') {
            match spec_pchars(s.skip(2)) {
                Some((v, u)) => Some((seq![s[1]] + v, u + 2)),
                None => None,
            }
        } else if s.len() >= 6 && s[1] == 'u' && s[2] == '0' && s[3] == '0' && is_hex(s[4])
            && is_hex(s[5]) && hex_val(s[4]) * 16 + hex_val(s[5]) < 32 {
            match spec_pchars(s.skip(6)) {
                Some((v, u)) => Some(
                    (seq![((hex_val(s[4]) * 16 + hex_val(s[5])) as u8) as char] + v, u + 6),
                ),
                None => None,
            }
        } else {
            None
        }
    } else if (s.first() as u32) < 32 {
        None
    } else {
        match spec_pchars(s.skip(1)) {
            Some((v, u)) => Some((seq![s.first()] + v, u + 1)),
            None => None,
        }
    }
}

/// Reads a JSON string token: the decoded value and the characters consumed.
pub open spec fn spec_parse_string(s: Seq<char>) -> Option<(Seq<char>, nat)> {
    if s.len() > 0 && s.first() == '"' {
        match spec_pchars(s.skip(1)) {
            Some((v, u)) => Some((v, u + 1)),
            None => None,
        }
    } else {
        None
    }
}

/// What the reader consumes never exceeds the input.
proof fn lemma_pchars_len(s: Seq<char>)
    ensures
        spec_pchars(s) matches Some((v, u)) ==> u <= s.len(),
    decreases s.len(),
{
    if s.len() == 0 {
    } else if s.first() == '"' {
    } else if s.first() == '\\' {
        if s.len() >= 2 && (s[1] == '"' || s[1] == '\\') {
            lemma_pchars_len(s.skip(2));
        } else if s.len() >= 6 && s[1] == 'u' && s[2] == '0' && s[3] == '0' && is_hex(s[4])
            && is_hex(s[5]) && hex_val(s[4]) * 16 + hex_val(s[5]) < 32 {
            lemma_pchars_len(s.skip(6));
        }
    } else {
        lemma_pchars_len(s.skip(1));
    }
}

/// Reading back what `esc` wrote yields the original characters: the string
/// body reader inverts the escape exactly, whatever follows the closing
/// quote.
pub proof fn lemma_pchars_complete(x: Seq<char>, rest: Seq<char>)
    ensures
        spec_pchars(esc(x) + seq!['"'] + rest) == Some((x, (esc(x).len() + 1) as nat)),
    decreases x.len(),
{
    let s = esc(x) + seq!['"'] + rest;
    if x.len() == 0 {
        assert(esc(x) =~= Seq::<char>::empty());
        assert(s =~= seq!['"'] + rest);
        assert(s.first() == '"');
    } else {
        let c = x.first();
        let xt = x.drop_first();
        assert(esc(x) == esc_char(c) + esc(xt));
        lemma_pchars_complete(xt, rest);
        let st = esc(xt) + seq!['"'] + rest;
        if c == '"' {
            assert(s =~= seq!['\\', '"'] + st);
            assert(s.first() == '\\' && s[1] == '"');
            assert(s.skip(2) =~= st);
            assert(seq![s[1]] + xt =~= x);
        } else if c == '\\' {
            assert(s =~= seq!['\\', '\\'] + st);
            assert(s.first() == '\\' && s[1] == '\\');
            assert(s.skip(2) =~= st);
            assert(seq![s[1]] + xt =~= x);
        } else if (c as u32) < 32 {
            let hi = (c as u32 / 16) as nat;
            let lo = (c as u32 % 16) as nat;
            assert(s =~= seq!['\\', 'u', '0', '0', hex_char(hi), hex_char(lo)] + st);
            lemma_hex_char_val(hi);
            lemma_hex_char_val(lo);
            assert(s[4] == hex_char(hi) && s[5] == hex_char(lo));
            assert(hex_val(s[4]) * 16 + hex_val(s[5]) == c as u32);
            assert(s.skip(6) =~= st);
            assert(hi * 16 + lo == c as u32) by {
                assert(c as u32 / 16 * 16 + c as u32 % 16 == c as u32) by (nonlinear_arith);
            }
            assert((c as u32) < 32);
            assert(((c as u32) as u8) as u32 == c as u32);
            let c2 = ((c as u32) as u8) as char;
            assert(c2 as u32 == c as u32);
            vstd::utf8::char_u32_cast(c, c as u32);
            vstd::utf8::char_u32_cast(c2, c2 as u32);
            assert((((c as u32)) as u8) as char == c);
            assert(seq![((hex_val(s[4]) * 16 + hex_val(s[5])) as u8) as char] + xt =~= x);
        } else {
            assert(s =~= seq![c] + st);
            assert(s.first() == c);
            assert(s.skip(1) =~= st);
            assert(seq![c] + xt =~= x);
        }
    }
}

/// A hex digit written by `hex_char` reads back as its value.
proof fn lemma_hex_char_val(d: nat)
    requires
        d < 16,
    ensures
        is_hex(hex_char(d)),
        hex_val(hex_char(d)) == d,
        hex_char(d) != '"' && hex_char(d) != '\\',
{
}

/// Reads a JSON string starting at `pos`; mirrors `spec_parse_string` on the
/// remaining input.
pub fn parse_string(cs: &Vec<char>, pos: usize) -> (r: Option<(String, usize)>)
    requires
        pos <= cs@.len(),
    ensures
        match spec_parse_string(cs@.skip(pos as int)) {
            Some((v, u)) => r matches Some((s, np)) && s@ == v && np == pos + u && np <= cs@.len(),
            None => r is None,
        },
{
    if pos < cs.len() && cs[pos] == '"' {
        proof {
            assert(cs@.skip(pos as int).first() == cs@[pos as int]);
            assert(cs@.skip(pos as int).skip(1) =~= cs@.skip(pos + 1));
        }
        match parse_chars(cs, pos + 1) {
            Some((s, np)) => Some((s, np)),
            None => None,
        }
    } else {
        proof {
            if pos < cs@.len() {
                assert(cs@.skip(pos as int).first() == cs@[pos as int]);
            }
        }
        None
    }
}

/// Reads a string body from `pos` to its closing quote; mirrors
/// `spec_pchars` on the remaining input (the returned position counts from
/// the start of the buffer).
fn parse_chars(cs: &Vec<char>, pos: usize) -> (r: Option<(String, usize)>)
    requires
        pos <= cs@.len(),
    ensures
        match spec_pchars(cs@.skip(pos as int)) {
            Some((v, u)) => r matches Some((s, np)) && s@ == v && np == pos + u && np <= cs@.len(),
            None => r is None,
        },
    decreases cs@.len() - pos,
{
    let ghost tail = cs@.skip(pos as int);
    if pos >= cs.len() {
        return None;
    }
    proof {
        assert(tail.first() == cs@[pos as int]);
        assert(tail.len() == cs@.len() - pos);
        assert(forall|k: int| 0 <= k < tail.len() ==> tail[k] == cs@[pos + k]);
    }
    let c = cs[pos];
    if c == '"' {
        proof {
            lemma_pchars_len(tail);
        }
        Some((String::new(), pos + 1))
    } else if c == '\\' {
        if cs.len() - pos >= 2 && (cs[pos + 1] == '"' || cs[pos + 1] == '\\') {
            proof {
                assert(tail.skip(2) =~= cs@.skip(pos + 2));
            }
            match parse_chars(cs, pos + 2) {
                Some((s, np)) => {
                    let mut out = String::new();
                    out.push(cs[pos + 1]);
                    out.append(s.as_str());
                    proof {
                        assert(out@ =~= seq![tail[1]] + s@);
                    }
                    Some((out, np))
                },
                None => None,
            }
        } else if cs.len() - pos >= 6 && cs[pos + 1] == 'u' && cs[pos + 2] == '0' && cs[pos + 3]
            == '0' && hex_digit_val(cs[pos + 4]).is_some() && hex_digit_val(
            cs[pos + 5],
        ).is_some() {
            let hi = hex_digit_val(cs[pos + 4]).unwrap();
            let lo = hex_digit_val(cs[pos + 5]).unwrap();
            let code = hi * 16 + lo;
            if code < 32 {
                proof {
                    assert(tail.skip(6) =~= cs@.skip(pos + 6));
                }
                match parse_chars(cs, pos + 6) {
                    Some((s, np)) => {
                        let mut out = String::new();
                        out.push((code as u8) as char);
                        out.append(s.as_str());
                        proof {
                            assert(out@ =~= seq![((hex_val(tail[4]) * 16 + hex_val(tail[5])) as u8) as char]
                                + s@);
                        }
                        Some((out, np))
                    },
                    None => None,
                }
            } else {
                None
            }
        } else {
            None
        }
    } else if (c as u32) < 32 {
        None
    } else {
        proof {
            assert(tail.skip(1) =~= cs@.skip(pos + 1));
        }
        match parse_chars(cs, pos + 1) {
            Some((s, np)) => {
                let mut out = String::new();
                out.push(c);
                out.append(s.as_str());
                proof {
                    assert(out@ =~= seq![tail.first()] + s@);
                }
                Some((out, np))
            },
            None => None,
        }
    }
}

/// The value of a lower-case hex digit character, if it is one.
fn hex_digit_val(c: char) -> (r: Option<u32>)
    ensures
        r matches Some(v) ==> is_hex(c) && v == hex_val(c) && v < 16,
        r is None ==> !is_hex(c),
{
    let u = c as u32;
    if 48 <= u && u <= 57 {
        Some(u - 48)
    } else if 97 <= u && u <= 102 {
        Some(u - 87)
    } else {
        None
    }
}

/// The length of the digit run at the start of the input.
pub open spec fn spec_take_digits(s: Seq<char>) -> nat
    decreases s.len(),
{
    if s.len() > 0 && is_digit(s.first()) {
        1 + spec_take_digits(s.drop_first())
    } else {
        0
    }
}

/// The number a digit run denotes.
pub open spec fn digits_val(ds: Seq<char>) -> nat
    decreases ds.len(),
{
    if ds.len() == 0 {
        0
    } else {
        digits_val(ds.drop_last()) * 10 + digit_val(ds.last())
    }
}

/// Reads an unsigned decimal number: its value and the digits consumed.
/// A run that exceeds the 64-bit range reads as nothing.
pub open spec fn spec_parse_u64(s: Seq<char>) -> Option<(u64, nat)> {
    let n = spec_take_digits(s);
    if n == 0 {
        None
    } else if digits_val(s.take(n as int)) <= u64::MAX {
        Some((digits_val(s.take(n as int)) as u64, n))
    } else {
        None
    }
}

/// Reads a signed decimal number: an optional minus sign, then digits.
pub open spec fn spec_parse_i64(s: Seq<char>) -> Option<(i64, nat)> {
    if s.len() > 0 && s.first() == '-' {
        match spec_parse_u64(s.skip(1)) {
            Some((v, u)) => if v <= 9223372036854775808u64 {
                Some(((-(v as int)) as i64, u + 1))
            } else {
                None
            },
            None => None,
        }
    } else {
        match spec_parse_u64(s) {
            Some((v, u)) => if v <= 9223372036854775807u64 {
                Some((v as i64, u))
            } else {
                None
            },
            None => None,
        }
    }
}

/// The digit run of a decimal rendering is the whole rendering.
proof fn lemma_dec_all_digits(n: nat)
    ensures
        spec_dec(n).len() >= 1,
        forall|k: int| 0 <= k < spec_dec(n).len() ==> is_digit(#[trigger] spec_dec(n)[k]),
    decreases n,
{
    if n < 10 {
        assert(spec_dec(n) == seq![crate::text::spec_digit(n)]);
        assert(is_digit(spec_dec(n)[0]));
    } else {
        lemma_dec_all_digits(n / 10);
        assert(spec_dec(n) == spec_dec(n / 10).push(crate::text::spec_digit(n % 10)));
        assert(is_digit(crate::text::spec_digit(n % 10)));
        assert(forall|k: int|
            0 <= k < spec_dec(n).len() - 1 ==> spec_dec(n)[k] == spec_dec(n / 10)[k]);
    }
}

/// A digit run of length `m` followed by a non-digit is measured exactly.
proof fn lemma_take_digits_eq(s: Seq<char>, m: int)
    requires
        0 <= m <= s.len(),
        forall|k: int| 0 <= k < m ==> is_digit(#[trigger] s[k]),
        m == s.len() || !is_digit(s[m]),
    ensures
        spec_take_digits(s) == m,
    decreases m,
{
    if m == 0 {
    } else {
        let t = s.drop_first();
        assert(is_digit(s.first()));
        assert(forall|k: int| 0 <= k < m - 1 ==> t[k] == s[k + 1]);
        lemma_take_digits_eq(t, m - 1);
    }
}

/// The decimal rendering of a number reads back as that number.
proof fn lemma_digits_val_dec(n: nat)
    ensures
        digits_val(spec_dec(n)) == n,
    decreases n,
{
    assert(crate::text::spec_digit(n % 10) as u32 == n % 10 + 48);
    if n < 10 {
        let ds = spec_dec(n);
        assert(ds == seq![crate::text::spec_digit(n)]);
        assert(ds.drop_last() =~= Seq::<char>::empty());
        assert(n % 10 == n) by (nonlinear_arith)
            requires
                n < 10,
        ;
        assert(crate::text::spec_digit(n) as u32 == n + 48);
        assert(digit_val(ds.last()) == n);
        assert(digits_val(ds) == digits_val(ds.drop_last()) * 10 + digit_val(ds.last()));
        assert(digits_val(Seq::<char>::empty()) == 0);
    } else {
        lemma_digits_val_dec(n / 10);
        let ds = spec_dec(n);
        assert(ds == spec_dec(n / 10).push(crate::text::spec_digit(n % 10)));
        assert(ds.drop_last() =~= spec_dec(n / 10));
        assert(ds.last() == crate::text::spec_digit(n % 10));
        assert(digit_val(ds.last()) == n % 10);
        assert(digit_val(ds.last()) == n % 10);
        assert(digits_val(ds) == (n / 10) * 10 + n % 10);
        vstd::arithmetic::div_mod::lemma_fundamental_div_mod(
            n as int,
            10,
        );
        assert((n / 10) * 10 + n % 10 == n);
    }
}

/// Reading a written unsigned number back, with anything non-numeric after
/// it, yields the number and stops at its end.
pub proof fn lemma_parse_u64_complete(n: u64, rest: Seq<char>)
    requires
        rest.len() == 0 || !is_digit(rest.first()),
    ensures
        spec_parse_u64(spec_dec(n as nat) + rest) == Some((n, spec_dec(n as nat).len())),
{
    let ds = spec_dec(n as nat);
    let s = ds + rest;
    lemma_dec_all_digits(n as nat);
    assert(forall|k: int| 0 <= k < ds.len() ==> s[k] == ds[k]);
    if rest.len() > 0 {
        assert(s[ds.len() as int] == rest.first());
    }
    lemma_take_digits_eq(s, ds.len() as int);
    assert(s.take(ds.len() as int) =~= ds);
    lemma_digits_val_dec(n as nat);
}

/// Reading a written signed number back, with anything non-numeric after
/// it, yields the number and stops at its end.
pub proof fn lemma_parse_i64_complete(n: i64, rest: Seq<char>)
    requires
        rest.len() == 0 || !is_digit(rest.first()),
    ensures
        spec_parse_i64(spec_dec_i64(n as int) + rest) == Some((n, spec_dec_i64(n as int).len())),
{
    if n < 0 {
        let m = (-(n as int)) as nat;
        let ds = spec_dec(m);
        let s = spec_dec_i64(n as int) + rest;
        assert(spec_dec_i64(n as int) == seq!['-'] + ds);
        assert(s =~= seq!['-'] + (ds + rest));
        assert(s.first() == '-');
        assert(s.skip(1) =~= ds + rest);
        lemma_dec_all_digits(m);
        assert(!is_digit('-'));
        let mu = if m <= u64::MAX {
            m as u64
        } else {
            0u64
        };
        assert(m <= 9223372036854775808);
        lemma_parse_u64_complete(mu, rest);
    } else {
        lemma_parse_u64_complete(n as u64, rest);
        assert(spec_dec_i64(n as int) == spec_dec(n as nat));
    }
}

/// Reads an unsigned decimal number starting at `pos`; mirrors
/// `spec_parse_u64` on the remaining input.
pub fn parse_u64(cs: &Vec<char>, pos: usize) -> (r: Option<(u64, usize)>)
    requires
        pos <= cs@.len(),
    ensures
        match spec_parse_u64(cs@.skip(pos as int)) {
            Some((v, u)) => r matches Some((w, np)) && w == v && np == pos + u && np <= cs@.len(),
            None => r is None,
        },
{
    let ghost tail = cs@.skip(pos as int);
    proof {
        assert(forall|k: int| 0 <= k < tail.len() ==> tail[k] == cs@[pos + k]);
    }
    let mut i: usize = pos;
    let mut v: u64 = 0;
    let mut over: bool = false;
    while i < cs.len() && 48 <= cs[i] as u32 && cs[i] as u32 <= 57
        invariant
            pos <= i <= cs@.len(),
            tail == cs@.skip(pos as int),
            forall|k: int| 0 <= k < tail.len() ==> tail[k] == cs@[pos + k],
            forall|k: int| 0 <= k < i - pos ==> is_digit(#[trigger] tail[k]),
            !over ==> v == digits_val(tail.take(i - pos)),
            over ==> digits_val(tail.take(i - pos)) > u64::MAX,
        decreases cs@.len() - i,
    {
        let d = (cs[i] as u32 - 48) as u64;
        proof {
            assert(is_digit(tail[i - pos]));
            assert(tail.take(i - pos + 1).drop_last() =~= tail.take(i - pos));
            assert(tail.take(i - pos + 1).last() == tail[i - pos]);
            assert(digit_val(tail[i - pos]) == d);
        }
        let w: u128 = (v as u128) * 10 + (d as u128);
        if over || w > u64::MAX as u128 {
            proof {
                let prev = digits_val(tail.take(i - pos));
                assert(digits_val(tail.take(i - pos + 1)) == prev * 10 + d);
                if over {
                    assert(prev > u64::MAX);
                    assert(prev * 10 + d > u64::MAX) by (nonlinear_arith)
                        requires
                            prev > u64::MAX,
                            d >= 0,
                    ;
                }
            }
            over = true;
        } else {
            v = w as u64;
        }
        i = i + 1;
    }
    proof {
        if i < cs@.len() {
            assert(!is_digit(tail[i - pos]));
        }
        lemma_take_digits_eq(tail, i - pos);
    }
    if i == pos {
        return None;
    }
    if over {
        return None;
    }
    Some((v, i))
}

/// Reads a signed decimal number starting at `pos`; mirrors
/// `spec_parse_i64` on the remaining input.
pub fn parse_i64(cs: &Vec<char>, pos: usize) -> (r: Option<(i64, usize)>)
    requires
        pos <= cs@.len(),
    ensures
        match spec_parse_i64(cs@.skip(pos as int)) {
            Some((v, u)) => r matches Some((w, np)) && w == v && np == pos + u && np <= cs@.len(),
            None => r is None,
        },
{
    let ghost tail = cs@.skip(pos as int);
    if pos < cs.len() && cs[pos] == '-' {
        proof {
            assert(tail.first() == cs@[pos as int]);
            assert(tail.skip(1) =~= cs@.skip(pos + 1));
        }
        match parse_u64(cs, pos + 1) {
            Some((v, np)) => {
                if v <= 9223372036854775808u64 {
                    let w: i64 = if v == 9223372036854775808u64 {
                        i64::MIN
                    } else {
                        -(v as i64)
                    };
                    Some((w, np))
                } else {
                    None
                }
            },
            None => None,
        }
    } else {
        proof {
            if pos < cs@.len() {
                assert(tail.first() == cs@[pos as int]);
            }
        }
        match parse_u64(cs, pos) {
            Some((v, np)) => {
                if v <= 9223372036854775807u64 {
                    Some((v as i64, np))
                } else {
                    None
                }
            },
            None => None,
        }
    }
}

/// Whether the input begins with the given literal text.
pub open spec fn spec_match_lit(s: Seq<char>, lit: Seq<char>) -> bool {
    s.len() >= lit.len() && s.take(lit.len() as int) == lit
}

/// Checks that the input at `pos` begins with `lit`, returning the position
/// just after it.
pub fn match_lit(cs: &Vec<char>, pos: usize, lit: &str) -> (r: Option<usize>)
    requires
        pos <= cs@.len(),
    ensures
        r matches Some(np) ==> spec_match_lit(cs@.skip(pos as int), lit@) && np == pos + lit@.len()
            && np <= cs@.len(),
        r is None ==> !spec_match_lit(cs@.skip(pos as int), lit@),
{
    let ghost tail = cs@.skip(pos as int);
    let n = lit.unicode_len();
    if cs.len() - pos < n {
        proof {
            assert(tail.len() < lit@.len());
        }
        return None;
    }
    let mut i: usize = 0;
    while i < n
        invariant
            0 <= i <= n,
            n == lit@.len(),
            pos + n <= cs@.len(),
            cs@.len() <= usize::MAX,
            tail == cs@.skip(pos as int),
            forall|k: int| 0 <= k < i ==> tail[k] == lit@[k],
        decreases n - i,
    {
        let c = lit.get_char(i);
        proof {
            assert(tail[i as int] == cs@[pos + i]);
        }
        if cs[pos + i] != c {
            proof {
                if spec_match_lit(tail, lit@) {
                    assert(tail.take(lit@.len() as int)[i as int] == tail[i as int]);
                }
            }
            return None;
        }
        i = i + 1;
    }
    proof {
        assert(tail.take(lit@.len() as int) =~= lit@);
    }
    Some(pos + n)
}

/// A literal followed by anything begins with that literal.
pub proof fn lemma_match_lit_complete(lit: Seq<char>, rest: Seq<char>)
    ensures
        spec_match_lit(lit + rest, lit),
        (lit + rest).skip(lit.len() as int) == rest,
{
    assert((lit + rest).take(lit.len() as int) =~= lit);
    assert((lit + rest).skip(lit.len() as int) =~= rest);
}

/// The characters of a string, as a vector.
pub fn str_to_chars(s: &str) -> (r: Vec<char>)
    ensures
        r@ == s@,
{
    let n = s.unicode_len();
    let mut r: Vec<char> = Vec::new();
    let mut i: usize = 0;
    while i < n
        invariant
            i <= n,
            n == s@.len(),
            r@ =~= s@.take(i as int),
        decreases n - i,
    {
        r.push(s.get_char(i));
        proof {
            assert(r@ =~= s@.take(i + 1));
        }
        i = i + 1;
    }
    proof {
        assert(s@.take(n as int) =~= s@);
    }
    r
}

/// The JSON text of a string list: the strings, comma-separated, in
/// brackets.
pub open spec fn spec_encode_str_items(xs: Seq<Seq<char>>) -> Seq<char>
    decreases xs.len(),
{
    if xs.len() == 0 {
        Seq::empty()
    } else if xs.len() == 1 {
        spec_json_string(xs.first())
    } else {
        spec_json_string(xs.first()) + seq![','] + spec_encode_str_items(xs.drop_first())
    }
}

/// A JSON array of strings.
pub open spec fn spec_encode_str_arr(xs: Seq<Seq<char>>) -> Seq<char> {
    seq!['['] + spec_encode_str_items(xs) + seq![']']
}

/// Writes a JSON array of strings.
pub fn write_str_arr(out: &mut String, xs: &Vec<String>)
    ensures
        final(out)@ == old(out)@ + spec_encode_str_arr(xs.deep_view()),
{
    out.push('[');
    let ghost xv = xs.deep_view();
    let mut i: usize = 0;
    proof {
        assert(spec_encode_str_items(xv.take(0)) =~= Seq::<char>::empty());
        assert(out@ =~= old(out)@ + seq!['['] + spec_encode_str_items(xv.take(0)));
    }
    while i < xs.len()
        invariant
            i <= xs.len(),
            xv == xs.deep_view(),
            xv.len() == xs@.len(),
            out@ == old(out)@ + seq!['['] + spec_encode_str_items(xv.take(i as int)),
        decreases xs.len() - i,
    {
        if i > 0 {
            out.push(',');
        }
        write_json_string(out, xs[i].as_str());
        proof {
            assert(xv.take(i + 1).drop_last() =~= xv.take(i as int));
            assert(xv.take(i + 1).last() == xv[i as int]);
            lemma_items_snoc(xv.take(i as int), xv[i as int]);
            assert(xv.take(i as int).push(xv[i as int]) =~= xv.take(i + 1));
            assert(out@ =~= old(out)@ + seq!['['] + spec_encode_str_items(xv.take(i + 1)));
        }
        i = i + 1;
    }
    out.push(']');
    proof {
        assert(xv.take(xv.len() as int) =~= xv);
        assert(final(out)@ =~= old(out)@ + spec_encode_str_arr(xv));
    }
}

/// Appending one string to a list appends its token (with a comma when the
/// list was not empty) to the list's text.
proof fn lemma_items_snoc(xs: Seq<Seq<char>>, x: Seq<char>)
    ensures
        spec_encode_str_items(xs.push(x)) == if xs.len() == 0 {
            spec_json_string(x)
        } else {
            spec_encode_str_items(xs) + seq![','] + spec_json_string(x)
        },
    decreases xs.len(),
{
    let s = xs.push(x);
    if xs.len() == 0 {
        assert(s.len() == 1);
        assert(s.first() == x);
    } else {
        assert(s.first() == xs.first());
        assert(s.drop_first() =~= xs.drop_first().push(x));
        lemma_items_snoc(xs.drop_first(), x);
        if xs.len() == 1 {
            assert(xs.drop_first().len() == 0);
            assert(spec_encode_str_items(s) == spec_json_string(s.first()) + seq![',']
                + spec_encode_str_items(s.drop_first()));
            assert(spec_encode_str_items(s.drop_first()) == spec_json_string(x));
            assert(spec_encode_str_items(xs) == spec_json_string(xs.first()));
        } else {
            assert(spec_encode_str_items(s) == spec_json_string(s.first()) + seq![',']
                + spec_encode_str_items(s.drop_first()));
            assert(spec_encode_str_items(xs) == spec_json_string(xs.first()) + seq![',']
                + spec_encode_str_items(xs.drop_first()));
            assert(spec_json_string(xs.first()) + seq![','] + (spec_encode_str_items(
                xs.drop_first(),
            ) + seq![','] + spec_json_string(x)) =~= (spec_json_string(xs.first()) + seq![',']
                + spec_encode_str_items(xs.drop_first())) + seq![','] + spec_json_string(x));
        }
    }
}

/// Reads the items of a string array after its opening bracket, up to and
/// including the closing bracket.
pub open spec fn spec_parse_str_items(s: Seq<char>) -> Option<(Seq<Seq<char>>, nat)>
    decreases s.len(),
{
    match spec_parse_string(s) {
        None => None,
        Some((v, u)) => if u >= 1 && s.len() > u && s[u as int] == ',' {
            match spec_parse_str_items(s.skip(u as int + 1)) {
                Some((vs, u2)) => Some((seq![v] + vs, u + 1 + u2)),
                None => None,
            }
        } else if s.len() > u && s[u as int] == ']' {
            Some((seq![v], u + 1))
        } else {
            None
        },
    }
}

/// Reads a JSON array of strings: the values and the characters consumed.
pub open spec fn spec_parse_str_arr(s: Seq<char>) -> Option<(Seq<Seq<char>>, nat)> {
    if s.len() >= 2 && s[0] == '[' && s[1] == ']' {
        Some((Seq::empty(), 2nat))
    } else if s.len() >= 1 && s[0] == '[' {
        match spec_parse_str_items(s.skip(1)) {
            Some((vs, u)) => Some((vs, u + 1)),
            None => None,
        }
    } else {
        None
    }
}

/// A string token never reads as nothing and never reads zero characters.
proof fn lemma_parse_string_complete(x: Seq<char>, rest: Seq<char>)
    ensures
        spec_parse_string(spec_json_string(x) + rest) == Some(
            (x, spec_json_string(x).len() as nat),
        ),
        spec_json_string(x).len() >= 2,
{
    let s = spec_json_string(x) + rest;
    assert(s.first() == '"');
    assert(s.skip(1) =~= esc(x) + seq!['"'] + rest);
    lemma_pchars_complete(x, rest);
}

/// Reading back a written string list yields the original strings.
proof fn lemma_parse_str_items_complete(xs: Seq<Seq<char>>, rest: Seq<char>)
    requires
        xs.len() >= 1,
    ensures
        spec_parse_str_items(spec_encode_str_items(xs) + seq![']'] + rest) == Some(
            (xs, (spec_encode_str_items(xs).len() + 1) as nat),
        ),
    decreases xs.len(),
{
    let enc = spec_encode_str_items(xs);
    let s = enc + seq![']'] + rest;
    if xs.len() == 1 {
        assert(enc == spec_json_string(xs.first()));
        assert(s =~= spec_json_string(xs.first()) + (seq![']'] + rest));
        lemma_parse_string_complete(xs.first(), seq![']'] + rest);
        let u = spec_json_string(xs.first()).len() as nat;
        assert(s[u as int] == ']');
        assert(seq![xs.first()] =~= xs);
    } else {
        let x0 = xs.first();
        let xt = xs.drop_first();
        assert(enc == spec_json_string(x0) + seq![','] + spec_encode_str_items(xt));
        let tail_enc = spec_encode_str_items(xt) + seq![']'] + rest;
        assert(s =~= spec_json_string(x0) + (seq![','] + tail_enc));
        lemma_parse_string_complete(x0, seq![','] + tail_enc);
        let u = spec_json_string(x0).len() as nat;
        assert(s[u as int] == ',');
        assert(s.skip(u as int + 1) =~= tail_enc);
        lemma_parse_str_items_complete(xt, rest);
        assert(seq![x0] + xt =~= xs);
    }
}

/// Reading back a written string array yields the original strings.
pub proof fn lemma_parse_str_arr_complete(xs: Seq<Seq<char>>, rest: Seq<char>)
    ensures
        spec_parse_str_arr(spec_encode_str_arr(xs) + rest) == Some(
            (xs, spec_encode_str_arr(xs).len() as nat),
        ),
{
    let enc = spec_encode_str_arr(xs);
    let s = enc + rest;
    assert(s[0] == '[');
    if xs.len() == 0 {
        assert(spec_encode_str_items(xs) =~= Seq::<char>::empty());
        assert(enc =~= seq!['[', ']']);
        assert(s[1] == ']');
        assert(xs =~= Seq::<Seq<char>>::empty());
    } else {
        lemma_parse_str_items_complete(xs, rest);
        assert(s.skip(1) =~= spec_encode_str_items(xs) + seq![']'] + rest);
        lemma_parse_string_complete(xs.first(), Seq::empty());
        assert(spec_encode_str_items(xs).len() >= 2) by {
            if xs.len() == 1 {
            } else {
            }
        }
        assert(s[1] != ']') by {
            assert(spec_encode_str_items(xs).first() == '"');
            assert(s[1] == spec_encode_str_items(xs).first());
        }
    }
}

/// Reads the items of a string array starting at `pos` (after the opening
/// bracket); mirrors `spec_parse_str_items`.
fn parse_str_items(cs: &Vec<char>, pos: usize) -> (r: Option<(Vec<String>, usize)>)
    requires
        pos <= cs@.len(),
    ensures
        match spec_parse_str_items(cs@.skip(pos as int)) {
            Some((vs, u)) => r matches Some((xs, np)) && xs.deep_view() == vs && np == pos + u
                && np <= cs@.len(),
            None => r is None,
        },
    decreases cs@.len() - pos,
{
    let ghost tail = cs@.skip(pos as int);
    match parse_string(cs, pos) {
        None => None,
        Some((v, np)) => {
            proof {
                assert(forall|k: int| 0 <= k < tail.len() ==> tail[k] == cs@[pos + k]);
            }
            if np < cs.len() && cs[np] == ',' {
                proof {
                    assert(tail[(np - pos) as int] == ',');
                    assert(tail.skip(np - pos + 1) =~= cs@.skip(np + 1));
                }
                match parse_str_items(cs, np + 1) {
                    Some((mut xs, np2)) => {
                        xs.insert(0, v);
                        proof {
                            assert(xs.deep_view() =~= seq![v@] + xs.deep_view().skip(1));
                            assert(xs.deep_view().skip(1)
                                =~= spec_parse_str_items(tail.skip(np - pos + 1)).unwrap().0);
                        }
                        Some((xs, np2))
                    },
                    None => None,
                }
            } else if np < cs.len() && cs[np] == ']' {
                proof {
                    assert(tail[(np - pos) as int] == ']');
                }
                let mut xs: Vec<String> = Vec::new();
                xs.push(v);
                proof {
                    assert(xs.deep_view() =~= seq![v@]);
                }
                Some((xs, np + 1))
            } else {
                None
            }
        },
    }
}

/// Reads a JSON array of strings starting at `pos`; mirrors
/// `spec_parse_str_arr`.
pub fn parse_str_arr(cs: &Vec<char>, pos: usize) -> (r: Option<(Vec<String>, usize)>)
    requires
        pos <= cs@.len(),
    ensures
        match spec_parse_str_arr(cs@.skip(pos as int)) {
            Some((vs, u)) => r matches Some((xs, np)) && xs.deep_view() == vs && np == pos + u
                && np <= cs@.len(),
            None => r is None,
        },
{
    let ghost tail = cs@.skip(pos as int);
    proof {
        assert(forall|k: int| 0 <= k < tail.len() ==> tail[k] == cs@[pos + k]);
    }
    if cs.len() - pos >= 2 && cs[pos] == '[' && cs[pos + 1] == ']' {
        let xs: Vec<String> = Vec::new();
        proof {
            assert(xs.deep_view() =~= Seq::<Seq<char>>::empty());
        }
        Some((xs, pos + 2))
    } else if pos < cs.len() && cs[pos] == '[' {
        proof {
            assert(tail.skip(1) =~= cs@.skip(pos + 1));
        }
        match parse_str_items(cs, pos + 1) {
            Some((xs, np)) => Some((xs, np)),
            None => None,
        }
    } else {
        None
    }
}

/// `null`, or a JSON string.
pub open spec fn spec_encode_opt_str(o: Option<Seq<char>>) -> Seq<char> {
    match o {
        None => "null"@,
        Some(s) => spec_json_string(s),
    }
}

/// `null`, or a decimal number.
pub open spec fn spec_encode_opt_i64(o: Option<i64>) -> Seq<char> {
    match o {
        None => "null"@,
        Some(v) => spec_dec_i64(v as int),
    }
}

/// `null`, or a decimal number.
pub open spec fn spec_encode_opt_u64(o: Option<u64>) -> Seq<char> {
    match o {
        None => "null"@,
        Some(v) => spec_dec(v as nat),
    }
}

/// Reads `null` or a JSON string.
pub open spec fn spec_parse_opt_str(s: Seq<char>) -> Option<(Option<Seq<char>>, nat)> {
    if spec_match_lit(s, "null"@) {
        Some((None, "null"@.len() as nat))
    } else {
        match spec_parse_string(s) {
            Some((v, u)) => Some((Some(v), u)),
            None => None,
        }
    }
}

/// Reads `null` or a signed number.
pub open spec fn spec_parse_opt_i64(s: Seq<char>) -> Option<(Option<i64>, nat)> {
    if spec_match_lit(s, "null"@) {
        Some((None, "null"@.len() as nat))
    } else {
        match spec_parse_i64(s) {
            Some((v, u)) => Some((Some(v), u)),
            None => None,
        }
    }
}

/// Reads `null` or an unsigned number.
pub open spec fn spec_parse_opt_u64(s: Seq<char>) -> Option<(Option<u64>, nat)> {
    if spec_match_lit(s, "null"@) {
        Some((None, "null"@.len() as nat))
    } else {
        match spec_parse_u64(s) {
            Some((v, u)) => Some((Some(v), u)),
            None => None,
        }
    }
}

/// Reads `null` or a string, starting at `pos`.
pub fn parse_opt_str(cs: &Vec<char>, pos: usize) -> (r: Option<(Option<String>, usize)>)
    requires
        pos <= cs@.len(),
    ensures
        match spec_parse_opt_str(cs@.skip(pos as int)) {
            Some((v, u)) => r matches Some((w, np)) && crate::text::opt_str_view(w) == v && np
                == pos + u && np <= cs@.len(),
            None => r is None,
        },
{
    match match_lit(cs, pos, "null") {
        Some(np) => Some((None, np)),
        None => match parse_string(cs, pos) {
            Some((s, np)) => Some((Some(s), np)),
            None => None,
        },
    }
}

/// Reads `null` or a signed number, starting at `pos`.
pub fn parse_opt_i64(cs: &Vec<char>, pos: usize) -> (r: Option<(Option<i64>, usize)>)
    requires
        pos <= cs@.len(),
    ensures
        match spec_parse_opt_i64(cs@.skip(pos as int)) {
            Some((v, u)) => r matches Some((w, np)) && w == v && np == pos + u && np <= cs@.len(),
            None => r is None,
        },
{
    match match_lit(cs, pos, "null") {
        Some(np) => Some((None, np)),
        None => match parse_i64(cs, pos) {
            Some((v, np)) => Some((Some(v), np)),
            None => None,
        },
    }
}

/// Reads `null` or an unsigned number, starting at `pos`.
pub fn parse_opt_u64(cs: &Vec<char>, pos: usize) -> (r: Option<(Option<u64>, usize)>)
    requires
        pos <= cs@.len(),
    ensures
        match spec_parse_opt_u64(cs@.skip(pos as int)) {
            Some((v, u)) => r matches Some((w, np)) && w == v && np == pos + u && np <= cs@.len(),
            None => r is None,
        },
{
    match match_lit(cs, pos, "null") {
        Some(np) => Some((None, np)),
        None => match parse_u64(cs, pos) {
            Some((v, np)) => Some((Some(v), np)),
            None => None,
        },
    }
}

/// A written option reads back as itself (a string never starts like
/// `null`, and the digits of a number never do either).
proof fn lemma_parse_opt_str_complete(o: Option<Seq<char>>, rest: Seq<char>)
    ensures
        spec_parse_opt_str(spec_encode_opt_str(o) + rest) == Some(
            (o, spec_encode_opt_str(o).len() as nat),
        ),
{
    let s = spec_encode_opt_str(o) + rest;
    proof_strlit_null();
    match o {
        None => {
            lemma_match_lit_complete("null"@, rest);
        },
        Some(x) => {
            lemma_parse_string_complete(x, rest);
            assert(s[0] == '"');
            assert(!spec_match_lit(s, "null"@)) by {
                if spec_match_lit(s, "null"@) {
                    assert(s.take(4)[0] == s[0]);
                    assert("null"@[0] == 'n');
                }
            }
        },
    }
}

/// A written optional signed number reads back as itself.
proof fn lemma_parse_opt_i64_complete(o: Option<i64>, rest: Seq<char>)
    requires
        rest.len() == 0 || !is_digit(rest.first()),
    ensures
        spec_parse_opt_i64(spec_encode_opt_i64(o) + rest) == Some(
            (o, spec_encode_opt_i64(o).len() as nat),
        ),
{
    let s = spec_encode_opt_i64(o) + rest;
    proof_strlit_null();
    match o {
        None => {
            lemma_match_lit_complete("null"@, rest);
        },
        Some(v) => {
            lemma_parse_i64_complete(v, rest);
            lemma_dec_all_digits(if v >= 0 {
                v as nat
            } else {
                (-(v as int)) as nat
            });
            assert(!spec_match_lit(s, "null"@)) by {
                if spec_match_lit(s, "null"@) {
                    assert(s.take(4)[0] == s[0]);
                    assert("null"@[0] == 'n');
                    if v >= 0 {
                        assert(s[0] == spec_dec(v as nat)[0]);
                        assert(is_digit(s[0]));
                    } else {
                        assert(s[0] == '-');
                    }
                }
            }
        },
    }
}

/// A written optional unsigned number reads back as itself.
proof fn lemma_parse_opt_u64_complete(o: Option<u64>, rest: Seq<char>)
    requires
        rest.len() == 0 || !is_digit(rest.first()),
    ensures
        spec_parse_opt_u64(spec_encode_opt_u64(o) + rest) == Some(
            (o, spec_encode_opt_u64(o).len() as nat),
        ),
{
    let s = spec_encode_opt_u64(o) + rest;
    proof_strlit_null();
    match o {
        None => {
            lemma_match_lit_complete("null"@, rest);
        },
        Some(v) => {
            lemma_parse_u64_complete(v, rest);
            lemma_dec_all_digits(v as nat);
            assert(!spec_match_lit(s, "null"@)) by {
                if spec_match_lit(s, "null"@) {
                    assert(s.take(4)[0] == s[0]);
                    assert("null"@[0] == 'n');
                    assert(s[0] == spec_dec(v as nat)[0]);
                    assert(is_digit(s[0]));
                }
            }
        },
    }
}

/// The characters of the `null` literal.
proof fn proof_strlit_null()
    ensures
        "null"@.len() == 4,
        "null"@[0] == 'n',
        !is_digit('n') && 'n' != '"' && 'n' != '-',
{
    reveal_strlit("null");
}

/// Reads a field label followed by an unsigned number.
pub open spec fn sp_u64_field(s: Seq<char>, lit: Seq<char>) -> Option<(u64, nat)> {
    if spec_match_lit(s, lit) {
        match spec_parse_u64(s.skip(lit.len() as int)) {
            Some((v, u)) => Some((v, lit.len() + u)),
            None => None,
        }
    } else {
        None
    }
}

/// Reads a field label followed by a signed number.
pub open spec fn sp_i64_field(s: Seq<char>, lit: Seq<char>) -> Option<(i64, nat)> {
    if spec_match_lit(s, lit) {
        match spec_parse_i64(s.skip(lit.len() as int)) {
            Some((v, u)) => Some((v, lit.len() + u)),
            None => None,
        }
    } else {
        None
    }
}

/// Reads a field label followed by `null` or a signed number.
pub open spec fn sp_opt_i64_field(s: Seq<char>, lit: Seq<char>) -> Option<(Option<i64>, nat)> {
    if spec_match_lit(s, lit) {
        match spec_parse_opt_i64(s.skip(lit.len() as int)) {
            Some((v, u)) => Some((v, lit.len() + u)),
            None => None,
        }
    } else {
        None
    }
}

/// Reads a field label followed by `null` or an unsigned number.
pub open spec fn sp_opt_u64_field(s: Seq<char>, lit: Seq<char>) -> Option<(Option<u64>, nat)> {
    if spec_match_lit(s, lit) {
        match spec_parse_opt_u64(s.skip(lit.len() as int)) {
            Some((v, u)) => Some((v, lit.len() + u)),
            None => None,
        }
    } else {
        None
    }
}

/// Reads a field label followed by a string.
pub open spec fn sp_str_field(s: Seq<char>, lit: Seq<char>) -> Option<(Seq<char>, nat)> {
    if spec_match_lit(s, lit) {
        match spec_parse_string(s.skip(lit.len() as int)) {
            Some((v, u)) => Some((v, lit.len() + u)),
            None => None,
        }
    } else {
        None
    }
}

/// Reads a field label followed by `null` or a string.
pub open spec fn sp_opt_str_field(s: Seq<char>, lit: Seq<char>) -> Option<
    (Option<Seq<char>>, nat),
> {
    if spec_match_lit(s, lit) {
        match spec_parse_opt_str(s.skip(lit.len() as int)) {
            Some((v, u)) => Some((v, lit.len() + u)),
            None => None,
        }
    } else {
        None
    }
}

/// Reads a field label followed by a string array.
pub open spec fn sp_str_arr_field(s: Seq<char>, lit: Seq<char>) -> Option<(Seq<Seq<char>>, nat)> {
    if spec_match_lit(s, lit) {
        match spec_parse_str_arr(s.skip(lit.len() as int)) {
            Some((v, u)) => Some((v, lit.len() + u)),
            None => None,
        }
    } else {
        None
    }
}

/// Reads a labelled unsigned number at `pos`.
pub fn u64_field(cs: &Vec<char>, pos: usize, lit: &str) -> (r: Option<(u64, usize)>)
    requires
        pos <= cs@.len(),
    ensures
        match sp_u64_field(cs@.skip(pos as int), lit@) {
            Some((v, u)) => r matches Some((w, np)) && w == v && np == pos + u && np <= cs@.len(),
            None => r is None,
        },
{
    match match_lit(cs, pos, lit) {
        Some(np) => {
            proof {
                assert(cs@.skip(pos as int).skip(lit@.len() as int) =~= cs@.skip(np as int));
            }
            parse_u64(cs, np)
        },
        None => None,
    }
}

/// Reads a labelled signed number at `pos`.
pub fn i64_field(cs: &Vec<char>, pos: usize, lit: &str) -> (r: Option<(i64, usize)>)
    requires
        pos <= cs@.len(),
    ensures
        match sp_i64_field(cs@.skip(pos as int), lit@) {
            Some((v, u)) => r matches Some((w, np)) && w == v && np == pos + u && np <= cs@.len(),
            None => r is None,
        },
{
    match match_lit(cs, pos, lit) {
        Some(np) => {
            proof {
                assert(cs@.skip(pos as int).skip(lit@.len() as int) =~= cs@.skip(np as int));
            }
            parse_i64(cs, np)
        },
        None => None,
    }
}

/// Reads a labelled `null` or signed number at `pos`.
pub fn opt_i64_field(cs: &Vec<char>, pos: usize, lit: &str) -> (r: Option<(Option<i64>, usize)>)
    requires
        pos <= cs@.len(),
    ensures
        match sp_opt_i64_field(cs@.skip(pos as int), lit@) {
            Some((v, u)) => r matches Some((w, np)) && w == v && np == pos + u && np <= cs@.len(),
            None => r is None,
        },
{
    match match_lit(cs, pos, lit) {
        Some(np) => {
            proof {
                assert(cs@.skip(pos as int).skip(lit@.len() as int) =~= cs@.skip(np as int));
            }
            parse_opt_i64(cs, np)
        },
        None => None,
    }
}

/// Reads a labelled `null` or unsigned number at `pos`.
pub fn opt_u64_field(cs: &Vec<char>, pos: usize, lit: &str) -> (r: Option<(Option<u64>, usize)>)
    requires
        pos <= cs@.len(),
    ensures
        match sp_opt_u64_field(cs@.skip(pos as int), lit@) {
            Some((v, u)) => r matches Some((w, np)) && w == v && np == pos + u && np <= cs@.len(),
            None => r is None,
        },
{
    match match_lit(cs, pos, lit) {
        Some(np) => {
            proof {
                assert(cs@.skip(pos as int).skip(lit@.len() as int) =~= cs@.skip(np as int));
            }
            parse_opt_u64(cs, np)
        },
        None => None,
    }
}

/// Reads a labelled string at `pos`.
pub fn str_field(cs: &Vec<char>, pos: usize, lit: &str) -> (r: Option<(String, usize)>)
    requires
        pos <= cs@.len(),
    ensures
        match sp_str_field(cs@.skip(pos as int), lit@) {
            Some((v, u)) => r matches Some((w, np)) && w@ == v && np == pos + u && np <= cs@.len(),
            None => r is None,
        },
{
    match match_lit(cs, pos, lit) {
        Some(np) => {
            proof {
                assert(cs@.skip(pos as int).skip(lit@.len() as int) =~= cs@.skip(np as int));
            }
            parse_string(cs, np)
        },
        None => None,
    }
}

/// Reads a labelled `null` or string at `pos`.
pub fn opt_str_field(cs: &Vec<char>, pos: usize, lit: &str) -> (r: Option<
    (Option<String>, usize),
>)
    requires
        pos <= cs@.len(),
    ensures
        match sp_opt_str_field(cs@.skip(pos as int), lit@) {
            Some((v, u)) => r matches Some((w, np)) && crate::text::opt_str_view(w) == v && np
                == pos + u && np <= cs@.len(),
            None => r is None,
        },
{
    match match_lit(cs, pos, lit) {
        Some(np) => {
            proof {
                assert(cs@.skip(pos as int).skip(lit@.len() as int) =~= cs@.skip(np as int));
            }
            parse_opt_str(cs, np)
        },
        None => None,
    }
}

/// Reads a labelled string array at `pos`.
pub fn str_arr_field(cs: &Vec<char>, pos: usize, lit: &str) -> (r: Option<(Vec<String>, usize)>)
    requires
        pos <= cs@.len(),
    ensures
        match sp_str_arr_field(cs@.skip(pos as int), lit@) {
            Some((v, u)) => r matches Some((w, np)) && w.deep_view() == v && np == pos + u && np
                <= cs@.len(),
            None => r is None,
        },
{
    match match_lit(cs, pos, lit) {
        Some(np) => {
            proof {
                assert(cs@.skip(pos as int).skip(lit@.len() as int) =~= cs@.skip(np as int));
            }
            parse_str_arr(cs, np)
        },
        None => None,
    }
}

/// A written label-and-unsigned-number field reads back as the value.
pub proof fn lemma_u64_field_complete(lit: Seq<char>, v: u64, rest: Seq<char>)
    requires
        rest.len() == 0 || !is_digit(rest.first()),
    ensures
        sp_u64_field(lit + spec_dec(v as nat) + rest, lit) == Some(
            (v, (lit.len() + spec_dec(v as nat).len()) as nat),
        ),
        (lit + spec_dec(v as nat) + rest).skip((lit.len() + spec_dec(v as nat).len()) as int)
            == rest,
{
    let s = lit + spec_dec(v as nat) + rest;
    assert(s =~= lit + (spec_dec(v as nat) + rest)) by {}
    lemma_match_lit_complete(lit, spec_dec(v as nat) + rest);
    lemma_parse_u64_complete(v, rest);
    assert(s.skip((lit.len() + spec_dec(v as nat).len()) as int) =~= rest);
}

/// A written label-and-signed-number field reads back as the value.
pub proof fn lemma_i64_field_complete(lit: Seq<char>, v: i64, rest: Seq<char>)
    requires
        rest.len() == 0 || !is_digit(rest.first()),
    ensures
        sp_i64_field(lit + spec_dec_i64(v as int) + rest, lit) == Some(
            (v, (lit.len() + spec_dec_i64(v as int).len()) as nat),
        ),
        (lit + spec_dec_i64(v as int) + rest).skip(
            (lit.len() + spec_dec_i64(v as int).len()) as int,
        ) == rest,
{
    let s = lit + spec_dec_i64(v as int) + rest;
    assert(s =~= lit + (spec_dec_i64(v as int) + rest)) by {}
    lemma_match_lit_complete(lit, spec_dec_i64(v as int) + rest);
    lemma_parse_i64_complete(v, rest);
    assert(s.skip((lit.len() + spec_dec_i64(v as int).len()) as int) =~= rest);
}

/// A written label-and-option field reads back as the value.
pub proof fn lemma_opt_i64_field_complete(lit: Seq<char>, v: Option<i64>, rest: Seq<char>)
    requires
        rest.len() == 0 || !is_digit(rest.first()),
    ensures
        sp_opt_i64_field(lit + spec_encode_opt_i64(v) + rest, lit) == Some(
            (v, (lit.len() + spec_encode_opt_i64(v).len()) as nat),
        ),
        (lit + spec_encode_opt_i64(v) + rest).skip(
            (lit.len() + spec_encode_opt_i64(v).len()) as int,
        ) == rest,
{
    let s = lit + spec_encode_opt_i64(v) + rest;
    assert(s =~= lit + (spec_encode_opt_i64(v) + rest)) by {}
    lemma_match_lit_complete(lit, spec_encode_opt_i64(v) + rest);
    lemma_parse_opt_i64_complete(v, rest);
    assert(s.skip((lit.len() + spec_encode_opt_i64(v).len()) as int) =~= rest);
}

/// A written label-and-option field reads back as the value.
pub proof fn lemma_opt_u64_field_complete(lit: Seq<char>, v: Option<u64>, rest: Seq<char>)
    requires
        rest.len() == 0 || !is_digit(rest.first()),
    ensures
        sp_opt_u64_field(lit + spec_encode_opt_u64(v) + rest, lit) == Some(
            (v, (lit.len() + spec_encode_opt_u64(v).len()) as nat),
        ),
        (lit + spec_encode_opt_u64(v) + rest).skip(
            (lit.len() + spec_encode_opt_u64(v).len()) as int,
        ) == rest,
{
    let s = lit + spec_encode_opt_u64(v) + rest;
    assert(s =~= lit + (spec_encode_opt_u64(v) + rest)) by {}
    lemma_match_lit_complete(lit, spec_encode_opt_u64(v) + rest);
    lemma_parse_opt_u64_complete(v, rest);
    assert(s.skip((lit.len() + spec_encode_opt_u64(v).len()) as int) =~= rest);
}

/// A written label-and-string field reads back as the value.
pub proof fn lemma_str_field_complete(lit: Seq<char>, v: Seq<char>, rest: Seq<char>)
    ensures
        sp_str_field(lit + spec_json_string(v) + rest, lit) == Some(
            (v, (lit.len() + spec_json_string(v).len()) as nat),
        ),
        (lit + spec_json_string(v) + rest).skip(
            (lit.len() + spec_json_string(v).len()) as int,
        ) == rest,
{
    let s = lit + spec_json_string(v) + rest;
    assert(s =~= lit + (spec_json_string(v) + rest)) by {}
    lemma_match_lit_complete(lit, spec_json_string(v) + rest);
    lemma_parse_string_complete(v, rest);
    assert(s.skip((lit.len() + spec_json_string(v).len()) as int) =~= rest);
}

/// A written label-and-option field reads back as the value.
pub proof fn lemma_opt_str_field_complete(lit: Seq<char>, v: Option<Seq<char>>, rest: Seq<char>)
    ensures
        sp_opt_str_field(lit + spec_encode_opt_str(v) + rest, lit) == Some(
            (v, (lit.len() + spec_encode_opt_str(v).len()) as nat),
        ),
        (lit + spec_encode_opt_str(v) + rest).skip(
            (lit.len() + spec_encode_opt_str(v).len()) as int,
        ) == rest,
{
    let s = lit + spec_encode_opt_str(v) + rest;
    assert(s =~= lit + (spec_encode_opt_str(v) + rest)) by {}
    lemma_match_lit_complete(lit, spec_encode_opt_str(v) + rest);
    lemma_parse_opt_str_complete(v, rest);
    assert(s.skip((lit.len() + spec_encode_opt_str(v).len()) as int) =~= rest);
}

/// A written label-and-array field reads back as the values.
pub proof fn lemma_str_arr_field_complete(lit: Seq<char>, v: Seq<Seq<char>>, rest: Seq<char>)
    ensures
        sp_str_arr_field(lit + spec_encode_str_arr(v) + rest, lit) == Some(
            (v, (lit.len() + spec_encode_str_arr(v).len()) as nat),
        ),
        (lit + spec_encode_str_arr(v) + rest).skip(
            (lit.len() + spec_encode_str_arr(v).len()) as int,
        ) == rest,
{
    let s = lit + spec_encode_str_arr(v) + rest;
    assert(s =~= lit + (spec_encode_str_arr(v) + rest)) by {}
    lemma_match_lit_complete(lit, spec_encode_str_arr(v) + rest);
    lemma_parse_str_arr_complete(v, rest);
    assert(s.skip((lit.len() + spec_encode_str_arr(v).len()) as int) =~= rest);
}


/// The tail of the statistics text from the duration field on.
pub open spec fn st_t8(st: CrawlStats, rest: Seq<char>) -> Seq<char> {
    ",\"duration\":"@ + (spec_encode_opt_u64(st.duration) + ("}"@ + rest))
}

/// The tail of the statistics text from the end-time field on.
pub open spec fn st_t7(st: CrawlStats, rest: Seq<char>) -> Seq<char> {
    ",\"endTime\":"@ + (spec_encode_opt_i64(st.end_time) + st_t8(st, rest))
}

/// The tail of the statistics text from the start-time field on.
pub open spec fn st_t6(st: CrawlStats, rest: Seq<char>) -> Seq<char> {
    ",\"startTime\":"@ + (spec_dec_i64(st.start_time as int) + st_t7(st, rest))
}

/// The tail of the statistics text from the errors field on.
pub open spec fn st_t5(st: CrawlStats, rest: Seq<char>) -> Seq<char> {
    ",\"errors\":"@ + (spec_dec(st.errors as nat) + st_t6(st, rest))
}

/// The tail of the statistics text from the excluded-links field on.
pub open spec fn st_t4(st: CrawlStats, rest: Seq<char>) -> Seq<char> {
    ",\"excludedLinks\":"@ + (spec_dec(st.excluded_links as nat) + st_t5(st, rest))
}

/// The tail of the statistics text from the external-links field on.
pub open spec fn st_t3(st: CrawlStats, rest: Seq<char>) -> Seq<char> {
    ",\"externalLinks\":"@ + (spec_dec(st.external_links as nat) + st_t4(st, rest))
}

/// The tail of the statistics text from the pages-crawled field on.
pub open spec fn st_t2(st: CrawlStats, rest: Seq<char>) -> Seq<char> {
    ",\"pagesCrawled\":"@ + (spec_dec(st.pages_crawled as nat) + st_t3(st, rest))
}

/// The statistics text followed by `rest`.
pub open spec fn st_t1(st: CrawlStats, rest: Seq<char>) -> Seq<char> {
    "{\"pagesFound\":"@ + (spec_dec(st.pages_found as nat) + st_t2(st, rest))
}

/// The JSON text of crawl statistics: one object in camel-case key order,
/// `null` for unset options.
#[verifier::opaque]
pub open spec fn spec_encode_stats(st: CrawlStats) -> Seq<char> {
    st_t1(st, Seq::empty())
}

/// Writes crawl statistics as a JSON object.
pub fn write_stats(out: &mut String, st: &CrawlStats)
    ensures
        final(out)@ == old(out)@ + spec_encode_stats(*st),
{
    proof {
        reveal(spec_encode_stats);
    }
    let x9 = String::from_str("}");
    proof {
        assert(x9@ =~= "}"@ + Seq::<char>::empty());
    }
    let dur_text = match st.duration {
        Some(v) => u64_to_string(v),
        None => String::from_str("null"),
    };
    let x8 = String::from_str(",\"duration\":").concat(dur_text.concat(x9.as_str()).as_str());
    let end_text = match st.end_time {
        Some(v) => i64_to_string(v),
        None => String::from_str("null"),
    };
    let x7 = String::from_str(",\"endTime\":").concat(end_text.concat(x8.as_str()).as_str());
    let x6 = String::from_str(",\"startTime\":").concat(
        i64_to_string(st.start_time).concat(x7.as_str()).as_str(),
    );
    let x5 = String::from_str(",\"errors\":").concat(
        u64_to_string(st.errors as u64).concat(x6.as_str()).as_str(),
    );
    let x4 = String::from_str(",\"excludedLinks\":").concat(
        u64_to_string(st.excluded_links as u64).concat(x5.as_str()).as_str(),
    );
    let x3 = String::from_str(",\"externalLinks\":").concat(
        u64_to_string(st.external_links as u64).concat(x4.as_str()).as_str(),
    );
    let x2 = String::from_str(",\"pagesCrawled\":").concat(
        u64_to_string(st.pages_crawled as u64).concat(x3.as_str()).as_str(),
    );
    let x1 = String::from_str("{\"pagesFound\":").concat(
        u64_to_string(st.pages_found as u64).concat(x2.as_str()).as_str(),
    );
    out.append(x1.as_str());
}

/// Reads the five counter fields of a statistics object.
#[verifier::opaque]
pub open spec fn spec_parse_counts(s: Seq<char>) -> Option<((u64, u64, u64, u64, u64), nat)> {
    match sp_u64_field(s, "{\"pagesFound\":"@) {
        None => None,
        Some((found, u1)) => match sp_u64_field(s.skip(u1 as int), ",\"pagesCrawled\":"@) {
            None => None,
            Some((crawled, u2)) => match sp_u64_field(
                s.skip((u1 + u2) as int),
                ",\"externalLinks\":"@,
            ) {
                None => None,
                Some((ext, u3)) => match sp_u64_field(
                    s.skip((u1 + u2 + u3) as int),
                    ",\"excludedLinks\":"@,
                ) {
                    None => None,
                    Some((excl, u4)) => match sp_u64_field(
                        s.skip((u1 + u2 + u3 + u4) as int),
                        ",\"errors\":"@,
                    ) {
                        None => None,
                        Some((errs, u5)) => Some(
                            ((found, crawled, ext, excl, errs), u1 + u2 + u3 + u4 + u5),
                        ),
                    },
                },
            },
        },
    }
}

/// Reads the three time fields and the closing brace of a statistics
/// object.
#[verifier::opaque]
pub open spec fn spec_parse_times(s: Seq<char>) -> Option<
    ((i64, Option<i64>, Option<u64>), nat),
> {
    match sp_i64_field(s, ",\"startTime\":"@) {
        None => None,
        Some((start, u6)) => match sp_opt_i64_field(s.skip(u6 as int), ",\"endTime\":"@) {
            None => None,
            Some((end, u7)) => match sp_opt_u64_field(s.skip((u6 + u7) as int), ",\"duration\":"@) {
                None => None,
                Some((dur, u8r)) => {
                    let all = u6 + u7 + u8r;
                    if s.len() > all && s[all as int] == '}' {
                        Some(((start, end, dur), (all + 1) as nat))
                    } else {
                        None
                    }
                },
            },
        },
    }
}

/// Reads a statistics object: the value and the characters consumed.
pub open spec fn spec_parse_stats(s: Seq<char>) -> Option<(CrawlStats, nat)> {
    match spec_parse_counts(s) {
        None => None,
        Some(((found, crawled, ext, excl, errs), u)) => match spec_parse_times(s.skip(u as int)) {
            None => None,
            Some(((start, end, dur), u2)) => if found <= usize::MAX && crawled <= usize::MAX && ext
                <= usize::MAX && excl <= usize::MAX && errs <= usize::MAX {
                Some(
                    (
                        CrawlStats {
                            pages_found: found as usize,
                            pages_crawled: crawled as usize,
                            external_links: ext as usize,
                            excluded_links: excl as usize,
                            errors: errs as usize,
                            start_time: start,
                            end_time: end,
                            duration: dur,
                        },
                        u + u2,
                    ),
                )
            } else {
                None
            },
        },
    }
}

/// Reads the counter fields at `pos`; mirrors `spec_parse_counts`.
#[verifier::rlimit(100)]
#[verifier::spinoff_prover]
fn parse_counts(cs: &Vec<char>, pos: usize) -> (r: Option<((u64, u64, u64, u64, u64), usize)>)
    requires
        pos <= cs@.len(),
    ensures
        match spec_parse_counts(cs@.skip(pos as int)) {
            Some((v, u)) => r matches Some((w, np)) && w == v && np == pos + u && np <= cs@.len(),
            None => r is None,
        },
{
    proof {
        reveal(spec_parse_counts);
    }
    let ghost tail = cs@.skip(pos as int);
    let r1 = match u64_field(cs, pos, "{\"pagesFound\":") {
        Some(x) => x,
        None => {
            return None;
        },
    };
    proof {
        assert(tail.skip((r1.1 - pos) as int) =~= cs@.skip(r1.1 as int));
    }
    let r2 = match u64_field(cs, r1.1, ",\"pagesCrawled\":") {
        Some(x) => x,
        None => {
            return None;
        },
    };
    proof {
        assert(tail.skip((r2.1 - pos) as int) =~= cs@.skip(r2.1 as int));
    }
    let r3 = match u64_field(cs, r2.1, ",\"externalLinks\":") {
        Some(x) => x,
        None => {
            return None;
        },
    };
    proof {
        assert(tail.skip((r3.1 - pos) as int) =~= cs@.skip(r3.1 as int));
    }
    let r4 = match u64_field(cs, r3.1, ",\"excludedLinks\":") {
        Some(x) => x,
        None => {
            return None;
        },
    };
    proof {
        assert(tail.skip((r4.1 - pos) as int) =~= cs@.skip(r4.1 as int));
    }
    let r5 = match u64_field(cs, r4.1, ",\"errors\":") {
        Some(x) => x,
        None => {
            return None;
        },
    };
    Some(((r1.0, r2.0, r3.0, r4.0, r5.0), r5.1))
}

/// Reads the time fields at `pos`; mirrors `spec_parse_times`.
#[verifier::rlimit(100)]
#[verifier::spinoff_prover]
fn parse_times(cs: &Vec<char>, pos: usize) -> (r: Option<
    ((i64, Option<i64>, Option<u64>), usize),
>)
    requires
        pos <= cs@.len(),
    ensures
        match spec_parse_times(cs@.skip(pos as int)) {
            Some((v, u)) => r matches Some((w, np)) && w == v && np == pos + u && np <= cs@.len(),
            None => r is None,
        },
{
    proof {
        reveal(spec_parse_times);
    }
    let ghost tail = cs@.skip(pos as int);
    let r6 = match i64_field(cs, pos, ",\"startTime\":") {
        Some(x) => x,
        None => {
            return None;
        },
    };
    proof {
        assert(tail.skip((r6.1 - pos) as int) =~= cs@.skip(r6.1 as int));
    }
    let r7 = match opt_i64_field(cs, r6.1, ",\"endTime\":") {
        Some(x) => x,
        None => {
            return None;
        },
    };
    proof {
        assert(tail.skip((r7.1 - pos) as int) =~= cs@.skip(r7.1 as int));
    }
    let r8 = match opt_u64_field(cs, r7.1, ",\"duration\":") {
        Some(x) => x,
        None => {
            return None;
        },
    };
    proof {
        assert(forall|k: int| 0 <= k < tail.len() ==> tail[k] == cs@[pos + k]);
    }
    if r8.1 < cs.len() && cs[r8.1] == '}' {
        proof {
            assert(tail[(r8.1 - pos) as int] == '}');
        }
        Some(((r6.0, r7.0, r8.0), r8.1 + 1))
    } else {
        None
    }
}

/// Reads a statistics object at `pos`; mirrors `spec_parse_stats`.
pub fn parse_stats(cs: &Vec<char>, pos: usize) -> (r: Option<(CrawlStats, usize)>)
    requires
        pos <= cs@.len(),
    ensures
        match spec_parse_stats(cs@.skip(pos as int)) {
            Some((v, u)) => r matches Some((w, np)) && w == v && np == pos + u && np <= cs@.len(),
            None => r is None,
        },
{
    let ghost tail = cs@.skip(pos as int);
    let (c, np) = match parse_counts(cs, pos) {
        Some(x) => x,
        None => {
            return None;
        },
    };
    proof {
        assert(tail.skip((np - pos) as int) =~= cs@.skip(np as int));
    }
    let (t, np2) = match parse_times(cs, np) {
        Some(x) => x,
        None => {
            return None;
        },
    };
    if c.0 <= usize::MAX as u64 && c.1 <= usize::MAX as u64 && c.2 <= usize::MAX as u64 && c.3
        <= usize::MAX as u64 && c.4 <= usize::MAX as u64 {
        Some(
            (
                CrawlStats {
                    pages_found: c.0 as usize,
                    pages_crawled: c.1 as usize,
                    external_links: c.2 as usize,
                    excluded_links: c.3 as usize,
                    errors: c.4 as usize,
                    start_time: t.0,
                    end_time: t.1,
                    duration: t.2,
                },
                np2,
            ),
        )
    } else {
        None
    }
}

/// The key labels of the statistics object: each begins with a comma, so
/// none begins like a digit.
proof fn proof_stats_lits()
    ensures
        ",\"pagesCrawled\":"@.len() > 0 && ",\"pagesCrawled\":"@.first() == ',',
        ",\"externalLinks\":"@.len() > 0 && ",\"externalLinks\":"@.first() == ',',
        ",\"excludedLinks\":"@.len() > 0 && ",\"excludedLinks\":"@.first() == ',',
        ",\"errors\":"@.len() > 0 && ",\"errors\":"@.first() == ',',
        ",\"startTime\":"@.len() > 0 && ",\"startTime\":"@.first() == ',',
        ",\"endTime\":"@.len() > 0 && ",\"endTime\":"@.first() == ',',
        ",\"duration\":"@.len() > 0 && ",\"duration\":"@.first() == ',',
        "}"@.len() == 1 && "}"@.first() == '}',
        !is_digit(','),
        !is_digit('}'),
{
    reveal_strlit(",\"pagesCrawled\":");
    reveal_strlit(",\"externalLinks\":");
    reveal_strlit(",\"excludedLinks\":");
    reveal_strlit(",\"errors\":");
    reveal_strlit(",\"startTime\":");
    reveal_strlit(",\"endTime\":");
    reveal_strlit(",\"duration\":");
    reveal_strlit("}");
}

/// One nesting level: a trailing addition moves into the innermost hole.
pub proof fn lemma_nest_rest(
    lit: Seq<char>,
    val: Seq<char>,
    inner_e: Seq<char>,
    inner_r: Seq<char>,
    rest: Seq<char>,
)
    requires
        inner_e + rest == inner_r,
    ensures
        (lit + (val + inner_e)) + rest == lit + (val + inner_r),
{
    assert((lit + (val + inner_e)) + rest =~= lit + (val + (inner_e + rest)));
}

/// Appending text after an encoded statistics object lands it in the
/// innermost position of the nested text.
proof fn lemma_stats_rest(st: CrawlStats, rest: Seq<char>)
    ensures
        spec_encode_stats(st) + rest == st_t1(st, rest),
{
    reveal(spec_encode_stats);
    assert(("}"@ + Seq::<char>::empty()) + rest =~= "}"@ + rest);
    lemma_nest_rest(
        ",\"duration\":"@,
        spec_encode_opt_u64(st.duration),
        "}"@ + Seq::<char>::empty(),
        "}"@ + rest,
        rest,
    );
    lemma_nest_rest(
        ",\"endTime\":"@,
        spec_encode_opt_i64(st.end_time),
        st_t8(st, Seq::empty()),
        st_t8(st, rest),
        rest,
    );
    lemma_nest_rest(
        ",\"startTime\":"@,
        spec_dec_i64(st.start_time as int),
        st_t7(st, Seq::empty()),
        st_t7(st, rest),
        rest,
    );
    lemma_nest_rest(
        ",\"errors\":"@,
        spec_dec(st.errors as nat),
        st_t6(st, Seq::empty()),
        st_t6(st, rest),
        rest,
    );
    lemma_nest_rest(
        ",\"excludedLinks\":"@,
        spec_dec(st.excluded_links as nat),
        st_t5(st, Seq::empty()),
        st_t5(st, rest),
        rest,
    );
    lemma_nest_rest(
        ",\"externalLinks\":"@,
        spec_dec(st.external_links as nat),
        st_t4(st, Seq::empty()),
        st_t4(st, rest),
        rest,
    );
    lemma_nest_rest(
        ",\"pagesCrawled\":"@,
        spec_dec(st.pages_crawled as nat),
        st_t3(st, Seq::empty()),
        st_t3(st, rest),
        rest,
    );
    lemma_nest_rest(
        "{\"pagesFound\":"@,
        spec_dec(st.pages_found as nat),
        st_t2(st, Seq::empty()),
        st_t2(st, rest),
        rest,
    );
}

/// One field of a nested object: peeling a label and an unsigned number.
pub proof fn lemma_peel_u64(s: Seq<char>, lit: Seq<char>, v: u64, tail: Seq<char>)
    requires
        s == lit + (spec_dec(v as nat) + tail),
        tail.len() == 0 || !is_digit(tail.first()),
    ensures
        sp_u64_field(s, lit) == Some((v, (lit.len() + spec_dec(v as nat).len()) as nat)),
        s.skip((lit.len() + spec_dec(v as nat).len()) as int) == tail,
{
    assert(s =~= lit + spec_dec(v as nat) + tail);
    lemma_u64_field_complete(lit, v, tail);
}

/// One field of a nested object: peeling a label and a signed number.
pub proof fn lemma_peel_i64(s: Seq<char>, lit: Seq<char>, v: i64, tail: Seq<char>)
    requires
        s == lit + (spec_dec_i64(v as int) + tail),
        tail.len() == 0 || !is_digit(tail.first()),
    ensures
        sp_i64_field(s, lit) == Some((v, (lit.len() + spec_dec_i64(v as int).len()) as nat)),
        s.skip((lit.len() + spec_dec_i64(v as int).len()) as int) == tail,
{
    assert(s =~= lit + spec_dec_i64(v as int) + tail);
    lemma_i64_field_complete(lit, v, tail);
}

/// One field of a nested object: peeling a label and an optional signed
/// number.
proof fn lemma_peel_opt_i64(s: Seq<char>, lit: Seq<char>, v: Option<i64>, tail: Seq<char>)
    requires
        s == lit + (spec_encode_opt_i64(v) + tail),
        tail.len() == 0 || !is_digit(tail.first()),
    ensures
        sp_opt_i64_field(s, lit) == Some((v, (lit.len() + spec_encode_opt_i64(v).len()) as nat)),
        s.skip((lit.len() + spec_encode_opt_i64(v).len()) as int) == tail,
{
    assert(s =~= lit + spec_encode_opt_i64(v) + tail);
    lemma_opt_i64_field_complete(lit, v, tail);
}

/// One field of a nested object: peeling a label and an optional unsigned
/// number.
proof fn lemma_peel_opt_u64(s: Seq<char>, lit: Seq<char>, v: Option<u64>, tail: Seq<char>)
    requires
        s == lit + (spec_encode_opt_u64(v) + tail),
        tail.len() == 0 || !is_digit(tail.first()),
    ensures
        sp_opt_u64_field(s, lit) == Some((v, (lit.len() + spec_encode_opt_u64(v).len()) as nat)),
        s.skip((lit.len() + spec_encode_opt_u64(v).len()) as int) == tail,
{
    assert(s =~= lit + spec_encode_opt_u64(v) + tail);
    lemma_opt_u64_field_complete(lit, v, tail);
}

/// One field of a nested object: peeling a label and a string.
pub proof fn lemma_peel_str(s: Seq<char>, lit: Seq<char>, v: Seq<char>, tail: Seq<char>)
    requires
        s == lit + (spec_json_string(v) + tail),
    ensures
        sp_str_field(s, lit) == Some((v, (lit.len() + spec_json_string(v).len()) as nat)),
        s.skip((lit.len() + spec_json_string(v).len()) as int) == tail,
{
    assert(s =~= lit + spec_json_string(v) + tail);
    lemma_str_field_complete(lit, v, tail);
}

/// One field of a nested object: peeling a label and an optional string.
proof fn lemma_peel_opt_str(s: Seq<char>, lit: Seq<char>, v: Option<Seq<char>>, tail: Seq<char>)
    requires
        s == lit + (spec_encode_opt_str(v) + tail),
    ensures
        sp_opt_str_field(s, lit) == Some((v, (lit.len() + spec_encode_opt_str(v).len()) as nat)),
        s.skip((lit.len() + spec_encode_opt_str(v).len()) as int) == tail,
{
    assert(s =~= lit + spec_encode_opt_str(v) + tail);
    lemma_opt_str_field_complete(lit, v, tail);
}

/// One field of a nested object: peeling a label and a string array.
pub proof fn lemma_peel_str_arr(s: Seq<char>, lit: Seq<char>, v: Seq<Seq<char>>, tail: Seq<char>)
    requires
        s == lit + (spec_encode_str_arr(v) + tail),
    ensures
        sp_str_arr_field(s, lit) == Some((v, (lit.len() + spec_encode_str_arr(v).len()) as nat)),
        s.skip((lit.len() + spec_encode_str_arr(v).len()) as int) == tail,
{
    assert(s =~= lit + spec_encode_str_arr(v) + tail);
    lemma_str_arr_field_complete(lit, v, tail);
}

/// Skipping in two steps is skipping the sum.
pub proof fn lemma_skip_skip(s: Seq<char>, a: int, b: int)
    requires
        0 <= a,
        0 <= b,
        a + b <= s.len(),
    ensures
        s.skip(a).skip(b) == s.skip(a + b),
{
    assert(s.skip(a).skip(b) =~= s.skip(a + b));
}

/// The counter half of the statistics text reads back exactly, leaving the
/// time half.
#[verifier::rlimit(100)]
#[verifier::spinoff_prover]
proof fn lemma_parse_counts_complete(st: CrawlStats, rest: Seq<char>)
    ensures
        ({
            let s = st_t1(st, rest);
            let consumed = s.len() - st_t6(st, rest).len();
            spec_parse_counts(s) == Some(
                (
                    (
                        st.pages_found as u64,
                        st.pages_crawled as u64,
                        st.external_links as u64,
                        st.excluded_links as u64,
                        st.errors as u64,
                    ),
                    consumed as nat,
                ),
            ) && s.skip(consumed) == st_t6(st, rest)
        }),
{
    reveal(spec_parse_counts);
    proof_stats_lits();
    let s = st_t1(st, rest);
    let l1 = "{\"pagesFound\":"@.len() + spec_dec(st.pages_found as nat).len();
    let l2 = ",\"pagesCrawled\":"@.len() + spec_dec(st.pages_crawled as nat).len();
    let l3 = ",\"externalLinks\":"@.len() + spec_dec(st.external_links as nat).len();
    let l4 = ",\"excludedLinks\":"@.len() + spec_dec(st.excluded_links as nat).len();
    let l5 = ",\"errors\":"@.len() + spec_dec(st.errors as nat).len();
    lemma_peel_u64(s, "{\"pagesFound\":"@, st.pages_found as u64, st_t2(st, rest));
    lemma_peel_u64(
        st_t2(st, rest),
        ",\"pagesCrawled\":"@,
        st.pages_crawled as u64,
        st_t3(st, rest),
    );
    lemma_peel_u64(
        st_t3(st, rest),
        ",\"externalLinks\":"@,
        st.external_links as u64,
        st_t4(st, rest),
    );
    lemma_peel_u64(
        st_t4(st, rest),
        ",\"excludedLinks\":"@,
        st.excluded_links as u64,
        st_t5(st, rest),
    );
    lemma_peel_u64(st_t5(st, rest), ",\"errors\":"@, st.errors as u64, st_t6(st, rest));
    assert(s.skip(l1 as int) == st_t2(st, rest));
    lemma_skip_skip(s, l1 as int, l2 as int);
    assert(s.skip((l1 + l2) as int) == st_t3(st, rest));
    lemma_skip_skip(s, (l1 + l2) as int, l3 as int);
    assert(s.skip((l1 + l2 + l3) as int) == st_t4(st, rest));
    lemma_skip_skip(s, (l1 + l2 + l3) as int, l4 as int);
    assert(s.skip((l1 + l2 + l3 + l4) as int) == st_t5(st, rest));
    lemma_skip_skip(s, (l1 + l2 + l3 + l4) as int, l5 as int);
    assert(s.skip((l1 + l2 + l3 + l4 + l5) as int) == st_t6(st, rest));
    assert(spec_parse_counts(s) == Some(
        (
            (
                st.pages_found as u64,
                st.pages_crawled as u64,
                st.external_links as u64,
                st.excluded_links as u64,
                st.errors as u64,
            ),
            (l1 + l2 + l3 + l4 + l5) as nat,
        ),
    ));
    assert(s.len() == l1 + l2 + l3 + l4 + l5 + st_t6(st, rest).len());
}

/// The time half of the statistics text reads back exactly, leaving `rest`.
#[verifier::rlimit(100)]
#[verifier::spinoff_prover]
proof fn lemma_parse_times_complete(st: CrawlStats, rest: Seq<char>)
    ensures
        ({
            let s = st_t6(st, rest);
            let consumed = s.len() - rest.len();
            spec_parse_times(s) == Some(
                ((st.start_time, st.end_time, st.duration), consumed as nat),
            ) && s.skip(consumed) == rest
        }),
{
    reveal(spec_parse_times);
    proof_stats_lits();
    let s = st_t6(st, rest);
    let l6 = ",\"startTime\":"@.len() + spec_dec_i64(st.start_time as int).len();
    let l7 = ",\"endTime\":"@.len() + spec_encode_opt_i64(st.end_time).len();
    let l8 = ",\"duration\":"@.len() + spec_encode_opt_u64(st.duration).len();
    lemma_peel_i64(s, ",\"startTime\":"@, st.start_time, st_t7(st, rest));
    lemma_peel_opt_i64(st_t7(st, rest), ",\"endTime\":"@, st.end_time, st_t8(st, rest));
    lemma_peel_opt_u64(st_t8(st, rest), ",\"duration\":"@, st.duration, "}"@ + rest);
    lemma_skip_skip(s, l6 as int, l7 as int);
    lemma_skip_skip(s, (l6 + l7) as int, l8 as int);
    assert(s.skip((l6 + l7 + l8) as int) == "}"@ + rest);
    assert(("}"@ + rest).first() == '}');
    assert(("}"@ + rest).skip(1) =~= rest);
    lemma_skip_skip(s, (l6 + l7 + l8) as int, 1);
    assert(s[(l6 + l7 + l8) as int] == '}') by {
        assert(s.skip((l6 + l7 + l8) as int).first() == '}');
    }
}

/// A written statistics object reads back as the same statistics.
#[verifier::rlimit(100)]
#[verifier::spinoff_prover]
pub proof fn lemma_parse_stats_complete(st: CrawlStats, rest: Seq<char>)
    ensures
        spec_parse_stats(spec_encode_stats(st) + rest) == Some(
            (st, spec_encode_stats(st).len() as nat),
        ),
{
    lemma_stats_rest(st, rest);
    let s = st_t1(st, rest);
    lemma_parse_counts_complete(st, rest);
    lemma_parse_times_complete(st, rest);
    assert(s.skip(s.len() - st_t6(st, rest).len()) == st_t6(st, rest));
}

/// A page result, over text values.
pub struct PageResultView {
    pub url: Seq<char>,
    pub title: Seq<char>,
    pub status_code: u16,
    pub depth: usize,
    pub links: Seq<Seq<char>>,
    pub error: Option<Seq<char>>,
    pub crawled_at: i64,
    pub content_type: Seq<char>,
}

/// A page result, seen over text values.
pub open spec fn page_view(p: PageResult) -> PageResultView {
    PageResultView {
        url: p.url@,
        title: p.title@,
        status_code: p.status_code,
        depth: p.depth,
        links: p.links.deep_view(),
        error: crate::text::opt_str_view(p.error),
        crawled_at: p.crawled_at,
        content_type: p.content_type@,
    }
}

/// The tail of a page text from the content-type field on.
#[verifier::opaque]
pub open spec fn pg_t8(p: PageResultView, rest: Seq<char>) -> Seq<char> {
    ",\"contentType\":"@ + (spec_json_string(p.content_type) + ("}"@ + rest))
}

/// The tail of a page text from the crawled-at field on.
#[verifier::opaque]
pub open spec fn pg_t7(p: PageResultView, rest: Seq<char>) -> Seq<char> {
    ",\"crawledAt\":"@ + (spec_dec_i64(p.crawled_at as int) + pg_t8(p, rest))
}

/// The tail of a page text from the error field on.
#[verifier::opaque]
pub open spec fn pg_t6(p: PageResultView, rest: Seq<char>) -> Seq<char> {
    ",\"error\":"@ + (spec_encode_opt_str(p.error) + pg_t7(p, rest))
}

/// The tail of a page text from the links field on.
#[verifier::opaque]
pub open spec fn pg_t5(p: PageResultView, rest: Seq<char>) -> Seq<char> {
    ",\"links\":"@ + (spec_encode_str_arr(p.links) + pg_t6(p, rest))
}

/// The tail of a page text from the depth field on.
#[verifier::opaque]
pub open spec fn pg_t4(p: PageResultView, rest: Seq<char>) -> Seq<char> {
    ",\"depth\":"@ + (spec_dec(p.depth as nat) + pg_t5(p, rest))
}

/// The tail of a page text from the status field on.
#[verifier::opaque]
pub open spec fn pg_t3(p: PageResultView, rest: Seq<char>) -> Seq<char> {
    ",\"statusCode\":"@ + (spec_dec(p.status_code as nat) + pg_t4(p, rest))
}

/// The tail of a page text from the title field on.
#[verifier::opaque]
pub open spec fn pg_t2(p: PageResultView, rest: Seq<char>) -> Seq<char> {
    ",\"title\":"@ + (spec_json_string(p.title) + pg_t3(p, rest))
}

/// The page text followed by `rest`.
#[verifier::opaque]
pub open spec fn pg_t1(p: PageResultView, rest: Seq<char>) -> Seq<char> {
    "{\"url\":"@ + (spec_json_string(p.url) + pg_t2(p, rest))
}

/// The JSON text of one page result: one object in camel-case key order,
/// `null` for a missing error.
#[verifier::opaque]
pub open spec fn spec_encode_page(p: PageResultView) -> Seq<char> {
    pg_t1(p, Seq::empty())
}

/// Writes one page result as a JSON object.
pub fn write_page(out: &mut String, p: &PageResult)
    ensures
        final(out)@ == old(out)@ + spec_encode_page(page_view(*p)),
{
    proof {
        reveal(spec_encode_page);
        reveal(pg_t1);
        reveal(pg_t2);
        reveal(pg_t3);
        reveal(pg_t4);
        reveal(pg_t5);
        reveal(pg_t6);
        reveal(pg_t7);
        reveal(pg_t8);
    }
    let x9 = String::from_str("}");
    proof {
        assert(x9@ =~= "}"@ + Seq::<char>::empty());
    }
    let mut ct = String::new();
    write_json_string(&mut ct, p.content_type.as_str());
    let x8 = String::from_str(",\"contentType\":").concat(ct.concat(x9.as_str()).as_str());
    let x7 = String::from_str(",\"crawledAt\":").concat(
        i64_to_string(p.crawled_at).concat(x8.as_str()).as_str(),
    );
    let mut err = String::new();
    match &p.error {
        Some(e) => write_json_string(&mut err, e.as_str()),
        None => err.append("null"),
    }
    proof {
        assert(Seq::<char>::empty() + "null"@ =~= "null"@);
        assert(Seq::<char>::empty() + spec_encode_opt_str(crate::text::opt_str_view(p.error))
            =~= spec_encode_opt_str(crate::text::opt_str_view(p.error)));
    }
    let x6 = String::from_str(",\"error\":").concat(err.concat(x7.as_str()).as_str());
    let mut links = String::new();
    write_str_arr(&mut links, &p.links);
    proof {
        assert(Seq::<char>::empty() + spec_encode_str_arr(p.links.deep_view())
            =~= spec_encode_str_arr(p.links.deep_view()));
    }
    let x5 = String::from_str(",\"links\":").concat(links.concat(x6.as_str()).as_str());
    let x4 = String::from_str(",\"depth\":").concat(
        u64_to_string(p.depth as u64).concat(x5.as_str()).as_str(),
    );
    let x3 = String::from_str(",\"statusCode\":").concat(
        u64_to_string(p.status_code as u64).concat(x4.as_str()).as_str(),
    );
    let mut title = String::new();
    write_json_string(&mut title, p.title.as_str());
    proof {
        assert(Seq::<char>::empty() + spec_json_string(p.title@) =~= spec_json_string(p.title@));
    }
    let x2 = String::from_str(",\"title\":").concat(title.concat(x3.as_str()).as_str());
    let mut url = String::new();
    write_json_string(&mut url, p.url.as_str());
    proof {
        assert(Seq::<char>::empty() + spec_json_string(p.url@) =~= spec_json_string(p.url@));
    }
    let x1 = String::from_str("{\"url\":").concat(url.concat(x2.as_str()).as_str());
    out.append(x1.as_str());
}

/// Reads the first half of a page object: url, title, status and depth.
#[verifier::opaque]
pub open spec fn spec_parse_page_a(s: Seq<char>) -> Option<
    ((Seq<char>, Seq<char>, u16, usize), nat),
> {
    match sp_str_field(s, "{\"url\":"@) {
        None => None,
        Some((url, u1)) => match sp_str_field(s.skip(u1 as int), ",\"title\":"@) {
            None => None,
            Some((title, u2)) => match sp_u64_field(s.skip((u1 + u2) as int), ",\"statusCode\":"@) {
                None => None,
                Some((status, u3)) => match sp_u64_field(
                    s.skip((u1 + u2 + u3) as int),
                    ",\"depth\":"@,
                ) {
                    None => None,
                    Some((depth, u4)) => if status <= u16::MAX && depth <= usize::MAX {
                        Some(((url, title, status as u16, depth as usize), u1 + u2 + u3 + u4))
                    } else {
                        None
                    },
                },
            },
        },
    }
}

/// Reads the second half of a page object: links, error, crawled-at,
/// content-type and the closing brace.
#[verifier::opaque]
pub open spec fn spec_parse_page_b(s: Seq<char>) -> Option<
    ((Seq<Seq<char>>, Option<Seq<char>>, i64, Seq<char>), nat),
> {
    match sp_str_arr_field(s, ",\"links\":"@) {
        None => None,
        Some((links, u5)) => match sp_opt_str_field(s.skip(u5 as int), ",\"error\":"@) {
            None => None,
            Some((error, u6)) => match sp_i64_field(s.skip((u5 + u6) as int), ",\"crawledAt\":"@) {
                None => None,
                Some((at, u7)) => match sp_str_field(
                    s.skip((u5 + u6 + u7) as int),
                    ",\"contentType\":"@,
                ) {
                    None => None,
                    Some((ct, u8r)) => {
                        let all = u5 + u6 + u7 + u8r;
                        if s.len() > all && s[all as int] == '}' {
                            Some(((links, error, at, ct), (all + 1) as nat))
                        } else {
                            None
                        }
                    },
                },
            },
        },
    }
}

/// Reads one page object: the page and the characters consumed.
pub open spec fn spec_parse_page(s: Seq<char>) -> Option<(PageResultView, nat)> {
    match spec_parse_page_a(s) {
        None => None,
        Some(((url, title, status, depth), u)) => match spec_parse_page_b(s.skip(u as int)) {
            None => None,
            Some(((links, error, at, ct), u2)) => Some(
                (
                    PageResultView {
                        url,
                        title,
                        status_code: status,
                        depth,
                        links,
                        error,
                        crawled_at: at,
                        content_type: ct,
                    },
                    u + u2,
                ),
            ),
        },
    }
}

/// Reads the first half of a page object at `pos`.
#[verifier::rlimit(100)]
#[verifier::spinoff_prover]
fn parse_page_a(cs: &Vec<char>, pos: usize) -> (r: Option<((String, String, u16, usize), usize)>)
    requires
        pos <= cs@.len(),
    ensures
        match spec_parse_page_a(cs@.skip(pos as int)) {
            Some((v, u)) => r matches Some((w, np)) && w.0@ == v.0 && w.1@ == v.1 && w.2 == v.2
                && w.3 == v.3 && np == pos + u && np <= cs@.len(),
            None => r is None,
        },
{
    proof {
        reveal(spec_parse_page_a);
    }
    let ghost tail = cs@.skip(pos as int);
    let r1 = match str_field(cs, pos, "{\"url\":") {
        Some(x) => x,
        None => {
            return None;
        },
    };
    proof {
        assert(tail.skip((r1.1 - pos) as int) =~= cs@.skip(r1.1 as int));
    }
    let r2 = match str_field(cs, r1.1, ",\"title\":") {
        Some(x) => x,
        None => {
            return None;
        },
    };
    proof {
        assert(tail.skip((r2.1 - pos) as int) =~= cs@.skip(r2.1 as int));
    }
    let r3 = match u64_field(cs, r2.1, ",\"statusCode\":") {
        Some(x) => x,
        None => {
            return None;
        },
    };
    proof {
        assert(tail.skip((r3.1 - pos) as int) =~= cs@.skip(r3.1 as int));
    }
    let r4 = match u64_field(cs, r3.1, ",\"depth\":") {
        Some(x) => x,
        None => {
            return None;
        },
    };
    if r3.0 <= u16::MAX as u64 && r4.0 <= usize::MAX as u64 {
        Some(((r1.0, r2.0, r3.0 as u16, r4.0 as usize), r4.1))
    } else {
        None
    }
}

/// Reads the second half of a page object at `pos`.
#[verifier::rlimit(100)]
#[verifier::spinoff_prover]
fn parse_page_b(cs: &Vec<char>, pos: usize) -> (r: Option<
    ((Vec<String>, Option<String>, i64, String), usize),
>)
    requires
        pos <= cs@.len(),
    ensures
        match spec_parse_page_b(cs@.skip(pos as int)) {
            Some((v, u)) => r matches Some((w, np)) && w.0.deep_view() == v.0
                && crate::text::opt_str_view(w.1) == v.1 && w.2 == v.2 && w.3@ == v.3 && np == pos
                + u && np <= cs@.len(),
            None => r is None,
        },
{
    proof {
        reveal(spec_parse_page_b);
    }
    let ghost tail = cs@.skip(pos as int);
    let r5 = match str_arr_field(cs, pos, ",\"links\":") {
        Some(x) => x,
        None => {
            return None;
        },
    };
    proof {
        assert(tail.skip((r5.1 - pos) as int) =~= cs@.skip(r5.1 as int));
    }
    let r6 = match opt_str_field(cs, r5.1, ",\"error\":") {
        Some(x) => x,
        None => {
            return None;
        },
    };
    proof {
        assert(tail.skip((r6.1 - pos) as int) =~= cs@.skip(r6.1 as int));
    }
    let r7 = match i64_field(cs, r6.1, ",\"crawledAt\":") {
        Some(x) => x,
        None => {
            return None;
        },
    };
    proof {
        assert(tail.skip((r7.1 - pos) as int) =~= cs@.skip(r7.1 as int));
    }
    let r8 = match str_field(cs, r7.1, ",\"contentType\":") {
        Some(x) => x,
        None => {
            return None;
        },
    };
    proof {
        assert(forall|k: int| 0 <= k < tail.len() ==> tail[k] == cs@[pos + k]);
    }
    if r8.1 < cs.len() && cs[r8.1] == '}' {
        proof {
            assert(tail[(r8.1 - pos) as int] == '}');
        }
        Some(((r5.0, r6.0, r7.0, r8.0), r8.1 + 1))
    } else {
        None
    }
}

/// Reads one page object at `pos`; mirrors `spec_parse_page`.
pub fn parse_page(cs: &Vec<char>, pos: usize) -> (r: Option<(PageResult, usize)>)
    requires
        pos <= cs@.len(),
    ensures
        match spec_parse_page(cs@.skip(pos as int)) {
            Some((v, u)) => r matches Some((w, np)) && page_view(w) == v && np == pos + u && np
                <= cs@.len(),
            None => r is None,
        },
{
    let ghost tail = cs@.skip(pos as int);
    let (a, np) = match parse_page_a(cs, pos) {
        Some(x) => x,
        None => {
            return None;
        },
    };
    proof {
        assert(tail.skip((np - pos) as int) =~= cs@.skip(np as int));
    }
    let (b, np2) = match parse_page_b(cs, np) {
        Some(x) => x,
        None => {
            return None;
        },
    };
    let page = PageResult {
        url: a.0,
        title: a.1,
        status_code: a.2,
        depth: a.3,
        links: b.0,
        error: b.1,
        crawled_at: b.2,
        content_type: b.3,
    };
    Some((page, np2))
}

/// The key labels of a page object: each begins with a comma or a brace.
proof fn proof_page_lits()
    ensures
        "{\"url\":"@.len() > 0 && "{\"url\":"@.first() == '{',
        ",\"title\":"@.len() > 0 && ",\"title\":"@.first() == ',',
        ",\"statusCode\":"@.len() > 0 && ",\"statusCode\":"@.first() == ',',
        ",\"depth\":"@.len() > 0 && ",\"depth\":"@.first() == ',',
        ",\"links\":"@.len() > 0 && ",\"links\":"@.first() == ',',
        ",\"error\":"@.len() > 0 && ",\"error\":"@.first() == ',',
        ",\"crawledAt\":"@.len() > 0 && ",\"crawledAt\":"@.first() == ',',
        ",\"contentType\":"@.len() > 0 && ",\"contentType\":"@.first() == ',',
        !is_digit(',') && !is_digit('{') && !is_digit('}'),
        '{' != '"',
{
    reveal_strlit("{\"url\":");
    reveal_strlit(",\"title\":");
    reveal_strlit(",\"statusCode\":");
    reveal_strlit(",\"depth\":");
    reveal_strlit(",\"links\":");
    reveal_strlit(",\"error\":");
    reveal_strlit(",\"crawledAt\":");
    reveal_strlit(",\"contentType\":");
}

/// The nested page tails shrink from the outside in.
proof fn lemma_page_lens(p: PageResultView, rest: Seq<char>)
    ensures
        pg_t1(p, rest).len() >= pg_t2(p, rest).len() >= pg_t3(p, rest).len() >= pg_t4(
            p,
            rest,
        ).len() >= pg_t5(p, rest).len() >= pg_t6(p, rest).len() >= pg_t7(p, rest).len() >= pg_t8(
            p,
            rest,
        ).len() >= rest.len(),
{
    reveal(spec_encode_page);
    reveal(pg_t1);
    reveal(pg_t2);
    reveal(pg_t3);
    reveal(pg_t4);
    reveal(pg_t5);
    reveal(pg_t6);
    reveal(pg_t7);
    reveal(pg_t8);
}

/// Appending text after an encoded page lands it in the innermost position.
proof fn lemma_page_rest(p: PageResultView, rest: Seq<char>)
    ensures
        spec_encode_page(p) + rest == pg_t1(p, rest),
{
    reveal(spec_encode_page);
    reveal(pg_t1);
    reveal(pg_t2);
    reveal(pg_t3);
    reveal(pg_t4);
    reveal(pg_t5);
    reveal(pg_t6);
    reveal(pg_t7);
    reveal(pg_t8);
    assert(("}"@ + Seq::<char>::empty()) + rest =~= "}"@ + rest);
    lemma_nest_rest(
        ",\"contentType\":"@,
        spec_json_string(p.content_type),
        "}"@ + Seq::<char>::empty(),
        "}"@ + rest,
        rest,
    );
    lemma_nest_rest(
        ",\"crawledAt\":"@,
        spec_dec_i64(p.crawled_at as int),
        pg_t8(p, Seq::empty()),
        pg_t8(p, rest),
        rest,
    );
    lemma_nest_rest(
        ",\"error\":"@,
        spec_encode_opt_str(p.error),
        pg_t7(p, Seq::empty()),
        pg_t7(p, rest),
        rest,
    );
    lemma_nest_rest(
        ",\"links\":"@,
        spec_encode_str_arr(p.links),
        pg_t6(p, Seq::empty()),
        pg_t6(p, rest),
        rest,
    );
    lemma_nest_rest(
        ",\"depth\":"@,
        spec_dec(p.depth as nat),
        pg_t5(p, Seq::empty()),
        pg_t5(p, rest),
        rest,
    );
    lemma_nest_rest(
        ",\"statusCode\":"@,
        spec_dec(p.status_code as nat),
        pg_t4(p, Seq::empty()),
        pg_t4(p, rest),
        rest,
    );
    lemma_nest_rest(
        ",\"title\":"@,
        spec_json_string(p.title),
        pg_t3(p, Seq::empty()),
        pg_t3(p, rest),
        rest,
    );
    lemma_nest_rest(
        "{\"url\":"@,
        spec_json_string(p.url),
        pg_t2(p, Seq::empty()),
        pg_t2(p, rest),
        rest,
    );
}

/// The first half of a page text reads back exactly, leaving the second.
#[verifier::rlimit(100)]
#[verifier::spinoff_prover]
proof fn lemma_parse_page_a_complete(p: PageResultView, rest: Seq<char>)
    ensures
        ({
            let s = pg_t1(p, rest);
            let consumed = s.len() - pg_t5(p, rest).len();
            spec_parse_page_a(s) == Some(
                ((p.url, p.title, p.status_code, p.depth), consumed as nat),
            ) && s.skip(consumed) == pg_t5(p, rest)
        }),
{
    reveal(spec_parse_page_a);
    reveal(pg_t1);
    reveal(pg_t2);
    reveal(pg_t3);
    reveal(pg_t4);
    reveal(pg_t5);
    proof_page_lits();
    let s = pg_t1(p, rest);
    let l1 = "{\"url\":"@.len() + spec_json_string(p.url).len();
    let l2 = ",\"title\":"@.len() + spec_json_string(p.title).len();
    let l3 = ",\"statusCode\":"@.len() + spec_dec(p.status_code as nat).len();
    let l4 = ",\"depth\":"@.len() + spec_dec(p.depth as nat).len();
    lemma_peel_str(s, "{\"url\":"@, p.url, pg_t2(p, rest));
    lemma_peel_str(pg_t2(p, rest), ",\"title\":"@, p.title, pg_t3(p, rest));
    lemma_peel_u64(pg_t3(p, rest), ",\"statusCode\":"@, p.status_code as u64, pg_t4(p, rest));
    lemma_peel_u64(pg_t4(p, rest), ",\"depth\":"@, p.depth as u64, pg_t5(p, rest));
    assert(s.skip(l1 as int) == pg_t2(p, rest));
    lemma_skip_skip(s, l1 as int, l2 as int);
    assert(s.skip((l1 + l2) as int) == pg_t3(p, rest));
    lemma_skip_skip(s, (l1 + l2) as int, l3 as int);
    assert(s.skip((l1 + l2 + l3) as int) == pg_t4(p, rest));
    lemma_skip_skip(s, (l1 + l2 + l3) as int, l4 as int);
    assert(s.skip((l1 + l2 + l3 + l4) as int) == pg_t5(p, rest));
    assert(spec_parse_page_a(s) == Some(
        ((p.url, p.title, p.status_code, p.depth), (l1 + l2 + l3 + l4) as nat),
    ));
    assert(s.len() == l1 + l2 + l3 + l4 + pg_t5(p, rest).len());
}

/// The second half of a page text reads back exactly, leaving `rest`.
#[verifier::rlimit(100)]
#[verifier::spinoff_prover]
proof fn lemma_parse_page_b_complete(p: PageResultView, rest: Seq<char>)
    ensures
        ({
            let s = pg_t5(p, rest);
            let consumed = s.len() - rest.len();
            spec_parse_page_b(s) == Some(
                ((p.links, p.error, p.crawled_at, p.content_type), consumed as nat),
            ) && s.skip(consumed) == rest
        }),
{
    reveal(spec_parse_page_b);
    reveal(pg_t5);
    reveal(pg_t6);
    reveal(pg_t7);
    reveal(pg_t8);
    proof_page_lits();
    let s = pg_t5(p, rest);
    let l5 = ",\"links\":"@.len() + spec_encode_str_arr(p.links).len();
    let l6 = ",\"error\":"@.len() + spec_encode_opt_str(p.error).len();
    let l7 = ",\"crawledAt\":"@.len() + spec_dec_i64(p.crawled_at as int).len();
    let l8 = ",\"contentType\":"@.len() + spec_json_string(p.content_type).len();
    lemma_peel_str_arr(s, ",\"links\":"@, p.links, pg_t6(p, rest));
    lemma_peel_opt_str(pg_t6(p, rest), ",\"error\":"@, p.error, pg_t7(p, rest));
    lemma_peel_i64(pg_t7(p, rest), ",\"crawledAt\":"@, p.crawled_at, pg_t8(p, rest));
    lemma_peel_str(pg_t8(p, rest), ",\"contentType\":"@, p.content_type, "}"@ + rest);
    assert(s.skip(l5 as int) == pg_t6(p, rest));
    lemma_skip_skip(s, l5 as int, l6 as int);
    assert(s.skip((l5 + l6) as int) == pg_t7(p, rest));
    lemma_skip_skip(s, (l5 + l6) as int, l7 as int);
    assert(s.skip((l5 + l6 + l7) as int) == pg_t8(p, rest));
    lemma_skip_skip(s, (l5 + l6 + l7) as int, l8 as int);
    assert(s.skip((l5 + l6 + l7 + l8) as int) == "}"@ + rest);
    proof_stats_lits();
    assert(("}"@ + rest).first() == '}');
    assert(("}"@ + rest).skip(1) =~= rest);
    assert(s[(l5 + l6 + l7 + l8) as int] == '}') by {
        assert(s.skip((l5 + l6 + l7 + l8) as int).first() == '}');
    }
    lemma_skip_skip(s, (l5 + l6 + l7 + l8) as int, 1);
    assert(spec_parse_page_b(s) == Some(
        ((p.links, p.error, p.crawled_at, p.content_type), (l5 + l6 + l7 + l8 + 1) as nat),
    ));
    assert(s.len() == l5 + l6 + l7 + l8 + 1 + rest.len());
}

/// A written page object reads back as the same page.
#[verifier::rlimit(100)]
#[verifier::spinoff_prover]
pub proof fn lemma_parse_page_complete(p: PageResultView, rest: Seq<char>)
    ensures
        spec_parse_page(spec_encode_page(p) + rest) == Some(
            (p, spec_encode_page(p).len() as nat),
        ),
        (spec_encode_page(p) + rest).skip(spec_encode_page(p).len() as int) == rest,
        spec_encode_page(p).len() >= 1,
        (spec_encode_page(p) + rest).first() == '{',
{
    reveal(spec_encode_page);
    reveal(pg_t1);
    lemma_page_rest(p, rest);
    lemma_page_lens(p, rest);
    let s = pg_t1(p, rest);
    lemma_parse_page_a_complete(p, rest);
    lemma_parse_page_b_complete(p, rest);
    assert(s.skip(s.len() - pg_t5(p, rest).len()) == pg_t5(p, rest));
    proof_page_lits();
    assert(s.first() == '{');
    lemma_skip_skip(
        s,
        s.len() - pg_t5(p, rest).len(),
        pg_t5(p, rest).len() - rest.len(),
    );
    assert(s.skip(s.len() - rest.len()) == rest);
    assert(spec_parse_page(s) == Some((p, (s.len() - rest.len()) as nat)));
}

/// A list of page results, over text values.
pub open spec fn pages_view(rs: Seq<PageResult>) -> Seq<PageResultView> {
    rs.map_values(|p: PageResult| page_view(p))
}

/// The JSON text of a page list: the objects, comma-separated.
pub open spec fn spec_encode_page_items(ps: Seq<PageResultView>) -> Seq<char>
    decreases ps.len(),
{
    if ps.len() == 0 {
        Seq::empty()
    } else if ps.len() == 1 {
        spec_encode_page(ps.first())
    } else {
        spec_encode_page(ps.first()) + seq![','] + spec_encode_page_items(ps.drop_first())
    }
}

/// A JSON array of page objects.
#[verifier::opaque]
pub open spec fn spec_encode_page_arr(ps: Seq<PageResultView>) -> Seq<char> {
    seq!['['] + spec_encode_page_items(ps) + seq![']']
}

/// Appending one page to a list appends its object (with a comma when the
/// list was not empty) to the list's text.
proof fn lemma_page_items_snoc(ps: Seq<PageResultView>, x: PageResultView)
    ensures
        spec_encode_page_items(ps.push(x)) == if ps.len() == 0 {
            spec_encode_page(x)
        } else {
            spec_encode_page_items(ps) + seq![','] + spec_encode_page(x)
        },
    decreases ps.len(),
{
    let s = ps.push(x);
    if ps.len() == 0 {
        assert(s.len() == 1);
        assert(s.first() == x);
    } else {
        assert(s.first() == ps.first());
        assert(s.drop_first() =~= ps.drop_first().push(x));
        lemma_page_items_snoc(ps.drop_first(), x);
        if ps.len() == 1 {
            assert(ps.drop_first().len() == 0);
        } else {
            assert(spec_encode_page(ps.first()) + seq![','] + (spec_encode_page_items(
                ps.drop_first(),
            ) + seq![','] + spec_encode_page(x)) =~= (spec_encode_page(ps.first()) + seq![',']
                + spec_encode_page_items(ps.drop_first())) + seq![','] + spec_encode_page(x));
        }
    }
}

/// Writes a JSON array of page objects.
pub fn write_page_arr(out: &mut String, rs: &Vec<PageResult>)
    ensures
        final(out)@ == old(out)@ + spec_encode_page_arr(pages_view(rs@)),
{
    proof {
        reveal(spec_encode_page_arr);
    }
    out.push('[');
    let ghost pv = pages_view(rs@);
    let mut i: usize = 0;
    proof {
        assert(spec_encode_page_items(pv.take(0)) =~= Seq::<char>::empty());
        assert(out@ =~= old(out)@ + seq!['['] + spec_encode_page_items(pv.take(0)));
    }
    while i < rs.len()
        invariant
            i <= rs.len(),
            pv == pages_view(rs@),
            pv.len() == rs@.len(),
            out@ == old(out)@ + seq!['['] + spec_encode_page_items(pv.take(i as int)),
        decreases rs.len() - i,
    {
        if i > 0 {
            out.push(',');
        }
        write_page(out, &rs[i]);
        proof {
            lemma_page_items_snoc(pv.take(i as int), pv[i as int]);
            assert(pv.take(i as int).push(pv[i as int]) =~= pv.take(i + 1));
            assert(out@ =~= old(out)@ + seq!['['] + spec_encode_page_items(pv.take(i + 1)));
        }
        i = i + 1;
    }
    out.push(']');
    proof {
        assert(pv.take(pv.len() as int) =~= pv);
        assert(final(out)@ =~= old(out)@ + spec_encode_page_arr(pv));
    }
}

/// A parsed page object consumes at least one character.
proof fn lemma_parse_page_min(s: Seq<char>)
    ensures
        spec_parse_page(s) matches Some((v, u)) ==> u >= 1,
{
    reveal(spec_parse_page_a);
    reveal_strlit("{\"url\":");
    assert("{\"url\":"@.len() >= 1);
}

/// Reads the items of a page array after its opening bracket, up to and
/// including the closing bracket.
pub open spec fn spec_parse_page_items(s: Seq<char>) -> Option<(Seq<PageResultView>, nat)>
    decreases s.len(),
{
    match spec_parse_page(s) {
        None => None,
        Some((v, u)) => if u >= 1 && s.len() > u && s[u as int] == ',' {
            match spec_parse_page_items(s.skip(u as int + 1)) {
                Some((vs, u2)) => Some((seq![v] + vs, u + 1 + u2)),
                None => None,
            }
        } else if s.len() > u && s[u as int] == ']' {
            Some((seq![v], u + 1))
        } else {
            None
        },
    }
}

/// Reads a JSON array of page objects.
pub open spec fn spec_parse_page_arr(s: Seq<char>) -> Option<(Seq<PageResultView>, nat)> {
    if s.len() >= 2 && s[0] == '[' && s[1] == ']' {
        Some((Seq::empty(), 2nat))
    } else if s.len() >= 1 && s[0] == '[' {
        match spec_parse_page_items(s.skip(1)) {
            Some((vs, u)) => Some((vs, u + 1)),
            None => None,
        }
    } else {
        None
    }
}

/// Reading back a written page list yields the original pages.
#[verifier::rlimit(100)]
#[verifier::spinoff_prover]
proof fn lemma_parse_page_items_complete(xs: Seq<PageResultView>, rest: Seq<char>)
    requires
        xs.len() >= 1,
    ensures
        spec_parse_page_items(spec_encode_page_items(xs) + seq![']'] + rest) == Some(
            (xs, (spec_encode_page_items(xs).len() + 1) as nat),
        ),
    decreases xs.len(),
{
    let enc = spec_encode_page_items(xs);
    let s = enc + seq![']'] + rest;
    if xs.len() == 1 {
        assert(enc == spec_encode_page(xs.first()));
        assert(s =~= spec_encode_page(xs.first()) + (seq![']'] + rest));
        lemma_parse_page_complete(xs.first(), seq![']'] + rest);
        let u = spec_encode_page(xs.first()).len() as nat;
        assert(s[u as int] == ']');
        assert(seq![xs.first()] =~= xs);
    } else {
        let x0 = xs.first();
        let xt = xs.drop_first();
        assert(enc == spec_encode_page(x0) + seq![','] + spec_encode_page_items(xt));
        let tail_enc = spec_encode_page_items(xt) + seq![']'] + rest;
        assert(s =~= spec_encode_page(x0) + (seq![','] + tail_enc));
        lemma_parse_page_complete(x0, seq![','] + tail_enc);
        let u = spec_encode_page(x0).len() as nat;
        assert(s[u as int] == ',');
        assert(s.skip(u as int + 1) =~= tail_enc);
        lemma_parse_page_items_complete(xt, rest);
        assert(seq![x0] + xt =~= xs);
    }
}

/// Reading back a written page array yields the original pages.
#[verifier::rlimit(100)]
#[verifier::spinoff_prover]
pub proof fn lemma_parse_page_arr_complete(xs: Seq<PageResultView>, rest: Seq<char>)
    ensures
        spec_parse_page_arr(spec_encode_page_arr(xs) + rest) == Some(
            (xs, spec_encode_page_arr(xs).len() as nat),
        ),
{
    reveal(spec_encode_page_arr);
    let enc = spec_encode_page_arr(xs);
    let s = enc + rest;
    assert(s[0] == '[');
    if xs.len() == 0 {
        assert(spec_encode_page_items(xs) =~= Seq::<char>::empty());
        assert(enc =~= seq!['[', ']']);
        assert(s[1] == ']');
        assert(xs =~= Seq::<PageResultView>::empty());
    } else {
        lemma_parse_page_items_complete(xs, rest);
        assert(s.skip(1) =~= spec_encode_page_items(xs) + seq![']'] + rest);
        lemma_parse_page_complete(xs.first(), Seq::empty());
        assert(s[1] != ']') by {
            assert(spec_encode_page_items(xs).first() == '{') by {
                assert(spec_encode_page_items(xs).first() == spec_encode_page(
                    xs.first(),
                ).first());
                assert((spec_encode_page(xs.first()) + Seq::<char>::empty()).first()
                    == spec_encode_page(xs.first()).first());
                proof_page_lits();
            }
            assert(s[1] == spec_encode_page_items(xs).first());
        }
    }
}

/// Reads the items of a page array starting at `pos` (after the opening
/// bracket); mirrors `spec_parse_page_items`.
#[verifier::rlimit(100)]
#[verifier::spinoff_prover]
fn parse_page_items(cs: &Vec<char>, pos: usize) -> (r: Option<(Vec<PageResult>, usize)>)
    requires
        pos <= cs@.len(),
    ensures
        match spec_parse_page_items(cs@.skip(pos as int)) {
            Some((vs, u)) => r matches Some((xs, np)) && pages_view(xs@) == vs && np == pos + u
                && np <= cs@.len(),
            None => r is None,
        },
    decreases cs@.len() - pos,
{
    let ghost tail = cs@.skip(pos as int);
    match parse_page(cs, pos) {
        None => None,
        Some((v, np)) => {
            proof {
                lemma_parse_page_min(tail);
                assert(forall|k: int| 0 <= k < tail.len() ==> tail[k] == cs@[pos + k]);
            }
            if np < cs.len() && cs[np] == ',' {
                proof {
                    assert(tail[(np - pos) as int] == ',');
                    assert(tail.skip((np - pos) as int + 1) =~= cs@.skip(np + 1));
                }
                match parse_page_items(cs, np + 1) {
                    Some((mut xs, np2)) => {
                        xs.insert(0, v);
                        proof {
                            assert(pages_view(xs@) =~= seq![page_view(xs@[0])] + pages_view(
                                xs@.skip(1),
                            ));
                            assert(xs@.skip(1) =~= xs@.subrange(1, xs@.len() as int));
                        }
                        Some((xs, np2))
                    },
                    None => None,
                }
            } else if np < cs.len() && cs[np] == ']' {
                proof {
                    assert(tail[(np - pos) as int] == ']');
                }
                let mut xs: Vec<PageResult> = Vec::new();
                xs.push(v);
                proof {
                    assert(pages_view(xs@) =~= seq![page_view(v)]);
                }
                Some((xs, np + 1))
            } else {
                None
            }
        },
    }
}

/// Reads a JSON array of page objects at `pos`; mirrors
/// `spec_parse_page_arr`.
#[verifier::rlimit(100)]
#[verifier::spinoff_prover]
pub fn parse_page_arr(cs: &Vec<char>, pos: usize) -> (r: Option<(Vec<PageResult>, usize)>)
    requires
        pos <= cs@.len(),
    ensures
        match spec_parse_page_arr(cs@.skip(pos as int)) {
            Some((vs, u)) => r matches Some((xs, np)) && pages_view(xs@) == vs && np == pos + u
                && np <= cs@.len(),
            None => r is None,
        },
{
    let ghost tail = cs@.skip(pos as int);
    proof {
        assert(forall|k: int| 0 <= k < tail.len() ==> tail[k] == cs@[pos + k]);
    }
    if cs.len() - pos >= 2 && cs[pos] == '[' && cs[pos + 1] == ']' {
        let xs: Vec<PageResult> = Vec::new();
        proof {
            assert(pages_view(xs@) =~= Seq::<PageResultView>::empty());
        }
        Some((xs, pos + 2))
    } else if pos < cs.len() && cs[pos] == '[' {
        proof {
            assert(tail.skip(1) =~= cs@.skip(pos + 1));
        }
        match parse_page_items(cs, pos + 1) {
            Some((xs, np)) => Some((xs, np)),
            None => None,
        }
    } else {
        None
    }
}

/// The JSON text of a whole crawl's outcome: the statistics, then the page
/// results.
pub open spec fn spec_encode_results(st: CrawlStats, rs: Seq<PageResultView>) -> Seq<char> {
    "{\"stats\":"@ + (spec_encode_stats(st) + (",\"results\":"@ + (spec_encode_page_arr(rs)
        + "}"@)))
}

/// Writes a whole crawl's outcome as one JSON object.
pub fn write_results(out: &mut String, r: &crate::types::CrawlResults)
    ensures
        final(out)@ == old(out)@ + spec_encode_results(r.stats, pages_view(r.results@)),
{
    let mut arr = String::new();
    write_page_arr(&mut arr, &r.results);
    proof {
        assert(Seq::<char>::empty() + spec_encode_page_arr(pages_view(r.results@))
            =~= spec_encode_page_arr(pages_view(r.results@)));
    }
    let x3 = String::from_str(",\"results\":").concat(arr.concat("}").as_str());
    let mut st = String::new();
    write_stats(&mut st, &r.stats);
    proof {
        assert(Seq::<char>::empty() + spec_encode_stats(r.stats) =~= spec_encode_stats(r.stats));
    }
    let x1 = String::from_str("{\"stats\":").concat(st.concat(x3.as_str()).as_str());
    out.append(x1.as_str());
}

/// Reads a field label followed by a statistics object.
pub open spec fn sp_stats_field(s: Seq<char>, lit: Seq<char>) -> Option<(CrawlStats, nat)> {
    if spec_match_lit(s, lit) {
        match spec_parse_stats(s.skip(lit.len() as int)) {
            Some((v, u)) => Some((v, lit.len() + u)),
            None => None,
        }
    } else {
        None
    }
}

/// Reads a field label followed by a page array.
pub open spec fn sp_page_arr_field(s: Seq<char>, lit: Seq<char>) -> Option<
    (Seq<PageResultView>, nat),
> {
    if spec_match_lit(s, lit) {
        match spec_parse_page_arr(s.skip(lit.len() as int)) {
            Some((v, u)) => Some((v, lit.len() + u)),
            None => None,
        }
    } else {
        None
    }
}

/// Reads a labelled statistics object at `pos`.
pub fn stats_field(cs: &Vec<char>, pos: usize, lit: &str) -> (r: Option<(CrawlStats, usize)>)
    requires
        pos <= cs@.len(),
    ensures
        match sp_stats_field(cs@.skip(pos as int), lit@) {
            Some((v, u)) => r matches Some((w, np)) && w == v && np == pos + u && np <= cs@.len(),
            None => r is None,
        },
{
    match match_lit(cs, pos, lit) {
        Some(np) => {
            proof {
                assert(cs@.skip(pos as int).skip(lit@.len() as int) =~= cs@.skip(np as int));
            }
            parse_stats(cs, np)
        },
        None => None,
    }
}

/// Reads a labelled page array at `pos`.
pub fn page_arr_field(cs: &Vec<char>, pos: usize, lit: &str) -> (r: Option<
    (Vec<PageResult>, usize),
>)
    requires
        pos <= cs@.len(),
    ensures
        match sp_page_arr_field(cs@.skip(pos as int), lit@) {
            Some((v, u)) => r matches Some((w, np)) && pages_view(w@) == v && np == pos + u && np
                <= cs@.len(),
            None => r is None,
        },
{
    match match_lit(cs, pos, lit) {
        Some(np) => {
            proof {
                assert(cs@.skip(pos as int).skip(lit@.len() as int) =~= cs@.skip(np as int));
            }
            parse_page_arr(cs, np)
        },
        None => None,
    }
}

/// One field of a nested object: peeling a label and a statistics object.
#[verifier::rlimit(100)]
#[verifier::spinoff_prover]
pub proof fn lemma_peel_stats(s: Seq<char>, lit: Seq<char>, v: CrawlStats, tail: Seq<char>)
    requires
        s == lit + (spec_encode_stats(v) + tail),
    ensures
        sp_stats_field(s, lit) == Some((v, (lit.len() + spec_encode_stats(v).len()) as nat)),
        s.skip((lit.len() + spec_encode_stats(v).len()) as int) == tail,
{
    assert(s =~= lit + spec_encode_stats(v) + tail);
    lemma_match_lit_complete(lit, spec_encode_stats(v) + tail);
    lemma_parse_stats_complete(v, tail);
    assert(s.skip((lit.len() + spec_encode_stats(v).len()) as int) =~= tail);
}

/// One field of a nested object: peeling a label and a page array.
#[verifier::rlimit(100)]
#[verifier::spinoff_prover]
pub proof fn lemma_peel_page_arr(
    s: Seq<char>,
    lit: Seq<char>,
    v: Seq<PageResultView>,
    tail: Seq<char>,
)
    requires
        s == lit + (spec_encode_page_arr(v) + tail),
    ensures
        sp_page_arr_field(s, lit) == Some((v, (lit.len() + spec_encode_page_arr(v).len()) as nat)),
        s.skip((lit.len() + spec_encode_page_arr(v).len()) as int) == tail,
{
    assert(s =~= lit + spec_encode_page_arr(v) + tail);
    lemma_match_lit_complete(lit, spec_encode_page_arr(v) + tail);
    lemma_parse_page_arr_complete(v, tail);
    assert(s.skip((lit.len() + spec_encode_page_arr(v).len()) as int) =~= tail);
}

} // verus!


