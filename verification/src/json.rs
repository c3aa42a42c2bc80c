use vstd::prelude::*;

use crate::types::{SubjectArea, Thumbnail, ThumbnailV, thumbs_view};

verus! {

// ---------------------------------------------------------------------------
// Characters: hex digits, decimal digits, control-character codes
// ---------------------------------------------------------------------------

pub open spec fn hex_digit(n: int) -> char {
    if n == 0 { '0' } else if n == 1 { '1' } else if n == 2 { '2' } else if n == 3 { '3' }
    else if n == 4 { '4' } else if n == 5 { '5' } else if n == 6 { '6' } else if n == 7 { '7' }
    else if n == 8 { '8' } else if n == 9 { '9' } else if n == 10 { 'a' } else if n == 11 { 'b' }
    else if n == 12 { 'c' } else if n == 13 { 'd' } else if n == 14 { 'e' } else { 'f' }
}

/// The value of a hex digit as the escaper writes them; -1 for other characters.
pub open spec fn hex_val(c: char) -> int {
    if c == '0' { 0 } else if c == '1' { 1 } else if c == '2' { 2 } else if c == '3' { 3 }
    else if c == '4' { 4 } else if c == '5' { 5 } else if c == '6' { 6 } else if c == '7' { 7 }
    else if c == '8' { 8 } else if c == '9' { 9 } else if c == 'a' { 10 } else if c == 'b' { 11 }
    else if c == 'c' { 12 } else if c == 'd' { 13 } else if c == 'e' { 14 } else if c == 'f' { 15 }
    else { -1 }
}

pub proof fn lemma_hex_roundtrip(n: int)
    requires
        0 <= n < 16,
    ensures
        hex_val(hex_digit(n)) == n,
{
}

pub open spec fn is_digit(c: char) -> bool {
    hex_val(c) >= 0 && hex_val(c) <= 9
}

fn hex_digit_exec(n: u32) -> (r: char)
    requires
        n < 16,
    ensures
        r == hex_digit(n as int),
{
    if n == 0 { '0' } else if n == 1 { '1' } else if n == 2 { '2' } else if n == 3 { '3' }
    else if n == 4 { '4' } else if n == 5 { '5' } else if n == 6 { '6' } else if n == 7 { '7' }
    else if n == 8 { '8' } else if n == 9 { '9' } else if n == 10 { 'a' } else if n == 11 { 'b' }
    else if n == 12 { 'c' } else if n == 13 { 'd' } else if n == 14 { 'e' } else { 'f' }
}

/// The control character with the given code, for codes below 32.
pub open spec fn ctl_char(n: int) -> char {
    if n == 0 { '\u{00}' } else if n == 1 { '\u{01}' } else if n == 2 { '\u{02}' }
    else if n == 3 { '\u{03}' } else if n == 4 { '\u{04}' } else if n == 5 { '\u{05}' }
    else if n == 6 { '\u{06}' } else if n == 7 { '\u{07}' } else if n == 8 { '\u{08}' }
    else if n == 9 { '\u{09}' } else if n == 10 { '\u{0a}' } else if n == 11 { '\u{0b}' }
    else if n == 12 { '\u{0c}' } else if n == 13 { '\u{0d}' } else if n == 14 { '\u{0e}' }
    else if n == 15 { '\u{0f}' } else if n == 16 { '\u{10}' } else if n == 17 { '\u{11}' }
    else if n == 18 { '\u{12}' } else if n == 19 { '\u{13}' } else if n == 20 { '\u{14}' }
    else if n == 21 { '\u{15}' } else if n == 22 { '\u{16}' } else if n == 23 { '\u{17}' }
    else if n == 24 { '\u{18}' } else if n == 25 { '\u{19}' } else if n == 26 { '\u{1a}' }
    else if n == 27 { '\u{1b}' } else if n == 28 { '\u{1c}' } else if n == 29 { '\u{1d}' }
    else if n == 30 { '\u{1e}' } else { '\u{1f}' }
}

pub proof fn lemma_ctl_char_code(n: int)
    requires
        0 <= n < 32,
    ensures
        ctl_char(n) as u32 == n,
{
}

pub proof fn lemma_ctl_char_inverse(c: char)
    requires
        (c as u32) < 32,
    ensures
        ctl_char((c as u32) as int) == c,
{
    lemma_ctl_char_code((c as u32) as int);
}

// ---------------------------------------------------------------------------
// String escaping, as JSON writes string contents
// ---------------------------------------------------------------------------

/// How one character is written inside a JSON string: quote and backslash
/// get a two-character escape, control characters a hex escape, and
/// everything else stands as itself.
pub open spec fn esc_char(c: char) -> Seq<char> {
    if c == '"' {
        seq!['\\', '"']
    } else if c == '\\' {
        seq!['\\', '\\']
    } else if (c as u32) < 32 {
        seq!['\\', 'u', '0', '0', hex_digit((c as u32) as int / 16), hex_digit((c as u32) as int % 16)]
    } else {
        seq![c]
    }
}

pub open spec fn esc(s: Seq<char>) -> Seq<char>
    decreases s.len(),
{
    if s.len() == 0 {
        Seq::empty()
    } else {
        esc_char(s.first()) + esc(s.drop_first())
    }
}

pub proof fn lemma_esc_snoc(s: Seq<char>, c: char)
    ensures
        esc(s.push(c)) == esc(s) + esc_char(c),
    decreases s.len(),
{
    if s.len() == 0 {
        assert(s.push(c).first() == c);
        assert(s.push(c).drop_first() =~= Seq::<char>::empty());
        assert(esc(Seq::<char>::empty()) =~= Seq::<char>::empty());
        assert(esc(s.push(c)) =~= esc_char(c));
        assert(esc(s) + esc_char(c) =~= esc_char(c));
    } else {
        assert(s.push(c).drop_first() =~= s.drop_first().push(c));
        lemma_esc_snoc(s.drop_first(), c);
        assert(esc(s.push(c)) =~= esc(s) + esc_char(c));
    }
}

/// Append the escaped form of `v` to `out`.
fn push_escaped(out: &mut Vec<char>, v: &Vec<char>)
    ensures
        final(out)@ == old(out)@ + esc(v@),
{
    let ghost orig = out@;
    let mut i: usize = 0;
    assert(out@ =~= orig + esc(v@.take(0)));
    while i < v.len()
        invariant
            i <= v@.len(),
            out@ == orig + esc(v@.take(i as int)),
        decreases v@.len() - i,
    {
        let c = v[i];
        if c == '"' {
            out.push('\\');
            out.push('"');
        } else if c == '\\' {
            out.push('\\');
            out.push('\\');
        } else if (c as u32) < 32 {
            let n = c as u32;
            out.push('\\');
            out.push('u');
            out.push('0');
            out.push('0');
            out.push(hex_digit_exec(n / 16));
            out.push(hex_digit_exec(n % 16));
        } else {
            out.push(c);
        }
        proof {
            lemma_esc_snoc(v@.take(i as int), c);
            assert(v@.take(i + 1 as int) =~= v@.take(i as int).push(c));
            assert(out@ =~= orig + esc(v@.take(i + 1 as int)));
        }
        i = i + 1;
    }
    assert(v@.take(v@.len() as int) =~= v@);
}

// ---------------------------------------------------------------------------
// Decimal rendering of unsigned numbers
// ---------------------------------------------------------------------------

pub open spec fn dec_digits(n: nat) -> Seq<char>
    decreases n,
{
    if n < 10 {
        seq![hex_digit(n as int)]
    } else {
        dec_digits(n / 10) + seq![hex_digit((n % 10) as int)]
    }
}

pub proof fn lemma_dec_digits_are_digits(n: nat)
    ensures
        dec_digits(n).len() >= 1,
        forall|i: int| 0 <= i < dec_digits(n).len() ==> is_digit(#[trigger] dec_digits(n)[i]),
    decreases n,
{
    if n < 10 {
    } else {
        lemma_dec_digits_are_digits(n / 10);
    }
}

/// Append the decimal form of `n` to `out`.
fn push_u32(out: &mut Vec<char>, n: u32)
    ensures
        final(out)@ == old(out)@ + dec_digits(n as nat),
    decreases n,
{
    if n < 10 {
        out.push(hex_digit_exec(n));
        assert(out@ =~= old(out)@ + dec_digits(n as nat));
    } else {
        push_u32(out, n / 10);
        out.push(hex_digit_exec(n % 10));
        assert(out@ =~= old(out)@ + dec_digits(n as nat));
    }
}

// ---------------------------------------------------------------------------
// Parsing primitives (specification level): each consumes a prefix of the
// text and yields the parsed value with the remaining text.
// ---------------------------------------------------------------------------

/// Match an exact literal at the front of the text.
pub open spec fn parse_lit(s: Seq<char>, lit: Seq<char>) -> Option<Seq<char>> {
    if lit.len() <= s.len() && s.take(lit.len() as int) == lit {
        Some(s.skip(lit.len() as int))
    } else {
        None
    }
}

pub proof fn lemma_parse_lit(lit: Seq<char>, rest: Seq<char>)
    ensures
        parse_lit(lit + rest, lit) == Some(rest),
{
    assert((lit + rest).take(lit.len() as int) =~= lit);
    assert((lit + rest).skip(lit.len() as int) =~= rest);
}

/// Read a JSON string body up to its closing quote, undoing the escapes
/// that `esc` writes; the opening quote has already been consumed.
pub open spec fn parse_jstr(s: Seq<char>) -> Option<(Seq<char>, Seq<char>)>
    decreases s.len(),
{
    if s.len() == 0 {
        None
    } else if s.first() == '"' {
        Some((Seq::empty(), s.drop_first()))
    } else if s.first() == '\\' {
        if s.len() >= 2 && (s[1] == '"' || s[1] == '\\') {
            match parse_jstr(s.skip(2)) {
                Some(p) => Some((seq![s[1]] + p.0, p.1)),
                None => None,
            }
        } else if s.len() >= 6 && s[1] == 'u' && s[2] == '0' && s[3] == '0'
            && hex_val(s[4]) >= 0 && hex_val(s[5]) >= 0
            && hex_val(s[4]) * 16 + hex_val(s[5]) < 32 {
            match parse_jstr(s.skip(6)) {
                Some(p) => Some((seq![ctl_char(hex_val(s[4]) * 16 + hex_val(s[5]))] + p.0, p.1)),
                None => None,
            }
        } else {
            None
        }
    } else {
        match parse_jstr(s.drop_first()) {
            Some(p) => Some((seq![s.first()] + p.0, p.1)),
            None => None,
        }
    }
}

pub proof fn lemma_parse_jstr_roundtrip(v: Seq<char>, rest: Seq<char>)
    ensures
        parse_jstr(esc(v) + seq!['"'] + rest) == Some((v, rest)),
    decreases v.len(),
{
    let s = esc(v) + seq!['"'] + rest;
    if v.len() == 0 {
        assert(esc(v) =~= Seq::<char>::empty());
        assert(s.first() == '"');
        assert(s.drop_first() =~= rest);
        assert((Seq::<char>::empty(), s.drop_first()) == (v, rest));
    } else {
        let c = v.first();
        let tail = esc(v.drop_first()) + seq!['"'] + rest;
        assert(esc(v) =~= esc_char(c) + esc(v.drop_first()));
        assert(s =~= esc_char(c) + tail);
        lemma_parse_jstr_roundtrip(v.drop_first(), rest);
        if c == '"' {
            assert(s.first() == '\\' && s[1] == '"');
            assert(s.skip(2) =~= tail);
            assert(seq![s[1]] + v.drop_first() =~= v);
        } else if c == '\\' {
            assert(s.first() == '\\' && s[1] == '\\');
            assert(s.skip(2) =~= tail);
            assert(seq![s[1]] + v.drop_first() =~= v);
        } else if (c as u32) < 32 {
            let n = (c as u32) as int;
            assert(s.first() == '\\' && s[1] == 'u' && s[2] == '0' && s[3] == '0');
            assert(s[4] == hex_digit(n / 16) && s[5] == hex_digit(n % 16));
            lemma_hex_roundtrip(n / 16);
            lemma_hex_roundtrip(n % 16);
            assert(hex_val(s[4]) * 16 + hex_val(s[5]) == n);
            lemma_ctl_char_inverse(c);
            assert(s.skip(6) =~= tail);
            assert(seq![ctl_char(n)] + v.drop_first() =~= v);
        } else {
            assert(s.first() == c);
            assert(s.first() != '"' && s.first() != '\\');
            assert(s.drop_first() =~= tail);
            assert(seq![s.first()] + v.drop_first() =~= v);
        }
    }
}

/// Split the longest run of decimal digits off the front of the text.
pub open spec fn split_digits(s: Seq<char>) -> (Seq<char>, Seq<char>)
    decreases s.len(),
{
    if s.len() > 0 && is_digit(s.first()) {
        let p = split_digits(s.drop_first());
        (seq![s.first()] + p.0, p.1)
    } else {
        (Seq::empty(), s)
    }
}

pub proof fn lemma_split_digits(d: Seq<char>, rest: Seq<char>)
    requires
        forall|i: int| 0 <= i < d.len() ==> is_digit(#[trigger] d[i]),
        rest.len() == 0 || !is_digit(rest.first()),
    ensures
        split_digits(d + rest) == (d, rest),
    decreases d.len(),
{
    if d.len() == 0 {
        assert(d + rest =~= rest);
        if rest.len() > 0 {
            assert(!is_digit((d + rest).first()));
        }
        assert(split_digits(d + rest).0 =~= d);
    } else {
        let s = d + rest;
        assert(is_digit(s.first()));
        assert(s.drop_first() =~= d.drop_first() + rest);
        lemma_split_digits(d.drop_first(), rest);
        assert(seq![s.first()] + d.drop_first() =~= d);
    }
}

/// The number a digit run denotes.
pub open spec fn digits_to_nat(d: Seq<char>) -> nat
    decreases d.len(),
{
    if d.len() == 0 {
        0
    } else {
        digits_to_nat(d.drop_last()) * 10 + (if hex_val(d.last()) >= 0 { hex_val(d.last()) } else { 0 }) as nat
    }
}

pub proof fn lemma_digits_to_nat_of_dec(n: nat)
    ensures
        digits_to_nat(dec_digits(n)) == n,
    decreases n,
{
    if n < 10 {
        assert(dec_digits(n).drop_last() =~= Seq::<char>::empty());
        assert(digits_to_nat(Seq::<char>::empty()) == 0);
        assert(dec_digits(n).last() == hex_digit(n as int));
        lemma_hex_roundtrip(n as int);
    } else {
        lemma_digits_to_nat_of_dec(n / 10);
        assert(dec_digits(n).drop_last() =~= dec_digits(n / 10));
        assert(dec_digits(n).last() == hex_digit((n % 10) as int));
        lemma_hex_roundtrip((n % 10) as int);
    }
}

/// Read a decimal number off the front of the text.
pub open spec fn parse_nat(s: Seq<char>) -> Option<(nat, Seq<char>)> {
    let p = split_digits(s);
    if p.0.len() == 0 {
        None
    } else {
        Some((digits_to_nat(p.0), p.1))
    }
}

pub proof fn lemma_parse_nat_roundtrip(n: nat, rest: Seq<char>)
    requires
        rest.len() == 0 || !is_digit(rest.first()),
    ensures
        parse_nat(dec_digits(n) + rest) == Some((n, rest)),
{
    lemma_dec_digits_are_digits(n);
    lemma_split_digits(dec_digits(n), rest);
    lemma_digits_to_nat_of_dec(n);
}

// ---------------------------------------------------------------------------
// Key labels of the structured fields
// ---------------------------------------------------------------------------

pub open spec fn lab_x() -> Seq<char> { seq!['x'] }

pub open spec fn lab_y() -> Seq<char> { seq!['y'] }

pub open spec fn lab_latitude() -> Seq<char> { seq!['l', 'a', 't', 'i', 't', 'u', 'd', 'e'] }

pub open spec fn lab_longitude() -> Seq<char> { seq!['l', 'o', 'n', 'g', 'i', 't', 'u', 'd', 'e'] }

pub open spec fn lab_width() -> Seq<char> { seq!['w', 'i', 'd', 't', 'h'] }

pub open spec fn lab_height() -> Seq<char> { seq!['h', 'e', 'i', 'g', 'h', 't'] }

pub open spec fn lab_diameter() -> Seq<char> { seq!['d', 'i', 'a', 'm', 'e', 't', 'e', 'r'] }

pub open spec fn lab_format() -> Seq<char> { seq!['f', 'o', 'r', 'm', 'a', 't'] }

pub open spec fn lab_image() -> Seq<char> { seq!['i', 'm', 'a', 'g', 'e'] }

/// A quoted key followed by its colon, as an object writes it.
pub open spec fn kq(name: Seq<char>) -> Seq<char> {
    seq!['"'] + name + seq!['"', ':']
}

/// A complete JSON string: quotes around the escaped content.
pub open spec fn jstr(v: Seq<char>) -> Seq<char> {
    seq!['"'] + esc(v) + seq!['"']
}

// ---------------------------------------------------------------------------
// An object of up to two optional string-valued keys (resolution, GPS)
// ---------------------------------------------------------------------------

pub open spec fn enc_pair_obj(k1: Seq<char>, k2: Seq<char>, a: Option<Seq<char>>, b: Option<Seq<char>>) -> Seq<char> {
    match (a, b) {
        (None, None) => seq!['{', '}'],
        (Some(av), None) => seq!['{'] + kq(k1) + jstr(av) + seq!['}'],
        (None, Some(bv)) => seq!['{'] + kq(k2) + jstr(bv) + seq!['}'],
        (Some(av), Some(bv)) => seq!['{'] + kq(k1) + jstr(av) + seq![','] + kq(k2) + jstr(bv) + seq!['}'],
    }
}

pub proof fn lemma_pair_obj_shape(k1: Seq<char>, k2: Seq<char>, a: Option<Seq<char>>, b: Option<Seq<char>>)
    ensures
        enc_pair_obj(k1, k2, a, b).len() >= 2,
        enc_pair_obj(k1, k2, a, b).first() == '{',
        enc_pair_obj(k1, k2, a, b).last() == '}',
        a is None && b is None ==> enc_pair_obj(k1, k2, a, b) == seq!['{', '}'],
{
}

/// Read such an object off the front of the text, undoing `enc_pair_obj`.
pub open spec fn dec_pair_obj(s: Seq<char>, k1: Seq<char>, k2: Seq<char>) -> Option<(Option<Seq<char>>, Option<Seq<char>>, Seq<char>)> {
    match parse_lit(s, seq!['{', '}']) {
        Some(r) => Some((None, None, r)),
        None => match parse_lit(s, seq!['{'] + kq(k1) + seq!['"']) {
            Some(s1) => match parse_jstr(s1) {
                None => None,
                Some(p) => match parse_lit(p.1, seq!['}']) {
                    Some(r) => Some((Some(p.0), None, r)),
                    None => match parse_lit(p.1, seq![','] + kq(k2) + seq!['"']) {
                        None => None,
                        Some(s2) => match parse_jstr(s2) {
                            None => None,
                            Some(q) => match parse_lit(q.1, seq!['}']) {
                                Some(r) => Some((Some(p.0), Some(q.0), r)),
                                None => None,
                            },
                        },
                    },
                },
            },
            None => match parse_lit(s, seq!['{'] + kq(k2) + seq!['"']) {
                None => None,
                Some(s1) => match parse_jstr(s1) {
                    None => None,
                    Some(p) => match parse_lit(p.1, seq!['}']) {
                        Some(r) => Some((None, Some(p.0), r)),
                        None => None,
                    },
                },
            },
        },
    }
}

#[verifier::rlimit(80)]
pub proof fn lemma_pair_obj_roundtrip(k1: Seq<char>, k2: Seq<char>, d: int, a: Option<Seq<char>>, b: Option<Seq<char>>, rest: Seq<char>)
    requires
        0 <= d < k1.len(),
        d < k2.len(),
        k1[d] != k2[d],
    ensures
        dec_pair_obj(enc_pair_obj(k1, k2, a, b) + rest, k1, k2) == Some((a, b, rest)),
{
    let s = enc_pair_obj(k1, k2, a, b) + rest;
    let lit1 = seq!['{'] + kq(k1) + seq!['"'];
    let lit2 = seq!['{'] + kq(k2) + seq!['"'];
    match (a, b) {
        (None, None) => {
            assert(s =~= seq!['{', '}'] + rest);
            lemma_parse_lit(seq!['{', '}'], rest);
        },
        (Some(av), None) => {
            let tail = esc(av) + seq!['"', '}'] + rest;
            assert(s =~= lit1 + tail);
            assert(s[1] == '"');
            if parse_lit(s, seq!['{', '}']) is Some {
                assert(s.take(2)[1] == s[1]);
                assert(false);
            }
            lemma_parse_lit(lit1, tail);
            assert(tail =~= esc(av) + seq!['"'] + (seq!['}'] + rest));
            lemma_parse_jstr_roundtrip(av, seq!['}'] + rest);
            lemma_parse_lit(seq!['}'], rest);
        },
        (None, Some(bv)) => {
            let tail = esc(bv) + seq!['"', '}'] + rest;
            assert(s =~= lit2 + tail);
            assert(s[1] == '"');
            assert(s[2 + d] == k2[d]);
            if parse_lit(s, seq!['{', '}']) is Some {
                assert(s.take(2)[1] == s[1]);
                assert(false);
            }
            if parse_lit(s, lit1) is Some {
                assert(s.take(lit1.len() as int)[2 + d] == s[2 + d]);
                assert(lit1[2 + d] == k1[d]);
                assert(false);
            }
            lemma_parse_lit(lit2, tail);
            assert(tail =~= esc(bv) + seq!['"'] + (seq!['}'] + rest));
            lemma_parse_jstr_roundtrip(bv, seq!['}'] + rest);
            lemma_parse_lit(seq!['}'], rest);
        },
        (Some(av), Some(bv)) => {
            let mid = seq![','] + kq(k2) + seq!['"'];
            let tail2 = esc(bv) + seq!['"', '}'] + rest;
            let tail = esc(av) + seq!['"'] + (mid + tail2);
            assert(s =~= lit1 + tail);
            assert(s[1] == '"');
            if parse_lit(s, seq!['{', '}']) is Some {
                assert(s.take(2)[1] == s[1]);
                assert(false);
            }
            lemma_parse_lit(lit1, tail);
            lemma_parse_jstr_roundtrip(av, mid + tail2);
            let p1 = mid + tail2;
            assert(p1[0] == ',');
            if parse_lit(p1, seq!['}']) is Some {
                assert(p1.take(1)[0] == p1[0]);
                assert(false);
            }
            lemma_parse_lit(mid, tail2);
            assert(tail2 =~= esc(bv) + seq!['"'] + (seq!['}'] + rest));
            lemma_parse_jstr_roundtrip(bv, seq!['}'] + rest);
            lemma_parse_lit(seq!['}'], rest);
        },
    }
}

// ---------------------------------------------------------------------------
// Resolution: one object wrapped in a one-element array, whatever it holds
// ---------------------------------------------------------------------------

pub open spec fn spec_enc_resolution(x: Option<Seq<char>>, y: Option<Seq<char>>) -> Seq<char> {
    seq!['['] + enc_pair_obj(lab_x(), lab_y(), x, y) + seq![']']
}

pub open spec fn spec_dec_resolution(s: Seq<char>) -> Option<(Option<Seq<char>>, Option<Seq<char>>)> {
    match parse_lit(s, seq!['[']) {
        None => None,
        Some(s1) => match dec_pair_obj(s1, lab_x(), lab_y()) {
            None => None,
            Some(t) => if t.2 == seq![']'] {
                Some((t.0, t.1))
            } else {
                None
            },
        },
    }
}

/// Encoding and then decoding the resolution mapping is the identity.
pub proof fn lemma_resolution_roundtrip(x: Option<Seq<char>>, y: Option<Seq<char>>)
    ensures
        spec_dec_resolution(spec_enc_resolution(x, y)) == Some((x, y)),
{
    let obj = enc_pair_obj(lab_x(), lab_y(), x, y);
    assert(spec_enc_resolution(x, y) =~= seq!['['] + (obj + seq![']']));
    lemma_parse_lit(seq!['['], obj + seq![']']);
    assert(lab_x()[0] == 'x' && lab_y()[0] == 'y');
    lemma_pair_obj_roundtrip(lab_x(), lab_y(), 0, x, y, seq![']']);
}

/// The resolution field is always a one-element array holding one mapping,
/// the empty mapping when both entries are absent.
pub proof fn lemma_resolution_shape(x: Option<Seq<char>>, y: Option<Seq<char>>)
    ensures
        spec_enc_resolution(x, y).first() == '[',
        spec_enc_resolution(x, y).last() == ']',
        spec_enc_resolution(x, y)[1] == '{',
        spec_enc_resolution(x, y)[spec_enc_resolution(x, y).len() - 2] == '}',
        x is None && y is None ==> spec_enc_resolution(x, y) == seq!['[', '{', '}', ']'],
{
    let obj = enc_pair_obj(lab_x(), lab_y(), x, y);
    lemma_pair_obj_shape(lab_x(), lab_y(), x, y);
    let s = spec_enc_resolution(x, y);
    assert(s[1] == obj.first());
    assert(s[s.len() - 2] == obj.last());
    if x is None && y is None {
        assert(s =~= seq!['[', '{', '}', ']']);
    }
}

// ---------------------------------------------------------------------------
// GPS: an empty array when nothing was found, else as the resolution is
// ---------------------------------------------------------------------------

pub open spec fn spec_enc_gps(lat: Option<Seq<char>>, lon: Option<Seq<char>>) -> Seq<char> {
    if lat is None && lon is None {
        seq!['[', ']']
    } else {
        seq!['['] + enc_pair_obj(lab_latitude(), lab_longitude(), lat, lon) + seq![']']
    }
}

pub open spec fn spec_dec_gps(s: Seq<char>) -> Option<(Option<Seq<char>>, Option<Seq<char>>)> {
    if s == seq!['[', ']'] {
        Some((None, None))
    } else {
        match parse_lit(s, seq!['[']) {
            None => None,
            Some(s1) => match dec_pair_obj(s1, lab_latitude(), lab_longitude()) {
                None => None,
                Some(t) => if t.2 == seq![']'] {
                    Some((t.0, t.1))
                } else {
                    None
                },
            },
        }
    }
}

/// Encoding and then decoding the GPS mapping is the identity.
pub proof fn lemma_gps_roundtrip(lat: Option<Seq<char>>, lon: Option<Seq<char>>)
    ensures
        spec_dec_gps(spec_enc_gps(lat, lon)) == Some((lat, lon)),
{
    if lat is None && lon is None {
    } else {
        let obj = enc_pair_obj(lab_latitude(), lab_longitude(), lat, lon);
        let s = spec_enc_gps(lat, lon);
        lemma_pair_obj_shape(lab_latitude(), lab_longitude(), lat, lon);
        assert(s[1] == obj.first());
        assert(s != seq!['[', ']']);
        assert(s =~= seq!['['] + (obj + seq![']']));
        lemma_parse_lit(seq!['['], obj + seq![']']);
        assert(lab_latitude()[1] == 'a' && lab_longitude()[1] == 'o');
        lemma_pair_obj_roundtrip(lab_latitude(), lab_longitude(), 1, lat, lon, seq![']']);
    }
}

/// The GPS field is an empty array exactly when neither coordinate was
/// found, and a one-element array holding one mapping otherwise.
pub proof fn lemma_gps_shape(lat: Option<Seq<char>>, lon: Option<Seq<char>>)
    ensures
        (lat is None && lon is None) <==> spec_enc_gps(lat, lon) == seq!['[', ']'],
        !(lat is None && lon is None) ==> spec_enc_gps(lat, lon)[1] == '{'
            && spec_enc_gps(lat, lon).last() == ']'
            && spec_enc_gps(lat, lon)[spec_enc_gps(lat, lon).len() - 2] == '}',
{
    if !(lat is None && lon is None) {
        let obj = enc_pair_obj(lab_latitude(), lab_longitude(), lat, lon);
        let s = spec_enc_gps(lat, lon);
        lemma_pair_obj_shape(lab_latitude(), lab_longitude(), lat, lon);
        assert(s[1] == obj.first());
        assert(s[s.len() - 2] == obj.last());
        assert(s != seq!['[', ']']);
    }
}

// ---------------------------------------------------------------------------
// Subject area: one mapping of numeric entries; a rectangle and a circle
// are never written together
// ---------------------------------------------------------------------------

pub open spec fn sa_prefix(x: u32, y: u32) -> Seq<char> {
    seq!['{'] + kq(lab_x()) + dec_digits(x as nat) + seq![','] + kq(lab_y()) + dec_digits(y as nat)
}

pub open spec fn spec_enc_subject_area(sa: SubjectArea) -> Seq<char> {
    match sa {
        SubjectArea::Absent => seq!['{', '}'],
        SubjectArea::Point { x, y } => sa_prefix(x, y) + seq!['}'],
        SubjectArea::Rect { x, y, width, height } => sa_prefix(x, y) + seq![','] + kq(lab_width())
            + dec_digits(width as nat) + seq![','] + kq(lab_height()) + dec_digits(height as nat)
            + seq!['}'],
        SubjectArea::Circle { x, y, diameter } => sa_prefix(x, y) + seq![','] + kq(lab_diameter())
            + dec_digits(diameter as nat) + seq!['}'],
    }
}

/// The keys the subject-area mapping is written with.
pub open spec fn spec_sa_keys(sa: SubjectArea) -> Set<Seq<char>> {
    match sa {
        SubjectArea::Absent => Set::empty(),
        SubjectArea::Point { .. } => set![lab_x(), lab_y()],
        SubjectArea::Rect { .. } => set![lab_x(), lab_y(), lab_width(), lab_height()],
        SubjectArea::Circle { .. } => set![lab_x(), lab_y(), lab_diameter()],
    }
}

/// The subject-area mapping never holds a `diameter` key together with a
/// `width` or `height` key.
pub proof fn lemma_subject_area_exclusive(sa: SubjectArea)
    ensures
        !(spec_sa_keys(sa).contains(lab_diameter()) && spec_sa_keys(sa).contains(lab_width())),
        !(spec_sa_keys(sa).contains(lab_diameter()) && spec_sa_keys(sa).contains(lab_height())),
{
    assert(lab_x().len() == 1 && lab_y().len() == 1 && lab_width().len() == 5
        && lab_height().len() == 6 && lab_diameter().len() == 8);
}

pub open spec fn dec_sa_tail(x: nat, y: nat, t: Seq<char>) -> Option<SubjectArea> {
    if x > u32::MAX as nat || y > u32::MAX as nat {
        None
    } else if t == seq!['}'] {
        Some(SubjectArea::Point { x: x as u32, y: y as u32 })
    } else {
        match parse_lit(t, seq![','] + kq(lab_width())) {
            Some(s3) => match parse_nat(s3) {
                None => None,
                Some(pw) => if pw.0 > u32::MAX as nat {
                    None
                } else {
                    match parse_lit(pw.1, seq![','] + kq(lab_height())) {
                        None => None,
                        Some(s4) => match parse_nat(s4) {
                            None => None,
                            Some(ph) => if ph.0 > u32::MAX as nat {
                                None
                            } else if ph.1 == seq!['}'] {
                                Some(SubjectArea::Rect {
                                    x: x as u32,
                                    y: y as u32,
                                    width: pw.0 as u32,
                                    height: ph.0 as u32,
                                })
                            } else {
                                None
                            },
                        },
                    }
                },
            },
            None => match parse_lit(t, seq![','] + kq(lab_diameter())) {
                None => None,
                Some(s3) => match parse_nat(s3) {
                    None => None,
                    Some(pd) => if pd.0 > u32::MAX as nat {
                        None
                    } else if pd.1 == seq!['}'] {
                        Some(SubjectArea::Circle { x: x as u32, y: y as u32, diameter: pd.0 as u32 })
                    } else {
                        None
                    },
                },
            },
        }
    }
}

pub open spec fn spec_dec_subject_area(s: Seq<char>) -> Option<SubjectArea> {
    if s == seq!['{', '}'] {
        Some(SubjectArea::Absent)
    } else {
        match parse_lit(s, seq!['{'] + kq(lab_x())) {
            None => None,
            Some(s1) => match parse_nat(s1) {
                None => None,
                Some(px) => match parse_lit(px.1, seq![','] + kq(lab_y())) {
                    None => None,
                    Some(s2) => match parse_nat(s2) {
                        None => None,
                        Some(py) => dec_sa_tail(px.0, py.0, py.1),
                    },
                },
            },
        }
    }
}

/// Encoding and then decoding the subject-area mapping is the identity.
#[verifier::rlimit(80)]
pub proof fn lemma_subject_area_roundtrip(sa: SubjectArea)
    ensures
        spec_dec_subject_area(spec_enc_subject_area(sa)) == Some(sa),
{
    let s = spec_enc_subject_area(sa);
    match sa {
        SubjectArea::Absent => {},
        SubjectArea::Point { x, y } => {
            lemma_sa_prefix(x, y, seq!['}']);
        },
        SubjectArea::Rect { x, y, width, height } => {
            let t = seq![','] + kq(lab_width()) + dec_digits(width as nat) + seq![','] + kq(lab_height())
                + dec_digits(height as nat) + seq!['}'];
            assert(s =~= sa_prefix(x, y) + t);
            lemma_sa_prefix(x, y, t);
            assert(t.first() == ',');
            assert(t != seq!['}']);
            let tail1 = dec_digits(width as nat) + (seq![','] + kq(lab_height()) + dec_digits(height as nat) + seq!['}']);
            assert(t =~= (seq![','] + kq(lab_width())) + tail1);
            lemma_parse_lit(seq![','] + kq(lab_width()), tail1);
            assert(tail1 =~= dec_digits(width as nat) + (seq![','] + kq(lab_height()) + dec_digits(height as nat) + seq!['}']));
            lemma_parse_nat_roundtrip(width as nat, seq![','] + kq(lab_height()) + dec_digits(height as nat) + seq!['}']);
            let tail2 = dec_digits(height as nat) + seq!['}'];
            assert(seq![','] + kq(lab_height()) + dec_digits(height as nat) + seq!['}'] =~= (seq![','] + kq(lab_height())) + tail2);
            lemma_parse_lit(seq![','] + kq(lab_height()), tail2);
            assert(tail2 =~= dec_digits(height as nat) + seq!['}']);
            lemma_parse_nat_roundtrip(height as nat, seq!['}']);
        },
        SubjectArea::Circle { x, y, diameter } => {
            let t = seq![','] + kq(lab_diameter()) + dec_digits(diameter as nat) + seq!['}'];
            assert(s =~= sa_prefix(x, y) + t);
            lemma_sa_prefix(x, y, t);
            assert(t.first() == ',');
            assert(t != seq!['}']);
            let litw = seq![','] + kq(lab_width());
            assert(t[2] == 'd');
            assert(litw[2] == 'w');
            if parse_lit(t, litw) is Some {
                assert(t.take(litw.len() as int)[2] == t[2]);
                assert(false);
            }
            let tail1 = dec_digits(diameter as nat) + seq!['}'];
            assert(t =~= (seq![','] + kq(lab_diameter())) + tail1);
            lemma_parse_lit(seq![','] + kq(lab_diameter()), tail1);
            assert(tail1 =~= dec_digits(diameter as nat) + seq!['}']);
            lemma_parse_nat_roundtrip(diameter as nat, seq!['}']);
        },
    }
}

/// The front of every non-absent subject-area encoding parses back to its
/// `x` and `y` entries, leaving the tail.
proof fn lemma_sa_prefix(x: u32, y: u32, t: Seq<char>)
    requires
        t.len() == 0 || !is_digit(t.first()),
    ensures
        sa_prefix(x, y) + t != seq!['{', '}'],
        parse_lit(sa_prefix(x, y) + t, seq!['{'] + kq(lab_x())) is Some,
        ({
            let s1 = parse_lit(sa_prefix(x, y) + t, seq!['{'] + kq(lab_x()))->Some_0;
            &&& parse_nat(s1) == Some((x as nat, (seq![','] + kq(lab_y()) + dec_digits(y as nat)) + t))
            &&& parse_lit((seq![','] + kq(lab_y()) + dec_digits(y as nat)) + t, seq![','] + kq(lab_y()))
                == Some(dec_digits(y as nat) + t)
            &&& parse_nat(dec_digits(y as nat) + t) == Some((y as nat, t))
        }),
{
    let s = sa_prefix(x, y) + t;
    assert(s[1] == '"');
    let tail0 = dec_digits(x as nat) + ((seq![','] + kq(lab_y()) + dec_digits(y as nat)) + t);
    assert(s =~= (seq!['{'] + kq(lab_x())) + tail0);
    lemma_parse_lit(seq!['{'] + kq(lab_x()), tail0);
    lemma_parse_nat_roundtrip(x as nat, (seq![','] + kq(lab_y()) + dec_digits(y as nat)) + t);
    let tail1 = dec_digits(y as nat) + t;
    assert((seq![','] + kq(lab_y()) + dec_digits(y as nat)) + t =~= (seq![','] + kq(lab_y())) + tail1);
    lemma_parse_lit(seq![','] + kq(lab_y()), tail1);
    lemma_dec_digits_are_digits(y as nat);
    lemma_parse_nat_roundtrip(y as nat, t);
}

// ---------------------------------------------------------------------------
// Thumbnails: an array of four-entry mappings
// ---------------------------------------------------------------------------

pub open spec fn enc_thumb(t: ThumbnailV) -> Seq<char> {
    seq!['{'] + kq(lab_format()) + jstr(t.format) + seq![','] + kq(lab_width()) + jstr(t.width)
        + seq![','] + kq(lab_height()) + jstr(t.height) + seq![','] + kq(lab_image()) + jstr(t.image)
        + seq!['}']
}

pub open spec fn enc_thumb_list(ts: Seq<ThumbnailV>) -> Seq<char>
    decreases ts.len(),
{
    if ts.len() == 0 {
        Seq::empty()
    } else if ts.len() == 1 {
        enc_thumb(ts[0])
    } else {
        enc_thumb(ts.first()) + seq![','] + enc_thumb_list(ts.drop_first())
    }
}

pub open spec fn spec_enc_thumbnails(ts: Seq<ThumbnailV>) -> Seq<char> {
    seq!['['] + enc_thumb_list(ts) + seq![']']
}

pub open spec fn dec_thumb(s: Seq<char>) -> Option<(ThumbnailV, Seq<char>)> {
    match parse_lit(s, seq!['{'] + kq(lab_format()) + seq!['"']) {
        None => None,
        Some(s1) => match parse_jstr(s1) {
            None => None,
            Some(pf) => match parse_lit(pf.1, seq![','] + kq(lab_width()) + seq!['"']) {
                None => None,
                Some(s2) => match parse_jstr(s2) {
                    None => None,
                    Some(pw) => match parse_lit(pw.1, seq![','] + kq(lab_height()) + seq!['"']) {
                        None => None,
                        Some(s3) => match parse_jstr(s3) {
                            None => None,
                            Some(ph) => match parse_lit(ph.1, seq![','] + kq(lab_image()) + seq!['"']) {
                                None => None,
                                Some(s4) => match parse_jstr(s4) {
                                    None => None,
                                    Some(pi) => match parse_lit(pi.1, seq!['}']) {
                                        None => None,
                                        Some(r) => Some((
                                            ThumbnailV {
                                                format: pf.0,
                                                width: pw.0,
                                                height: ph.0,
                                                image: pi.0,
                                            },
                                            r,
                                        )),
                                    },
                                },
                            },
                        },
                    },
                },
            },
        },
    }
}

pub open spec fn dec_thumb_list(s: Seq<char>) -> Option<(Seq<ThumbnailV>, Seq<char>)>
    decreases s.len(),
{
    match dec_thumb(s) {
        None => None,
        Some(p) => if p.1.len() > 0 && p.1.first() == ',' {
            if p.1.drop_first().len() < s.len() {
                match dec_thumb_list(p.1.drop_first()) {
                    None => None,
                    Some(q) => Some((seq![p.0] + q.0, q.1)),
                }
            } else {
                None
            }
        } else {
            Some((seq![p.0], p.1))
        },
    }
}

pub open spec fn spec_dec_thumbnails(s: Seq<char>) -> Option<Seq<ThumbnailV>> {
    if s == seq!['[', ']'] {
        Some(Seq::empty())
    } else {
        match parse_lit(s, seq!['[']) {
            None => None,
            Some(s1) => match dec_thumb_list(s1) {
                None => None,
                Some(p) => if p.1 == seq![']'] {
                    Some(p.0)
                } else {
                    None
                },
            },
        }
    }
}

#[verifier::rlimit(80)]
proof fn lemma_thumb_roundtrip(t: ThumbnailV, rest: Seq<char>)
    ensures
        dec_thumb(enc_thumb(t) + rest) == Some((t, rest)),
        (enc_thumb(t) + rest).first() == '{',
{
    let s = enc_thumb(t) + rest;
    let lit1 = seq!['{'] + kq(lab_format()) + seq!['"'];
    let m1 = seq![','] + kq(lab_width()) + seq!['"'];
    let m2 = seq![','] + kq(lab_height()) + seq!['"'];
    let m3 = seq![','] + kq(lab_image()) + seq!['"'];
    let t4 = esc(t.image) + seq!['"'] + (seq!['}'] + rest);
    let t3 = esc(t.height) + seq!['"'] + (m3 + t4);
    let t2 = esc(t.width) + seq!['"'] + (m2 + t3);
    let t1 = esc(t.format) + seq!['"'] + (m1 + t2);
    assert(s =~= lit1 + t1);
    lemma_parse_lit(lit1, t1);
    lemma_parse_jstr_roundtrip(t.format, m1 + t2);
    lemma_parse_lit(m1, t2);
    lemma_parse_jstr_roundtrip(t.width, m2 + t3);
    lemma_parse_lit(m2, t3);
    lemma_parse_jstr_roundtrip(t.height, m3 + t4);
    lemma_parse_lit(m3, t4);
    lemma_parse_jstr_roundtrip(t.image, seq!['}'] + rest);
    lemma_parse_lit(seq!['}'], rest);
}

#[verifier::rlimit(100)]
proof fn lemma_thumb_list_roundtrip(ts: Seq<ThumbnailV>, rest: Seq<char>)
    requires
        ts.len() > 0,
        rest.len() == 0 || rest.first() != ',',
    ensures
        dec_thumb_list(enc_thumb_list(ts) + rest) == Some((ts, rest)),
    decreases ts.len(),
{
    if ts.len() == 1 {
        lemma_thumb_roundtrip(ts[0], rest);
        assert(enc_thumb_list(ts) + rest =~= enc_thumb(ts[0]) + rest);
        assert(seq![ts[0]] =~= ts);
    } else {
        let s = enc_thumb_list(ts) + rest;
        let r = seq![','] + (enc_thumb_list(ts.drop_first()) + rest);
        assert(s =~= enc_thumb(ts.first()) + r);
        lemma_thumb_roundtrip(ts.first(), r);
        assert(r.first() == ',');
        assert(enc_thumb(ts.first()).len() > 0);
        assert(r.drop_first() =~= enc_thumb_list(ts.drop_first()) + rest);
        lemma_thumb_list_roundtrip(ts.drop_first(), rest);
        assert(seq![ts.first()] + ts.drop_first() =~= ts);
    }
}

/// Encoding and then decoding the thumbnail list is the identity.
#[verifier::rlimit(80)]
pub proof fn lemma_thumbnails_roundtrip(ts: Seq<ThumbnailV>)
    ensures
        spec_dec_thumbnails(spec_enc_thumbnails(ts)) == Some(ts),
{
    let s = spec_enc_thumbnails(ts);
    if ts.len() == 0 {
        assert(s =~= seq!['[', ']']);
    } else {
        lemma_thumb_roundtrip(ts.first(), Seq::empty());
        assert(enc_thumb_list(ts).first() == '{') by {
            if ts.len() == 1 {
                lemma_thumb_roundtrip(ts[0], Seq::empty());
            } else {
                lemma_thumb_roundtrip(ts.first(), seq![','] + (enc_thumb_list(ts.drop_first())));
            }
        }
        assert(s[1] == enc_thumb_list(ts).first());
        assert(s != seq!['[', ']']);
        assert(s =~= seq!['['] + (enc_thumb_list(ts) + seq![']']));
        lemma_parse_lit(seq!['['], enc_thumb_list(ts) + seq![']']);
        lemma_thumb_list_roundtrip(ts, seq![']']);
    }
}

// ---------------------------------------------------------------------------
// Executable rendering
// ---------------------------------------------------------------------------

pub open spec fn opt_view(o: Option<String>) -> Option<Seq<char>> {
    match o {
        Some(s) => Some(s@),
        None => None,
    }
}

fn push_chars(out: &mut Vec<char>, cs: &Vec<char>)
    ensures
        final(out)@ == old(out)@ + cs@,
{
    let ghost orig = out@;
    let mut i: usize = 0;
    while i < cs.len()
        invariant
            i <= cs@.len(),
            out@ == orig + cs@.take(i as int),
        decreases cs@.len() - i,
    {
        out.push(cs[i]);
        proof {
            assert(cs@.take(i + 1 as int) =~= cs@.take(i as int).push(cs@[i as int]));
            assert(out@ =~= orig + cs@.take(i + 1 as int));
        }
        i = i + 1;
    }
    assert(cs@.take(cs@.len() as int) =~= cs@);
}

/// Append a quoted key and its colon.
fn push_kq(out: &mut Vec<char>, name: &str)
    ensures
        final(out)@ == old(out)@ + kq(name@),
{
    out.push('"');
    let cs = crate::text::chars_of_str(name);
    push_chars(out, &cs);
    out.push('"');
    out.push(':');
    assert(out@ =~= old(out)@ + kq(name@));
}

/// Append a complete JSON string value.
fn push_jstr_val(out: &mut Vec<char>, v: &String)
    ensures
        final(out)@ == old(out)@ + jstr(v@),
{
    out.push('"');
    let cs = crate::text::chars_of_str(v.as_str());
    push_escaped(out, &cs);
    out.push('"');
    assert(out@ =~= old(out)@ + jstr(v@));
}

fn push_pair_obj(out: &mut Vec<char>, k1: &str, k2: &str, a: &Option<String>, b: &Option<String>)
    ensures
        final(out)@ == old(out)@ + enc_pair_obj(k1@, k2@, opt_view(*a), opt_view(*b)),
{
    let ghost orig = out@;
    out.push('{');
    match (a, b) {
        (None, None) => {
            out.push('}');
            assert(out@ =~= orig + enc_pair_obj(k1@, k2@, opt_view(*a), opt_view(*b)));
        },
        (Some(av), None) => {
            push_kq(out, k1);
            push_jstr_val(out, av);
            out.push('}');
            assert(out@ =~= orig + enc_pair_obj(k1@, k2@, opt_view(*a), opt_view(*b)));
        },
        (None, Some(bv)) => {
            push_kq(out, k2);
            push_jstr_val(out, bv);
            out.push('}');
            assert(out@ =~= orig + enc_pair_obj(k1@, k2@, opt_view(*a), opt_view(*b)));
        },
        (Some(av), Some(bv)) => {
            push_kq(out, k1);
            push_jstr_val(out, av);
            out.push(',');
            push_kq(out, k2);
            push_jstr_val(out, bv);
            out.push('}');
            assert(out@ =~= orig + enc_pair_obj(k1@, k2@, opt_view(*a), opt_view(*b)));
        },
    }
}

/// Render the resolution mapping: always one mapping inside a one-element
/// array, holding whichever of `x` and `y` were found.
pub fn encode_resolution(x: &Option<String>, y: &Option<String>) -> (r: String)
    ensures
        r@ == spec_enc_resolution(opt_view(*x), opt_view(*y)),
{
    let mut out: Vec<char> = Vec::new();
    out.push('[');
    push_pair_obj(&mut out, "x", "y", x, y);
    out.push(']');
    proof {
        reveal_strlit("x");
        reveal_strlit("y");
        assert("x"@ =~= lab_x());
        assert("y"@ =~= lab_y());
        assert(out@ =~= spec_enc_resolution(opt_view(*x), opt_view(*y)));
    }
    crate::text::string_of_chars(&out)
}

/// Render the GPS mapping: an empty array when nothing was found, else one
/// mapping inside a one-element array.
pub fn encode_gps(lat: &Option<String>, lon: &Option<String>) -> (r: String)
    ensures
        r@ == spec_enc_gps(opt_view(*lat), opt_view(*lon)),
{
    let mut out: Vec<char> = Vec::new();
    out.push('[');
    match (lat, lon) {
        (None, None) => {
            out.push(']');
            assert(out@ =~= spec_enc_gps(opt_view(*lat), opt_view(*lon)));
        },
        _ => {
            push_pair_obj(&mut out, "latitude", "longitude", lat, lon);
            out.push(']');
            proof {
                reveal_strlit("latitude");
                reveal_strlit("longitude");
                assert("latitude"@ =~= lab_latitude());
                assert("longitude"@ =~= lab_longitude());
                assert(out@ =~= spec_enc_gps(opt_view(*lat), opt_view(*lon)));
            }
        },
    }
    crate::text::string_of_chars(&out)
}

fn push_sa_prefix(out: &mut Vec<char>, x: u32, y: u32)
    ensures
        final(out)@ == old(out)@ + sa_prefix(x, y),
{
    out.push('{');
    push_kq(out, "x");
    push_u32(out, x);
    out.push(',');
    push_kq(out, "y");
    push_u32(out, y);
    proof {
        reveal_strlit("x");
        reveal_strlit("y");
        assert("x"@ =~= lab_x());
        assert("y"@ =~= lab_y());
        assert(out@ =~= old(out)@ + sa_prefix(x, y));
    }
}

/// Render the subject-area mapping.
pub fn encode_subject_area(sa: &SubjectArea) -> (r: String)
    ensures
        r@ == spec_enc_subject_area(*sa),
{
    let mut out: Vec<char> = Vec::new();
    match *sa {
        SubjectArea::Absent => {
            out.push('{');
            out.push('}');
            assert(out@ =~= spec_enc_subject_area(*sa));
        },
        SubjectArea::Point { x, y } => {
            push_sa_prefix(&mut out, x, y);
            out.push('}');
            assert(out@ =~= spec_enc_subject_area(*sa));
        },
        SubjectArea::Rect { x, y, width, height } => {
            push_sa_prefix(&mut out, x, y);
            out.push(',');
            push_kq(&mut out, "width");
            push_u32(&mut out, width);
            out.push(',');
            push_kq(&mut out, "height");
            push_u32(&mut out, height);
            out.push('}');
            proof {
                reveal_strlit("width");
                reveal_strlit("height");
                assert("width"@ =~= lab_width());
                assert("height"@ =~= lab_height());
                assert(out@ =~= spec_enc_subject_area(*sa));
            }
        },
        SubjectArea::Circle { x, y, diameter } => {
            push_sa_prefix(&mut out, x, y);
            out.push(',');
            push_kq(&mut out, "diameter");
            push_u32(&mut out, diameter);
            out.push('}');
            proof {
                reveal_strlit("diameter");
                assert("diameter"@ =~= lab_diameter());
                assert(out@ =~= spec_enc_subject_area(*sa));
            }
        },
    }
    crate::text::string_of_chars(&out)
}

fn push_thumb(out: &mut Vec<char>, t: &Thumbnail)
    ensures
        final(out)@ == old(out)@ + enc_thumb(t@),
{
    out.push('{');
    push_kq(out, "format");
    push_jstr_val(out, &t.format);
    out.push(',');
    push_kq(out, "width");
    push_jstr_val(out, &t.width);
    out.push(',');
    push_kq(out, "height");
    push_jstr_val(out, &t.height);
    out.push(',');
    push_kq(out, "image");
    push_jstr_val(out, &t.image);
    out.push('}');
    proof {
        reveal_strlit("format");
        reveal_strlit("width");
        reveal_strlit("height");
        reveal_strlit("image");
        assert("format"@ =~= lab_format());
        assert("width"@ =~= lab_width());
        assert("height"@ =~= lab_height());
        assert("image"@ =~= lab_image());
        assert(out@ =~= old(out)@ + enc_thumb(t@));
    }
}

proof fn lemma_thumb_list_snoc(ts: Seq<ThumbnailV>, t: ThumbnailV)
    ensures
        ts.len() == 0 ==> enc_thumb_list(ts.push(t)) == enc_thumb(t),
        ts.len() > 0 ==> enc_thumb_list(ts.push(t)) == enc_thumb_list(ts) + seq![','] + enc_thumb(t),
    decreases ts.len(),
{
    if ts.len() == 0 {
        assert(ts.push(t) =~= seq![t]);
        assert(enc_thumb_list(seq![t]) == enc_thumb(seq![t][0]));
    } else {
        assert(ts.push(t).len() >= 2);
        assert(ts.push(t).first() == ts.first());
        assert(ts.push(t).drop_first() =~= ts.drop_first().push(t));
        lemma_thumb_list_snoc(ts.drop_first(), t);
        if ts.len() == 1 {
            assert(enc_thumb_list(ts.push(t)) =~= enc_thumb_list(ts) + seq![','] + enc_thumb(t));
        } else {
            assert(enc_thumb_list(ts.push(t)) =~= enc_thumb_list(ts) + seq![','] + enc_thumb(t));
        }
    }
}

/// Render the thumbnail list: an array of four-entry mappings, empty when
/// none were found.
pub fn encode_thumbnails(ts: &Vec<Thumbnail>) -> (r: String)
    ensures
        r@ == spec_enc_thumbnails(thumbs_view(ts@)),
{
    let mut out: Vec<char> = Vec::new();
    out.push('[');
    let mut i: usize = 0;
    assert(thumbs_view(ts@.take(0)) =~= Seq::empty());
    while i < ts.len()
        invariant
            i <= ts@.len(),
            out@ == seq!['['] + enc_thumb_list(thumbs_view(ts@.take(i as int))),
        decreases ts@.len() - i,
    {
        if i > 0 {
            out.push(',');
        }
        push_thumb(&mut out, &ts[i]);
        proof {
            let prev = thumbs_view(ts@.take(i as int));
            assert(thumbs_view(ts@.take(i + 1 as int)) =~= prev.push(ts@[i as int]@));
            lemma_thumb_list_snoc(prev, ts@[i as int]@);
            assert(prev.len() == i);
            assert(out@ =~= seq!['['] + enc_thumb_list(thumbs_view(ts@.take(i + 1 as int))));
        }
        i = i + 1;
    }
    out.push(']');
    proof {
        assert(ts@.take(ts@.len() as int) =~= ts@);
        assert(out@ =~= spec_enc_thumbnails(thumbs_view(ts@)));
    }
    crate::text::string_of_chars(&out)
}

} // verus!
