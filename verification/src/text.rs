//! Rendering of numbers to decimal and fixed-width hexadecimal text, and
//! parsing of operator-typed numbers, as the console protocol needs them.

use vstd::prelude::*;
use vstd::utf8::{
    decode_first_scalar, is_continuation_byte, is_leading_byte_width_1, is_leading_byte_width_2,
    is_leading_byte_width_3, is_leading_byte_width_4, length_of_first_scalar, pop_first_scalar,
    valid_first_scalar,
};

verus! {

/// Relies on `String::push`: appends the given character to the end of the
/// string.
#[verifier::external_body]
pub fn push_char(s: &mut String, c: char)
    ensures
        final(s)@ == old(s)@.push(c),
{
    s.push(c)
}

/// The hexadecimal digit character for a value below 16.
pub open spec fn hex_char_of(d: nat) -> char {
    if d == 0 {
        '0'
    } else if d == 1 {
        '1'
    } else if d == 2 {
        '2'
    } else if d == 3 {
        '3'
    } else if d == 4 {
        '4'
    } else if d == 5 {
        '5'
    } else if d == 6 {
        '6'
    } else if d == 7 {
        '7'
    } else if d == 8 {
        '8'
    } else if d == 9 {
        '9'
    } else if d == 10 {
        'a'
    } else if d == 11 {
        'b'
    } else if d == 12 {
        'c'
    } else if d == 13 {
        'd'
    } else if d == 14 {
        'e'
    } else {
        'f'
    }
}

/// The hexadecimal rendering of `n` with exactly `digits` digits, most
/// significant first; high digits beyond the width are dropped.
pub open spec fn hex_seq(n: nat, digits: nat) -> Seq<char>
    decreases digits,
{
    if digits == 0 {
        Seq::empty()
    } else {
        hex_seq(n / 16, (digits - 1) as nat).push(hex_char_of(n % 16))
    }
}

/// The decimal rendering of `n`, without leading zeros (a single `'0'` for
/// zero).
pub open spec fn dec_seq(n: nat) -> Seq<char>
    decreases n,
{
    if n < 10 {
        seq![hex_char_of(n)]
    } else {
        dec_seq(n / 10).push(hex_char_of(n % 10))
    }
}

/// The digit character for a value below 16.
pub fn hex_char(d: u8) -> (c: char)
    requires
        d < 16,
    ensures
        c == hex_char_of(d as nat),
{
    match d {
        0 => '0',
        1 => '1',
        2 => '2',
        3 => '3',
        4 => '4',
        5 => '5',
        6 => '6',
        7 => '7',
        8 => '8',
        9 => '9',
        10 => 'a',
        11 => 'b',
        12 => 'c',
        13 => 'd',
        14 => 'e',
        _ => 'f',
    }
}

/// Appends the fixed-width hexadecimal rendering of `n` to `out`.
pub fn push_hex(out: &mut String, n: u32, digits: usize)
    ensures
        final(out)@ == old(out)@ + hex_seq(n as nat, digits as nat),
    decreases digits,
{
    if digits > 0 {
        push_hex(out, n / 16, digits - 1);
        let c = hex_char((n % 16) as u8);
        push_char(out, c);
        assert(final(out)@ =~= old(out)@ + hex_seq(n as nat, digits as nat));
    } else {
        assert(final(out)@ =~= old(out)@ + hex_seq(n as nat, digits as nat));
    }
}

/// Appends the decimal rendering of `n` to `out`.
pub fn push_dec(out: &mut String, n: u32)
    ensures
        final(out)@ == old(out)@ + dec_seq(n as nat),
    decreases n,
{
    if n < 10 {
        let c = hex_char(n as u8);
        push_char(out, c);
        assert(final(out)@ =~= old(out)@ + dec_seq(n as nat));
    } else {
        push_dec(out, n / 10);
        let c = hex_char((n % 10) as u8);
        push_char(out, c);
        assert(final(out)@ =~= old(out)@ + dec_seq(n as nat));
    }
}

/// The fixed-width hexadecimal rendering of `n` as a fresh string.
pub fn to_hex_string(n: u32, digits: usize) -> (r: String)
    ensures
        r@ == hex_seq(n as nat, digits as nat),
{
    let mut out = String::new();
    push_hex(&mut out, n, digits);
    assert(out@ =~= hex_seq(n as nat, digits as nat));
    out
}

/// The decimal rendering of `n` as a fresh string.
pub fn to_dec_string(n: u32) -> (r: String)
    ensures
        r@ == dec_seq(n as nat),
{
    let mut out = String::new();
    push_dec(&mut out, n);
    assert(out@ =~= dec_seq(n as nat));
    out
}

/// The blanks the console trims and splits on.
pub open spec fn is_space_char(c: char) -> bool {
    c == ' ' || c == '\t' || c == '\r' || c == '\n'
}

/// `s` without its leading blanks.
pub open spec fn trim_start_spec(s: Seq<char>) -> Seq<char>
    decreases s.len(),
{
    if s.len() > 0 && is_space_char(s[0]) {
        trim_start_spec(s.drop_first())
    } else {
        s
    }
}

/// `s` without its trailing blanks.
pub open spec fn trim_end_spec(s: Seq<char>) -> Seq<char>
    decreases s.len(),
{
    if s.len() > 0 && is_space_char(s.last()) {
        trim_end_spec(s.drop_last())
    } else {
        s
    }
}

/// `s` without blanks on either end.
pub open spec fn trim_spec(s: Seq<char>) -> Seq<char> {
    trim_end_spec(trim_start_spec(s))
}

/// Whether a character is one of the console's blanks.
fn is_space(c: char) -> (r: bool)
    ensures
        r == is_space_char(c),
{
    c == ' ' || c == '\t' || c == '\r' || c == '\n'
}

/// Strips blanks from both ends of a string.
pub fn trim(s: &str) -> (r: String)
    ensures
        r@ == trim_spec(s@),
{
    let n = s.unicode_len();
    let mut a: usize = 0;
    proof {
        assert(s@.skip(0) =~= s@);
    }
    while a < n && is_space(s.get_char(a))
        invariant
            a <= n,
            n == s@.len(),
            trim_start_spec(s@) == trim_start_spec(s@.skip(a as int)),
        decreases n - a,
    {
        proof {
            assert(s@.skip(a as int)[0] == s@[a as int]);
            assert(s@.skip(a as int).drop_first() =~= s@.skip(a as int + 1));
        }
        a = a + 1;
    }
    proof {
        if a < n {
            assert(s@.skip(a as int)[0] == s@[a as int]);
        }
        assert(trim_start_spec(s@) == s@.skip(a as int));
    }
    let mut b: usize = n;
    proof {
        assert(s@.skip(a as int).take(n as int - a as int) =~= s@.skip(a as int));
    }
    while b > a && is_space(s.get_char(b - 1))
        invariant
            a <= b <= n,
            n == s@.len(),
            trim_start_spec(s@) == s@.skip(a as int),
            trim_end_spec(s@.skip(a as int)) == trim_end_spec(
                s@.skip(a as int).take(b as int - a as int),
            ),
        decreases b,
    {
        proof {
            let t = s@.skip(a as int).take(b as int - a as int);
            assert(t.last() == s@[b as int - 1]);
            assert(t.drop_last() =~= s@.skip(a as int).take(b as int - 1 - a as int));
        }
        b = b - 1;
    }
    proof {
        let t = s@.skip(a as int).take(b as int - a as int);
        if b > a {
            assert(t.last() == s@[b as int - 1]);
        }
        assert(trim_end_spec(t) == t);
        assert(s@.subrange(a as int, b as int) =~= t);
    }
    let piece = s.substring_char(a, b);
    piece.to_owned()
}

/// Parses one operator-typed number token: trimmed, `0x`-prefixed for
/// hexadecimal, plain for decimal; `None` for anything malformed or
/// beyond 32 bits.
pub fn parse_number_token(s: &str) -> (r: Option<u32>)
    ensures
        match r {
            Some(v) => {
                let t = trim_spec(s@);
                if t.len() >= 2 && t[0] == '0' && t[1] == 'x' {
                    valid_number(t.skip(2), 16) && radix_value(t.skip(2), 16) <= u32::MAX && v
                        == radix_value(t.skip(2), 16)
                } else {
                    valid_number(t, 10) && radix_value(t, 10) <= u32::MAX && v == radix_value(
                        t,
                        10,
                    )
                }
            },
            None => {
                let t = trim_spec(s@);
                if t.len() >= 2 && t[0] == '0' && t[1] == 'x' {
                    !(valid_number(t.skip(2), 16) && radix_value(t.skip(2), 16) <= u32::MAX)
                } else {
                    !(valid_number(t, 10) && radix_value(t, 10) <= u32::MAX)
                }
            },
        },
{
    let trimmed = trim(s);
    let t = trimmed.as_str();
    let n = t.unicode_len();
    if n >= 2 && t.get_char(0) == '0' && t.get_char(1) == 'x' {
        let digits = t.substring_char(2, n);
        proof {
            assert(digits@ =~= trim_spec(s@).skip(2));
        }
        parse_u32_radix(digits, 16)
    } else {
        parse_u32_radix(t, 10)
    }
}

/// How a string falls apart at commas: always at least one piece, and
/// one more piece per comma.
pub open spec fn split_commas_spec(s: Seq<char>) -> Seq<Seq<char>>
    decreases s.len(),
{
    if s.len() == 0 {
        seq![Seq::<char>::empty()]
    } else if s.last() == ',' {
        split_commas_spec(s.drop_last()).push(Seq::<char>::empty())
    } else {
        let ps = split_commas_spec(s.drop_last());
        ps.update(ps.len() - 1, ps.last().push(s.last()))
    }
}

/// A comma split never produces an empty piece list.
pub proof fn lemma_split_commas_nonempty(s: Seq<char>)
    ensures
        split_commas_spec(s).len() >= 1,
    decreases s.len(),
{
    if s.len() > 0 {
        lemma_split_commas_nonempty(s.drop_last());
    }
}

/// Splits a string at its commas; the pieces keep their blanks.
pub fn split_commas(s: &str) -> (r: Vec<String>)
    ensures
        r.deep_view() == split_commas_spec(s@),
{
    let n = s.unicode_len();
    let mut pieces: Vec<String> = Vec::new();
    let mut cur = String::new();
    let mut i: usize = 0;
    proof {
        assert(s@.take(0) =~= Seq::<char>::empty());
        assert(pieces.deep_view().push(cur@) =~= split_commas_spec(s@.take(0)));
    }
    while i < n
        invariant
            i <= n,
            n == s@.len(),
            pieces.deep_view().push(cur@) == split_commas_spec(s@.take(i as int)),
        decreases n - i,
    {
        let c = s.get_char(i);
        proof {
            assert(s@.take(i as int + 1).drop_last() =~= s@.take(i as int));
            assert(s@.take(i as int + 1).last() == s@[i as int]);
            lemma_split_commas_nonempty(s@.take(i as int));
        }
        if c == ',' {
            pieces.push(cur);
            cur = String::new();
            proof {
                assert(pieces.deep_view().push(cur@) =~= split_commas_spec(
                    s@.take(i as int + 1),
                ));
            }
        } else {
            push_char(&mut cur, c);
            proof {
                let prev = split_commas_spec(s@.take(i as int));
                assert(prev.last() == cur@.drop_last());
                assert(pieces.deep_view().push(cur@) =~= prev.update(
                    prev.len() - 1,
                    prev.last().push(s@[i as int]),
                ));
            }
        }
        i = i + 1;
    }
    proof {
        assert(s@.take(n as int) =~= s@);
    }
    pieces.push(cur);
    proof {
        assert(pieces.deep_view() =~= split_commas_spec(s@));
    }
    pieces
}

/// The words the console uses for the two truth values.
pub open spec fn bool_seq(b: bool) -> Seq<char> {
    if b {
        "true"@
    } else {
        "false"@
    }
}

/// Renders a truth value the way the console prints it.
pub fn bool_to_string(b: bool) -> (r: String)
    ensures
        r@ == bool_seq(b),
{
    if b {
        String::from_str("true")
    } else {
        String::from_str("false")
    }
}

/// The numeric value of a digit character; 16 for anything that is no
/// hexadecimal digit.
pub open spec fn digit_val(c: char) -> nat {
    if '0' <= c <= '9' {
        ((c as int) - ('0' as int)) as nat
    } else if 'a' <= c <= 'f' {
        ((c as int) - ('a' as int) + 10) as nat
    } else if 'A' <= c <= 'F' {
        ((c as int) - ('A' as int) + 10) as nat
    } else {
        16
    }
}

/// Whether `c` is a digit under `radix`.
pub open spec fn is_digit(c: char, radix: nat) -> bool {
    digit_val(c) < radix
}

/// The number that a digit string denotes under `radix`; characters that
/// are no digits contribute their `digit_val` all the same, so the
/// function is total.
pub open spec fn radix_value(s: Seq<char>, radix: nat) -> nat
    decreases s.len(),
{
    if s.len() == 0 {
        0
    } else {
        radix_value(s.drop_last(), radix) * radix + digit_val(s.last())
    }
}

/// Whether `s` is a well-formed number under `radix`: non-empty and all
/// digits.
pub open spec fn valid_number(s: Seq<char>, radix: nat) -> bool {
    s.len() > 0 && forall|k: int| 0 <= k < s.len() ==> is_digit(s[k], radix)
}

/// Growing a digit string never shrinks its value.
proof fn lemma_radix_value_grows(s: Seq<char>, i: int, radix: nat)
    requires
        0 <= i <= s.len(),
        radix >= 1,
    ensures
        radix_value(s.take(i), radix) <= radix_value(s, radix),
    decreases s.len() - i,
{
    if i < s.len() {
        assert(s.take(i + 1).drop_last() =~= s.take(i));
        assert(radix_value(s.take(i + 1), radix) == radix_value(s.take(i), radix) * radix
            + digit_val(s.take(i + 1).last()));
        assert(radix_value(s.take(i), radix) * radix >= radix_value(s.take(i), radix) * 1)
            by (nonlinear_arith)
            requires radix >= 1;
        lemma_radix_value_grows(s, i + 1, radix);
    } else {
        assert(s.take(i) =~= s);
    }
}

/// The numeric value of a digit character, 16 when it is none.
pub fn digit_of(c: char, radix: u32) -> (d: u32)
    requires
        radix == 10 || radix == 16,
    ensures
        d == if digit_val(c) < radix { digit_val(c) } else { 16nat },
        (d < radix) == is_digit(c, radix as nat),
{
    let v: u32 = if '0' <= c && c <= '9' {
        (c as u32) - ('0' as u32)
    } else if 'a' <= c && c <= 'f' {
        (c as u32) - ('a' as u32) + 10
    } else if 'A' <= c && c <= 'F' {
        (c as u32) - ('A' as u32) + 10
    } else {
        16
    };
    if v < radix {
        v
    } else {
        16
    }
}

/// Relies on `char::from_u32`: `Some` of the character with that code
/// exactly for Unicode scalar values, `None` for surrogates and values
/// beyond the Unicode range.
pub assume_specification[ char::from_u32 ](i: u32) -> (c: Option<char>)
    ensures
        (0xD800 <= i <= 0xDFFF || i > 0x10FFFF) ==> c is None,
        !(0xD800 <= i <= 0xDFFF || i > 0x10FFFF) ==> c == Some(i as char),
;

/// The four-character escape a byte gets when it cannot be decoded:
/// a backslash, an `x`, and two hexadecimal digits.
pub open spec fn escape_byte(b: u8) -> Seq<char> {
    seq!['\\', 'x', hex_char_of(b as nat / 16), hex_char_of(b as nat % 16)]
}

/// Text as the console shows it: UTF-8 decoded scalar by scalar, with
/// every byte that does not start a well-formed scalar shown as its
/// escape.
pub open spec fn render_text(bytes: Seq<u8>) -> Seq<char>
    decreases bytes.len(),
{
    if bytes.len() == 0 {
        seq![]
    } else if valid_first_scalar(bytes) {
        seq![decode_first_scalar(bytes) as char] + render_text(pop_first_scalar(bytes))
    } else {
        escape_byte(bytes[0]) + render_text(bytes.skip(1))
    }
}

/// Appends the escape of one byte to `out`.
fn push_escape(out: &mut String, b: u8)
    ensures
        final(out)@ == old(out)@ + escape_byte(b),
{
    push_char(out, '\\');
    push_char(out, 'x');
    let hi = hex_char(b / 16);
    push_char(out, hi);
    let lo = hex_char(b % 16);
    push_char(out, lo);
    assert(final(out)@ =~= old(out)@ + escape_byte(b));
}

/// Decodes `bytes` as UTF-8 text, escaping every byte at which no
/// well-formed scalar starts.
pub fn render_text_string(bytes: &[u8]) -> (r: String)
    ensures
        r@ == render_text(bytes@),
{
    let n = bytes.len();
    let mut out = String::new();
    let mut i: usize = 0;
    proof {
        assert(bytes@.skip(0) =~= bytes@);
    }
    while i < n
        invariant
            0 <= i <= n,
            n == bytes@.len(),
            out@ + render_text(bytes@.skip(i as int)) == render_text(bytes@),
        decreases n - i,
    {
        let ghost rest = bytes@.skip(i as int);
        let b0 = bytes[i];
        let mut step: usize = 1;
        let mut scalar: Option<u32> = None;
        if b0 < 0x80 {
            scalar = Some(b0 as u32);
            proof {
                assert(is_leading_byte_width_1(b0));
                assert(valid_first_scalar(rest));
                assert(decode_first_scalar(rest) == (b0 & 0x7f) as u32);
                assert(b0 & 0x7f == b0) by (bit_vector)
                    requires
                        b0 < 0x80,
                ;
                assert(length_of_first_scalar(rest) == 1);
            }
        } else if 0xc0 <= b0 && b0 <= 0xdf && n - i > 1 && is_cont(bytes[i + 1]) {
            let b1 = bytes[i + 1];
            let cp = (((b0 & 0x1f) as u32) << 6u32) | ((b1 & 0x3f) as u32);
            proof {
                assert(cp <= 0x7ff) by (bit_vector)
                    requires
                        cp == (((b0 & 0x1f) as u32) << 6u32) | ((b1 & 0x3f) as u32),
                ;
            }
            if cp >= 0x80 {
                scalar = Some(cp);
                step = 2;
                proof {
                    assert(is_leading_byte_width_2(b0));
                    assert(!is_leading_byte_width_1(b0));
                    assert(valid_first_scalar(rest));
                    assert(decode_first_scalar(rest) == cp);
                    assert(length_of_first_scalar(rest) == 2);
                }
            }
        } else if 0xe0 <= b0 && b0 <= 0xef && n - i > 2 && is_cont(bytes[i + 1]) && is_cont(
            bytes[i + 2],
        ) {
            let b1 = bytes[i + 1];
            let b2 = bytes[i + 2];
            let cp = (((b0 & 0x0f) as u32) << 12u32) | (((b1 & 0x3f) as u32) << 6u32) | ((b2
                & 0x3f) as u32);
            proof {
                assert(cp <= 0xffff) by (bit_vector)
                    requires
                        cp == (((b0 & 0x0f) as u32) << 12u32) | (((b1 & 0x3f) as u32) << 6u32) | ((
                        b2 & 0x3f) as u32),
                ;
            }
            if cp >= 0x800 && !(0xd800 <= cp && cp <= 0xdfff) {
                scalar = Some(cp);
                step = 3;
                proof {
                    assert(is_leading_byte_width_3(b0));
                    assert(!is_leading_byte_width_1(b0) && !is_leading_byte_width_2(b0));
                    assert(valid_first_scalar(rest));
                    assert(decode_first_scalar(rest) == cp);
                    assert(length_of_first_scalar(rest) == 3);
                }
            }
        } else if 0xf0 <= b0 && b0 <= 0xf7 && n - i > 3 && is_cont(bytes[i + 1]) && is_cont(
            bytes[i + 2],
        ) && is_cont(bytes[i + 3]) {
            let b1 = bytes[i + 1];
            let b2 = bytes[i + 2];
            let b3 = bytes[i + 3];
            let cp = (((b0 & 0x07) as u32) << 18u32) | (((b1 & 0x3f) as u32) << 12u32) | (((b2
                & 0x3f) as u32) << 6u32) | ((b3 & 0x3f) as u32);
            proof {
                assert(cp <= 0x1fffff) by (bit_vector)
                    requires
                        cp == (((b0 & 0x07) as u32) << 18u32) | (((b1 & 0x3f) as u32) << 12u32) | (((
                        b2 & 0x3f) as u32) << 6u32) | ((b3 & 0x3f) as u32),
                ;
            }
            if cp >= 0x10000 && cp <= 0x10ffff {
                scalar = Some(cp);
                step = 4;
                proof {
                    assert(is_leading_byte_width_4(b0));
                    assert(!is_leading_byte_width_1(b0) && !is_leading_byte_width_2(b0)
                        && !is_leading_byte_width_3(b0));
                    assert(valid_first_scalar(rest));
                    assert(decode_first_scalar(rest) == cp);
                    assert(length_of_first_scalar(rest) == 4);
                }
            }
        }
        match scalar {
            Some(cp) => {
                proof {
                    assert(valid_first_scalar(rest));
                    assert(decode_first_scalar(rest) == cp);
                    assert(step as int == length_of_first_scalar(rest));
                    assert(pop_first_scalar(rest) =~= bytes@.skip(i as int + step as int));
                }
                let c = match char::from_u32(cp) {
                    Some(c) => c,
                    None => {
                        proof {
                            assert(false);
                        }
                        ' '
                    },
                };
                push_char(&mut out, c);
            },
            None => {
                proof {
                    assert(!valid_first_scalar(rest));
                    assert(rest.skip(1) =~= bytes@.skip(i as int + 1));
                }
                push_escape(&mut out, b0);
            },
        }
        i = i + step;
    }
    proof {
        assert(bytes@.skip(n as int) =~= Seq::<u8>::empty());
        assert(out@ =~= render_text(bytes@));
    }
    out
}

/// Whether the byte has the continuation-byte bit pattern.
fn is_cont(b: u8) -> (r: bool)
    ensures
        r == is_continuation_byte(b),
{
    0x80 <= b && b <= 0xbf
}

/// Parses a digit string under `radix` into a 32-bit number.  Returns
/// `None` exactly on an empty string, a non-digit character, or a value
/// beyond `u32::MAX`.
pub fn parse_u32_radix(s: &str, radix: u32) -> (r: Option<u32>)
    requires
        radix == 10 || radix == 16,
    ensures
        match r {
            Some(v) => valid_number(s@, radix as nat) && v == radix_value(s@, radix as nat)
                && radix_value(s@, radix as nat) <= u32::MAX,
            None => !(valid_number(s@, radix as nat) && radix_value(s@, radix as nat)
                <= u32::MAX),
        },
{
    let n = s.unicode_len();
    if n == 0 {
        return None;
    }
    let mut acc: u32 = 0;
    let mut i: usize = 0;
    while i < n
        invariant
            radix == 10 || radix == 16,
            0 <= i <= n,
            n == s@.len(),
            acc == radix_value(s@.take(i as int), radix as nat),
            forall|k: int| 0 <= k < i ==> is_digit(s@[k], radix as nat),
        decreases n - i,
    {
        let c = s.get_char(i);
        let d = digit_of(c, radix);
        if d >= radix {
            return None;
        }
        if acc > (u32::MAX - d) / radix {
            proof {
                assert(s@.take(i as int + 1).drop_last() =~= s@.take(i as int));
                assert(radix_value(s@.take(i as int + 1), radix as nat) == acc * radix + digit_val(
                    c,
                ));
                assert((acc as int) * (radix as int) + (d as int) > (u32::MAX as int))
                    by (nonlinear_arith)
                    requires
                        (acc as int) > ((u32::MAX as int) - (d as int)) / (radix as int),
                        10 <= (radix as int),
                        (radix as int) <= 16,
                        (d as int) < (radix as int);
                lemma_radix_value_grows(s@, i as int + 1, radix as nat);
            }
            return None;
        }
        proof {
            assert((acc as int) * (radix as int) + (d as int) <= (u32::MAX as int))
                by (nonlinear_arith)
                requires
                    (acc as int) <= ((u32::MAX as int) - (d as int)) / (radix as int),
                    10 <= (radix as int),
                    (radix as int) <= 16,
                    (d as int) < (radix as int);
            assert(s@.take(i as int + 1).drop_last() =~= s@.take(i as int));
        }
        acc = acc * radix + d;
        i = i + 1;
    }
    proof {
        assert(s@.take(n as int) =~= s@);
    }
    Some(acc)
}

} // verus!
