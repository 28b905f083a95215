//! The number renderer: exact decimal strings for integer and float
//! literals, including the textual decimal-point shift that reconstructs a
//! scientific-notation literal without routing it through a double.

use vstd::prelude::*;

use crate::model::FloatRepr;

verus! {

/// Whether a character is a decimal digit.
pub open spec fn is_digit(c: char) -> bool {
    ('0' as u32) <= (c as u32) && (c as u32) <= ('9' as u32)
}

/// The numeric value of a digit character.
pub open spec fn digit_val(c: char) -> int {
    (c as u32) - ('0' as u32)
}

/// The text with every digit-group separator (`_`) removed.
pub open spec fn strip_seps(s: Seq<char>) -> Seq<char>
    decreases s.len(),
{
    if s.len() == 0 {
        Seq::empty()
    } else if s.last() == '_' {
        strip_seps(s.drop_last())
    } else {
        strip_seps(s.drop_last()).push(s.last())
    }
}

/// Whether every character of the text is a decimal digit.
pub open spec fn all_digits(s: Seq<char>) -> bool {
    forall|i: int| 0 <= i < s.len() ==> is_digit(s[i])
}

/// The value of a digit string, most significant digit first.
pub open spec fn digits_val(s: Seq<char>) -> int
    decreases s.len(),
{
    if s.len() == 0 {
        0
    } else {
        digits_val(s.drop_last()) * 10 + digit_val(s.last())
    }
}

/// Whether separator-stripped text has the shape of a signed decimal
/// integer: an optional leading sign, then at least one digit, nothing else.
pub open spec fn exp_shape(t: Seq<char>) -> bool {
    if t.len() == 0 {
        false
    } else if t[0] == '+' || t[0] == '-' {
        t.len() >= 2 && all_digits(t.skip(1))
    } else {
        all_digits(t)
    }
}

/// The magnitude of a well-shaped exponent text.
pub open spec fn exp_mag(t: Seq<char>) -> int {
    if t[0] == '+' || t[0] == '-' {
        digits_val(t.skip(1))
    } else {
        digits_val(t)
    }
}

/// The signed value of a well-shaped exponent text.
pub open spec fn exp_val(t: Seq<char>) -> int {
    if t[0] == '-' {
        -exp_mag(t)
    } else {
        exp_mag(t)
    }
}

/// Whether separator-stripped exponent text parses as a 64-bit signed
/// integer: well-shaped and within range.
pub open spec fn exp_ok(t: Seq<char>) -> bool {
    exp_shape(t) && -0x8000_0000_0000_0000 <= exp_val(t) <= 0x7fff_ffff_ffff_ffff
}

/// Parses exponent text as the original literal wrote it: digit-group
/// separators are stripped, then the rest must be an optionally signed
/// decimal integer that fits in an `i64`. Returns the value exactly when
/// the stripped text parses, and nothing otherwise.
pub fn parse_exponent(s: &str) -> (r: Option<i64>)
    ensures
        r is Some <==> exp_ok(strip_seps(s@)),
        r is Some ==> r.unwrap() as int == exp_val(strip_seps(s@)),
{
    let n = s.unicode_len();
    let mut t: Vec<char> = Vec::new();
    let mut i: usize = 0;
    while i < n
        invariant
            i <= n,
            n == s@.len(),
            t@ =~= strip_seps(s@.take(i as int)),
        decreases n - i,
    {
        let c = s.get_char(i);
        proof {
            assert(s@.take(i as int + 1).drop_last() =~= s@.take(i as int));
            assert(s@.take(i as int + 1).last() == s@[i as int]);
        }
        if c != '_' {
            t.push(c);
        }
        i = i + 1;
    }
    proof {
        assert(s@.take(n as int) =~= s@);
    }
    let ghost tt = t@;
    let len = t.len();
    if len == 0 {
        return None;
    }
    let c0 = t[0];
    let neg: bool = c0 == '-';
    let start: usize = if c0 == '-' || c0 == '+' {
        1
    } else {
        0
    };
    if len == start {
        // A sign with no digits after it.
        assert(!exp_shape(tt));
        return None;
    }
    let ghost digs = tt.skip(start as int);
    proof {
        if start == 0 {
            assert(digs =~= tt);
        }
    }
    let mut j: usize = start;
    let mut acc: u128 = 0;
    let mut over: bool = false;
    while j < len
        invariant
            start <= j <= len,
            len == tt.len(),
            t@ == tt,
            start == 0 || start == 1,
            start < len,
            tt =~= strip_seps(s@),
            c0 == tt[0],
            (start == 1) <==> (c0 == '-' || c0 == '+'),
            start == 0 ==> digs =~= tt,
            digs == tt.skip(start as int),
            all_digits(digs.take((j - start) as int)),
            !over ==> acc as int == digits_val(digs.take((j - start) as int)) && acc
                < 0x1_0000_0000_0000_0000,
            over ==> digits_val(digs.take((j - start) as int)) >= 0x1_0000_0000_0000_0000,
        decreases len - j,
    {
        let c = t[j];
        let cu = c as u32;
        proof {
            assert(digs[(j - start) as int] == tt[j as int]);
        }
        if cu < 48 || cu > 57 {
            // A non-digit after the sign: the text does not parse.
            assert(!is_digit(digs[(j - start) as int]));
            proof {
                if exp_shape(tt) {
                    if tt[0] == '+' || tt[0] == '-' {
                        assert(start == 1);
                        assert(all_digits(digs));
                        assert(is_digit(digs[(j - start) as int]));
                    } else {
                        assert(start == 0);
                        assert(all_digits(digs));
                        assert(is_digit(digs[(j - start) as int]));
                    }
                }
            }
            return None;
        }
        let d: u128 = (cu - 48) as u128;
        let ghost k = (j - start) as int;
        proof {
            assert(digs.take(k + 1).drop_last() =~= digs.take(k));
            assert(digs.take(k + 1).last() == digs[k]);
            assert(digit_val(digs[k]) == d as int);
        }
        if !over {
            acc = acc * 10 + d;
            if acc >= 0x1_0000_0000_0000_0000 {
                over = true;
            }
        } else {
            proof {
                assert(digits_val(digs.take(k + 1)) == digits_val(digs.take(k)) * 10 + digit_val(
                    digs[k],
                ));
            }
        }
        j = j + 1;
    }
    proof {
        assert(digs.take((len - start) as int) =~= digs);
        assert(all_digits(digs));
        assert(tt[0] == c0);
        if c0 == '-' || c0 == '+' {
            assert(start == 1);
            assert(digs == tt.skip(1));
            assert(exp_shape(tt));
            assert(exp_mag(tt) == digits_val(digs));
        } else {
            assert(start == 0);
            assert(exp_shape(tt));
            assert(exp_mag(tt) == digits_val(digs));
        }
    }
    if over {
        // Magnitude at least 2^64: out of range either way.
        return None;
    }
    if neg {
        assert(exp_val(tt) == -(acc as int));
        if acc > 0x8000_0000_0000_0000 {
            return None;
        }
        let v: i128 = -(acc as i128);
        Some(v as i64)
    } else {
        assert(exp_val(tt) == acc as int);
        if acc > 0x7fff_ffff_ffff_ffff {
            return None;
        }
        Some(acc as i64)
    }
}

/// The decimal digit character for a value below ten.
pub open spec fn digit_char(d: int) -> char {
    if d == 0 {
        '0'
    } else if d == 1 {
        '1'
    } else if d == 2 {
        '2'
    } else if d == 3 {
        '3'
    } else if d == 4 {
        '4'
    } else if d == 5 {
        '5'
    } else if d == 6 {
        '6'
    } else if d == 7 {
        '7'
    } else if d == 8 {
        '8'
    } else {
        '9'
    }
}

/// The decimal digit characters of a natural number, most significant first.
pub open spec fn dec_digits(n: nat) -> Seq<char>
    decreases n,
{
    if n < 10 {
        seq![digit_char(n as int)]
    } else {
        dec_digits(n / 10) + seq![digit_char((n % 10) as int)]
    }
}

/// The decimal rendering of an integer: a minus sign for negative values,
/// then the digits of the magnitude.
pub open spec fn dec_int(i: int) -> Seq<char> {
    if i < 0 {
        seq!['-'] + dec_digits((-i) as nat)
    } else {
        dec_digits(i as nat)
    }
}

/// Digit characters of a reversed digit-value sequence: the characters of
/// `ds` read back to front.
spec fn chars_rev(ds: Seq<u8>) -> Seq<char>
    decreases ds.len(),
{
    if ds.len() == 0 {
        Seq::empty()
    } else {
        chars_rev(ds.drop_first()) + seq![digit_char(ds.first() as int)]
    }
}

proof fn lemma_chars_rev_push(ds: Seq<u8>, d: u8)
    ensures
        chars_rev(ds.push(d)) =~= seq![digit_char(d as int)] + chars_rev(ds),
    decreases ds.len(),
{
    reveal_with_fuel(chars_rev, 3);
    if ds.len() == 0 {
        assert(ds.push(d)[0] == d);
        assert(ds.push(d).drop_first() =~= Seq::<u8>::empty());
        assert(chars_rev(ds.push(d)) =~= seq![digit_char(d as int)] + chars_rev(ds));
    } else {
        assert(ds.push(d).drop_first() =~= ds.drop_first().push(d));
        assert(ds.push(d).first() == ds.first());
        lemma_chars_rev_push(ds.drop_first(), d);
        assert(chars_rev(ds.push(d)) =~= chars_rev(ds.drop_first().push(d))
            + seq![digit_char(ds.first() as int)]);
        assert(chars_rev(ds) == chars_rev(ds.drop_first()) + seq![digit_char(ds.first() as int)]);
        assert(chars_rev(ds.push(d)) =~= seq![digit_char(d as int)] + chars_rev(ds));
    }
}

/// One digit as a string slice.
fn digit_str(d: u8) -> (r: &'static str)
    requires
        d < 10,
    ensures
        r@ =~= seq![digit_char(d as int)],
{
    proof {
        reveal_strlit("0");
        reveal_strlit("1");
        reveal_strlit("2");
        reveal_strlit("3");
        reveal_strlit("4");
        reveal_strlit("5");
        reveal_strlit("6");
        reveal_strlit("7");
        reveal_strlit("8");
        reveal_strlit("9");
    }
    match d {
        0 => "0",
        1 => "1",
        2 => "2",
        3 => "3",
        4 => "4",
        5 => "5",
        6 => "6",
        7 => "7",
        8 => "8",
        _ => "9",
    }
}

/// Renders a natural number as its decimal digits.
fn u128_to_decimal(n: u128) -> (r: String)
    ensures
        r@ =~= dec_digits(n as nat),
{
    let mut digits: Vec<u8> = Vec::new();
    let mut m: u128 = n;
    while m >= 10
        invariant
            dec_digits(n as nat) =~= dec_digits(m as nat) + chars_rev(digits@),
            forall|j: int| 0 <= j < digits@.len() ==> digits@[j] < 10,
        decreases m,
    {
        let d: u8 = (m % 10) as u8;
        proof {
            lemma_chars_rev_push(digits@, d);
        }
        digits.push(d);
        m = m / 10;
    }
    proof {
        lemma_chars_rev_push(digits@, m as u8);
    }
    digits.push(m as u8);
    let ghost all = digits@;
    assert(dec_digits(n as nat) =~= chars_rev(all));
    let mut r = String::new();
    let mut k: usize = digits.len();
    while k > 0
        invariant
            k <= digits.len(),
            digits@ == all,
            forall|j: int| 0 <= j < all.len() ==> all[j] < 10,
            r@ =~= chars_rev(all.skip(k as int)),
        decreases k,
    {
        k = k - 1;
        assert(all.skip(k as int).drop_first() =~= all.skip(k as int + 1));
        r.append(digit_str(digits[k]));
    }
    assert(all.skip(0) =~= all);
    r
}

/// Renders a signed integer as its exact decimal digits, sign included.
fn i128_to_decimal(n: i128) -> (r: String)
    ensures
        r@ =~= dec_int(n as int),
{
    if n < 0 {
        // Negate without overflowing on the smallest value.
        let m: u128 = ((-(n + 1)) as u128) + 1;
        assert(m as nat == -(n as int) as nat);
        let mut r = String::new();
        proof {
            reveal_strlit("-");
        }
        r.append("-");
        let digits = u128_to_decimal(m);
        r.append(digits.as_str());
        r
    } else {
        u128_to_decimal(n as u128)
    }
}

/// A run of `n` zero characters.
pub open spec fn zeros(n: nat) -> Seq<char>
    decreases n,
{
    if n == 0 {
        Seq::empty()
    } else {
        zeros((n - 1) as nat).push('0')
    }
}

/// The shift for a non-negative exponent `e`: the decimal point moves `e`
/// places to the right. The fractional digits are padded on the right with
/// zeros up to `e`; when exactly `e` remain the result ends in `.0`,
/// otherwise the point splits them at `e`. A lone `0` integer part is
/// dropped rather than kept as a leading zero.
pub open spec fn spec_sci_pos(i: Seq<char>, f: Seq<char>, e: nat) -> Seq<char> {
    let i2 = if i.len() == 1 && i[0] == '0' {
        Seq::<char>::empty()
    } else {
        i
    };
    let fp = if f.len() >= e {
        f
    } else {
        f + zeros((e - f.len()) as nat)
    };
    if fp.len() == e {
        i2 + fp + seq!['.', '0']
    } else {
        i2 + fp.take(e as int) + seq!['.'] + fp.skip(e as int)
    }
}

/// The shift for a negative exponent of magnitude `m`: the decimal point
/// moves `m` places to the left. The integer digits are padded on the left
/// with zeros up to `m`; when exactly `m` remain the result starts with
/// `0.`, otherwise the point splits them at `len - m`. A lone `0`
/// fractional part is dropped rather than kept as a redundant trailing zero.
pub open spec fn spec_sci_neg(i: Seq<char>, f: Seq<char>, m: nat) -> Seq<char> {
    let f2 = if f.len() == 1 && f[0] == '0' {
        Seq::<char>::empty()
    } else {
        f
    };
    let ip = if i.len() >= m {
        i
    } else {
        zeros((m - i.len()) as nat) + i
    };
    if ip.len() == m {
        seq!['0', '.'] + ip + f2
    } else {
        ip.take((ip.len() - m) as int) + seq!['.'] + ip.skip((ip.len() - m) as int) + f2
    }
}

/// The exact decimal text of mantissa digits `i`/`f` shifted by exponent
/// `e`: pure digit manipulation, exact for any exponent magnitude.
pub open spec fn spec_sci(i: Seq<char>, f: Seq<char>, e: int) -> Seq<char> {
    if e >= 0 {
        spec_sci_pos(i, f, e as nat)
    } else {
        spec_sci_neg(i, f, (-e) as nat)
    }
}

/// Renders the right shift of the decimal point by `e` places.
#[verifier::loop_isolation(false)]
fn render_sci_pos(i_part: &str, f_part: &str, e: usize) -> (r: String)
    ensures
        r@ =~= spec_sci_pos(i_part@, f_part@, e as nat),
{
    proof {
        reveal_strlit("0");
        reveal_strlit(".");
        reveal_strlit(".0");
        assert("0"@ =~= seq!['0']);
        assert("."@ =~= seq!['.']);
        assert(".0"@ =~= seq!['.', '0']);
    }
    let ilen = i_part.unicode_len();
    let drop_i = ilen == 1 && i_part.get_char(0) == '0';
    let flen = f_part.unicode_len();
    let mut fp = String::from_str(f_part);
    let mut len: usize = flen;
    while len < e
        invariant
            flen <= len,
            len <= e || len == flen,
            len == fp@.len(),
            fp@ =~= f_part@ + zeros((len - flen) as nat),
        decreases e - len,
    {
        proof {
            reveal_strlit("0");
            assert("0"@ =~= seq!['0']);
        }
        fp.append("0");
        len = len + 1;
    }
    proof {
        assert(zeros(0) =~= Seq::<char>::empty());
        if flen >= e {
            assert(fp@ =~= f_part@);
        }
    }
    let mut r = String::new();
    if !drop_i {
        r.append(i_part);
    }
    if len == e {
        r.append(fp.as_str());
        r.append(".0");
    } else {
        let f1 = fp.as_str().substring_char(0, e);
        let f2 = fp.as_str().substring_char(e, len);
        proof {
            assert(fp@.subrange(0, e as int) =~= fp@.take(e as int));
            assert(fp@.subrange(e as int, len as int) =~= fp@.skip(e as int));
        }
        r.append(f1);
        r.append(".");
        r.append(f2);
    }
    r
}

/// Renders the left shift of the decimal point by `m` places.
#[verifier::loop_isolation(false)]
fn render_sci_neg(i_part: &str, f_part: &str, m: usize) -> (r: String)
    requires
        m >= 1,
    ensures
        r@ =~= spec_sci_neg(i_part@, f_part@, m as nat),
{
    proof {
        reveal_strlit("0");
        reveal_strlit(".");
        reveal_strlit("0.");
        assert("0"@ =~= seq!['0']);
        assert("."@ =~= seq!['.']);
        assert("0."@ =~= seq!['0', '.']);
    }
    let flen = f_part.unicode_len();
    let drop_f = flen == 1 && f_part.get_char(0) == '0';
    let ilen = i_part.unicode_len();
    let pad: usize = if ilen >= m {
        0
    } else {
        m - ilen
    };
    let mut ip = String::new();
    let mut k: usize = 0;
    while k < pad
        invariant
            k <= pad,
            ip@ =~= zeros(k as nat),
            ip@.len() == k,
        decreases pad - k,
    {
        proof {
            reveal_strlit("0");
            assert("0"@ =~= seq!['0']);
        }
        ip.append("0");
        k = k + 1;
    }
    ip.append(i_part);
    let iplen: usize = pad + ilen;
    proof {
        assert(zeros(0) =~= Seq::<char>::empty());
        if ilen >= m {
            assert(ip@ =~= i_part@);
        }
        assert(ip@.len() == iplen);
    }
    let mut r = String::new();
    if iplen == m {
        r.append("0.");
        r.append(ip.as_str());
        if !drop_f {
            r.append(f_part);
        }
    } else {
        let cut = iplen - m;
        let i1 = ip.as_str().substring_char(0, cut);
        let i2 = ip.as_str().substring_char(cut, iplen);
        proof {
            assert(ip@.subrange(0, cut as int) =~= ip@.take(cut as int));
            assert(ip@.subrange(cut as int, iplen as int) =~= ip@.skip(cut as int));
        }
        r.append(i1);
        r.append(".");
        r.append(i2);
        if !drop_f {
            r.append(f_part);
        }
    }
    r
}

proof fn lemma_zeros_len(n: nat)
    ensures
        zeros(n).len() == n,
    decreases n,
{
    if n > 0 {
        lemma_zeros_len((n - 1) as nat);
    }
}

/// A non-negative exponent shifts the decimal point right by exactly `e`
/// positions: in the rendered text the point stands `e` places after the
/// end of the kept integer digits.
pub proof fn lemma_point_shift_right(i: Seq<char>, f: Seq<char>, e: nat)
    ensures
        ({
            let i2 = if i.len() == 1 && i[0] == '0' {
                Seq::<char>::empty()
            } else {
                i
            };
            let out = spec_sci_pos(i, f, e);
            out.len() > i2.len() + e && out[(i2.len() + e) as int] == '.'
        }),
{
    if f.len() < e {
        lemma_zeros_len((e - f.len()) as nat);
    }
}

/// A negative exponent of magnitude `m` shifts the decimal point left by
/// exactly `m` positions: exactly `m` of the padded integer digits stand
/// between the point and the fractional digits.
pub proof fn lemma_point_shift_left(i: Seq<char>, f: Seq<char>, m: nat)
    requires
        m >= 1,
    ensures
        ({
            let ip = if i.len() >= m {
                i
            } else {
                zeros((m - i.len()) as nat) + i
            };
            let out = spec_sci_neg(i, f, m);
            if ip.len() == m {
                out.len() > 1 && out[1] == '.' && out.subrange(2, 2 + m as int) == ip
            } else {
                out.len() > ip.len() - m && out[(ip.len() - m) as int] == '.' && out.subrange(
                    ip.len() - m + 1,
                    ip.len() + 1 as int,
                ) == ip.skip((ip.len() - m) as int)
            }
        }),
{
    let ip = if i.len() >= m {
        i
    } else {
        zeros((m - i.len()) as nat) + i
    };
    if i.len() < m {
        lemma_zeros_len((m - i.len()) as nat);
    }
    let out = spec_sci_neg(i, f, m);
    if ip.len() == m {
        assert(out.subrange(2, 2 + m as int) =~= ip);
    } else {
        assert(out.subrange(ip.len() - m, ip.len() + 1 - m) =~= seq!['.']);
        assert(out.subrange(ip.len() - m + 1, ip.len() + 1 as int) =~= ip.skip((ip.len() - m) as int));
    }
}

/// The index of the first occurrence of `a` or `b` in the text, or its
/// length when neither occurs.
pub open spec fn first_at(s: Seq<char>, a: char, b: char) -> int
    decreases s.len(),
{
    if s.len() == 0 {
        0
    } else if s[0] == a || s[0] == b {
        0
    } else {
        1 + first_at(s.drop_first(), a, b)
    }
}

/// Finds the first occurrence of `a` or `b`, scanning left to right.
pub(crate) fn find_first(s: &str, a: char, b: char) -> (r: usize)
    ensures
        r as int == first_at(s@, a, b),
        r <= s@.len(),
{
    let n = s.unicode_len();
    let mut i: usize = 0;
    proof {
        assert(s@.skip(0) =~= s@);
    }
    while i < n
        invariant
            i <= n,
            n == s@.len(),
            first_at(s@, a, b) == i + first_at(s@.skip(i as int), a, b),
        decreases n - i,
    {
        let c = s.get_char(i);
        proof {
            assert(s@.skip(i as int)[0] == s@[i as int]);
        }
        if c == a || c == b {
            proof {
                assert(first_at(s@.skip(i as int), a, b) == 0);
            }
            return i;
        }
        proof {
            assert(s@.skip(i as int).drop_first() =~= s@.skip(i as int + 1));
        }
        i = i + 1;
    }
    proof {
        assert(s@.skip(n as int) =~= Seq::<char>::empty());
    }
    n
}

/// The failure of the renderer: original-format metadata claimed
/// scientific notation but its exponent text does not parse as an integer
/// after separator stripping, or the shift is beyond what this machine can
/// hold. The conversion aborts rather than silently falling back.
#[derive(Debug, Clone, Copy, PartialEq, Eq, Structural)]
pub enum RenderError {
    BadExponent,
}

/// The view of an optional borrowed string.
pub open spec fn opt_str_view(o: Option<&str>) -> Option<Seq<char>> {
    match o {
        Option::Some(s) => Option::Some(s@),
        Option::None => Option::None,
    }
}

/// Whether original-format metadata is present and written in scientific
/// notation, that is, contains an exponent marker.
pub open spec fn sci_original(original: Option<Seq<char>>) -> bool {
    &&& original is Some
    &&& first_at(original.unwrap(), 'e', 'E') < original.unwrap().len()
}

/// The separator-stripped exponent text of a scientific-notation literal.
pub open spec fn exp_text(o: Seq<char>) -> Seq<char> {
    strip_seps(o.skip(first_at(o, 'e', 'E') + 1))
}

/// The mantissa text of a scientific-notation literal.
pub open spec fn mantissa_of(o: Seq<char>) -> Seq<char> {
    o.take(first_at(o, 'e', 'E'))
}

/// The integer-part digits of a mantissa: everything before the first dot.
pub open spec fn int_part(m: Seq<char>) -> Seq<char> {
    m.take(first_at(m, '.', '.'))
}

/// The fractional-part digits of a mantissa: everything after the first
/// dot, empty when the mantissa has no dot.
pub open spec fn frac_part(m: Seq<char>) -> Seq<char> {
    if first_at(m, '.', '.') == m.len() {
        Seq::empty()
    } else {
        m.skip(first_at(m, '.', '.') + 1)
    }
}

/// Whether a float literal renders at all: only a scientific-notation
/// original whose exponent text does not parse, or whose shift cannot fit
/// in this machine's addresses, is rejected.
pub open spec fn float_ok(repr: FloatRepr, original: Option<Seq<char>>) -> bool {
    sci_original(original) ==> {
        let t = exp_text(original.unwrap());
        &&& exp_ok(t)
        &&& -(usize::MAX as int) <= exp_val(t) <= usize::MAX as int
    }
}

/// What a float literal renders to. A scientific-notation original is
/// reconstructed exactly from its own digits, never from the parsed
/// double; otherwise infinities render as `inf`/`-inf`, NaN as `nan`, and
/// a finite double as its plain decimal text with `.0` appended when its
/// fractional part is exactly zero.
pub open spec fn spec_render_float(repr: FloatRepr, original: Option<Seq<char>>) -> Seq<char> {
    if sci_original(original) {
        let o = original.unwrap();
        let m = mantissa_of(o);
        spec_sci(int_part(m), frac_part(m), exp_val(exp_text(o)))
    } else {
        match repr {
            FloatRepr::Infinite { negative } => if negative {
                seq!['-', 'i', 'n', 'f']
            } else {
                seq!['i', 'n', 'f']
            },
            FloatRepr::NotANumber => seq!['n', 'a', 'n'],
            FloatRepr::Finite { decimal, fract_is_zero } => if fract_is_zero {
                decimal@ + seq!['.', '0']
            } else {
                decimal@
            },
        }
    }
}

/// Renders a float literal to its canonical decimal text, preferring the
/// original source text whenever it used scientific notation. Fails
/// exactly when that text's exponent cannot be parsed.
pub fn render_float(repr: &FloatRepr, original: Option<&str>) -> (r: Result<
    String,
    RenderError,
>)
    ensures
        r is Ok <==> float_ok(*repr, opt_str_view(original)),
        r is Ok ==> r.unwrap()@ =~= spec_render_float(*repr, opt_str_view(original)),
        r is Err ==> r.unwrap_err() == RenderError::BadExponent,
{
    if let Some(o) = original {
        let n = o.unicode_len();
        let k = find_first(o, 'e', 'E');
        if k < n {
            // Written in scientific notation: reconstruct from the text.
            let m = o.substring_char(0, k);
            let etxt = o.substring_char(k + 1, n);
            proof {
                assert(m@ =~= mantissa_of(o@));
                assert(etxt@ =~= o@.skip(k as int + 1));
            }
            let mlen = m.unicode_len();
            let d = find_first(m, '.', '.');
            match parse_exponent(etxt) {
                None => Err(RenderError::BadExponent),
                Some(e) => {
                    let ghost gi = int_part(m@);
                    let ghost gf = frac_part(m@);
                    if e >= 0 {
                        if (e as u64) > (usize::MAX as u64) {
                            return Err(RenderError::BadExponent);
                        }
                        let ipart: &str;
                        let fpart: &str;
                        if d < mlen {
                            ipart = m.substring_char(0, d);
                            fpart = m.substring_char(d + 1, mlen);
                        } else {
                            ipart = m;
                            fpart = "";
                            proof {
                                reveal_strlit("");
                                assert(m@.take(d as int) =~= m@);
                            }
                        }
                        proof {
                            assert(ipart@ =~= gi);
                            assert(fpart@ =~= gf);
                        }
                        Ok(render_sci_pos(ipart, fpart, e as usize))
                    } else {
                        let mag: u128 = (-(e as i128)) as u128;
                        if mag > (usize::MAX as u128) {
                            return Err(RenderError::BadExponent);
                        }
                        let ipart: &str;
                        let fpart: &str;
                        if d < mlen {
                            ipart = m.substring_char(0, d);
                            fpart = m.substring_char(d + 1, mlen);
                        } else {
                            ipart = m;
                            fpart = "";
                            proof {
                                reveal_strlit("");
                                assert(m@.take(d as int) =~= m@);
                            }
                        }
                        proof {
                            assert(ipart@ =~= gi);
                            assert(fpart@ =~= gf);
                        }
                        Ok(render_sci_neg(ipart, fpart, mag as usize))
                    }
                },
            }
        } else {
            render_float_plain(repr)
        }
    } else {
        render_float_plain(repr)
    }
}

/// Renders a float literal that carries no scientific-notation text.
fn render_float_plain(repr: &FloatRepr) -> (r: Result<String, RenderError>)
    ensures
        r is Ok,
        r.unwrap()@ =~= spec_render_float(*repr, Option::None),
{
    proof {
        reveal_strlit("inf");
        reveal_strlit("-inf");
        reveal_strlit("nan");
        reveal_strlit(".0");
        assert("inf"@ =~= seq!['i', 'n', 'f']);
        assert("-inf"@ =~= seq!['-', 'i', 'n', 'f']);
        assert("nan"@ =~= seq!['n', 'a', 'n']);
        assert(".0"@ =~= seq!['.', '0']);
    }
    match repr {
        FloatRepr::Infinite { negative } => {
            if *negative {
                Ok(String::from_str("-inf"))
            } else {
                Ok(String::from_str("inf"))
            }
        },
        FloatRepr::NotANumber => Ok(String::from_str("nan")),
        FloatRepr::Finite { decimal, fract_is_zero } => {
            let mut s = decimal.clone();
            if *fract_is_zero {
                s.append(".0");
            }
            Ok(s)
        },
    }
}

/// What an integer literal renders to: its exact digits followed by `.0`.
pub open spec fn spec_render_integer(n: int) -> Seq<char> {
    dec_int(n) + seq!['.', '0']
}

/// Renders an integer literal. For every integer the result is the exact
/// decimal digits of the integer, sign preserved, followed by `.0`; no
/// precision can be lost.
pub fn render_integer(n: i128) -> (r: String)
    ensures
        r@ =~= spec_render_integer(n as int),
{
    let mut r = i128_to_decimal(n);
    proof {
        reveal_strlit(".0");
    }
    r.append(".0");
    r
}

} // verus!

