//! Decimal and hexadecimal text: parsing unsigned numbers the way the
//! standard library's `FromStr` does, and printing them back.
use vstd::prelude::*;
use vstd::string::StringSliceAdditionalSpecFns;

verus! {

/// The ASCII code of the decimal digit `d` (`d < 10`).
pub open spec fn digit_byte(d: nat) -> u8 {
    (48 + d) as u8
}

pub open spec fn is_digit(b: u8) -> bool {
    48 <= b <= 57
}

pub open spec fn all_digits(s: Seq<u8>) -> bool {
    forall|i: int| 0 <= i < s.len() ==> is_digit(#[trigger] s[i])
}

/// The value of a run of decimal digits, most significant first.
pub open spec fn digits_value(s: Seq<u8>) -> nat
    decreases s.len(),
{
    if s.len() == 0 {
        0
    } else {
        digits_value(s.drop_last()) * 10 + (s.last() - 48) as nat
    }
}

/// The part of an unsigned number's text that must be digits: a single
/// leading `+` is allowed and dropped.
pub open spec fn unsigned_digits(s: Seq<u8>) -> Seq<u8> {
    if s.len() > 0 && s[0] == 43 {
        s.drop_first()
    } else {
        s
    }
}

/// The number that the text `s` spells in the grammar of unsigned integers
/// of the standard library: an optional `+`, then one or more decimal digits,
/// nothing else. `None` where `s` is not in that grammar.
pub open spec fn decimal_value(s: Seq<u8>) -> Option<nat> {
    let d = unsigned_digits(s);
    if d.len() > 0 && all_digits(d) {
        Some(digits_value(d))
    } else {
        None
    }
}

/// What `u64::from_str` gives on the UTF-8 text `s`.
pub open spec fn spec_parse_u64(s: Seq<u8>) -> Option<u64> {
    match decimal_value(s) {
        Some(v) => if v <= u64::MAX { Some(v as u64) } else { None },
        None => None,
    }
}

/// What `u16::from_str` gives on the UTF-8 text `s`.
pub open spec fn spec_parse_u16(s: Seq<u8>) -> Option<u16> {
    match decimal_value(s) {
        Some(v) => if v <= u16::MAX { Some(v as u16) } else { None },
        None => None,
    }
}

/// The shortest decimal spelling of `n`, as ASCII bytes.
pub open spec fn decimal_digits(n: nat) -> Seq<u8>
    decreases n,
{
    if n < 10 {
        seq![digit_byte(n)]
    } else {
        decimal_digits(n / 10).push(digit_byte(n % 10))
    }
}

/// ASCII bytes read as characters.
pub open spec fn ascii_chars(s: Seq<u8>) -> Seq<char> {
    s.map_values(|b: u8| b as char)
}

/// The shortest decimal spelling of `n`, as text.
pub open spec fn decimal_text(n: nat) -> Seq<char> {
    ascii_chars(decimal_digits(n))
}

proof fn lemma_digits_value_prefix(s: Seq<u8>, i: int)
    requires
        0 <= i < s.len(),
    ensures
        digits_value(s.subrange(0, i + 1)) == digits_value(s.subrange(0, i)) * 10 + (s[i] - 48) as nat,
{
    assert(s.subrange(0, i + 1).drop_last() =~= s.subrange(0, i));
}

proof fn lemma_digits_value_monotone(s: Seq<u8>, i: int)
    requires
        0 <= i <= s.len(),
        all_digits(s),
    ensures
        digits_value(s.subrange(0, i)) <= digits_value(s),
    decreases s.len() - i,
{
    if i < s.len() {
        lemma_digits_value_prefix(s, i);
        lemma_digits_value_monotone(s, i + 1);
        assert(is_digit(s[i]));
    } else {
        assert(s.subrange(0, i) =~= s);
    }
}

/// Parses `s` as `u64::from_str` does.
pub fn parse_u64(s: &str) -> (res: Option<u64>)
    ensures
        res == spec_parse_u64(s.spec_bytes()),
{
    let bytes = s.as_bytes();
    let n = bytes.len();
    let ghost all = bytes@;
    if n == 0 {
        return None;
    }
    let mut start: usize = 0;
    if bytes[0] == 43u8 {
        if n == 1 {
            return None;
        }
        start = 1;
    }
    let ghost digits = unsigned_digits(all);
    assert(digits =~= all.subrange(start as int, n as int));
    let mut acc: u64 = 0;
    let mut i: usize = start;
    while i < n
        invariant
            start <= i <= n,
            n == bytes@.len(),
            bytes@ == all,
            all == s.spec_bytes(),
            digits == unsigned_digits(all),
            digits == all.subrange(start as int, n as int),
            digits.len() > 0,
            all_digits(digits.subrange(0, i - start)),
            acc == digits_value(digits.subrange(0, i - start)),
        decreases n - i,
    {
        let b = bytes[i];
        proof {
            assert(digits[i - start] == b);
        }
        if b < 48u8 || b > 57u8 {
            assert(!all_digits(digits));
            return None;
        }
        let d: u64 = (b - 48u8) as u64;
        proof {
            lemma_digits_value_prefix(digits, i - start);
            assert(digits.subrange(0, i - start + 1) =~= digits.subrange(0, i - start).push(b));
        }
        match acc.checked_mul(10) {
            Some(m) => match m.checked_add(d) {
                Some(v) => {
                    acc = v;
                },
                None => {
                    proof {
                        if all_digits(digits) {
                            lemma_digits_value_monotone(digits, i - start + 1);
                        }
                    }
                    return None;
                },
            },
            None => {
                proof {
                    if all_digits(digits) {
                        lemma_digits_value_monotone(digits, i - start + 1);
                    }
                }
                return None;
            },
        }
        i = i + 1;
    }
    assert(digits.subrange(0, n - start) =~= digits);
    Some(acc)
}

/// Parses `s` as `u16::from_str` does.
pub fn parse_u16(s: &str) -> (res: Option<u16>)
    ensures
        res == spec_parse_u16(s.spec_bytes()),
{
    match parse_u64(s) {
        Some(v) => if v <= 65535 { Some(v as u16) } else { None },
        None => None,
    }
}

/// `String::push` of the standard library: appends the character `c`.
#[verifier::external_body]
pub(crate) fn push_char(s: &mut String, c: char)
    ensures
        final(s)@ == old(s)@.push(c),
{
    s.push(c)
}

/// The character of the ASCII byte `b` (`b < 128`).
fn ascii_char(b: u8) -> (c: char)
    requires
        b < 128,
    ensures
        c == b as char,
        c as u8 == b,
{
    b as char
}

proof fn lemma_ascii_chars_push(s: Seq<u8>, b: u8)
    ensures
        ascii_chars(s.push(b)) == ascii_chars(s).push(b as char),
{
    assert(ascii_chars(s.push(b)) =~= ascii_chars(s).push(b as char));
}

pub proof fn lemma_ascii_chars_concat(s: Seq<u8>, t: Seq<u8>)
    ensures
        ascii_chars(s + t) == ascii_chars(s) + ascii_chars(t),
{
    assert(ascii_chars(s + t) =~= ascii_chars(s) + ascii_chars(t));
}

/// Appends the shortest decimal spelling of `n` to `out`.
pub fn push_decimal(out: &mut String, n: u64)
    ensures
        final(out)@ == old(out)@ + decimal_text(n as nat),
    decreases n,
{
    if n >= 10 {
        push_decimal(out, n / 10);
    }
    let d: u8 = (n % 10) as u8;
    let c = ascii_char(48u8 + d);
    push_char(out, c);
    proof {
        lemma_ascii_chars_push(decimal_digits((n / 10) as nat), digit_byte((n % 10) as nat));
        assert(decimal_text(n as nat) =~= if n >= 10 {
            decimal_text((n / 10) as nat).push(c)
        } else {
            seq![c]
        });
    }
}

/// The shortest decimal spelling of `n`, as `n.to_string()` gives it.
pub fn decimal_string(n: u64) -> (res: String)
    ensures
        res@ == decimal_text(n as nat),
{
    let mut out = String::new();
    push_decimal(&mut out, n);
    out
}

/// The shape of a number's shortest decimal spelling: one or more digits,
/// without a superfluous leading zero, whose value is the number.
pub proof fn lemma_decimal_shape(n: nat)
    ensures
        decimal_digits(n).len() > 0,
        all_digits(decimal_digits(n)),
        decimal_digits(n)[0] != 43,
        digits_value(decimal_digits(n)) == n,
        n < 10 ==> decimal_digits(n).len() == 1,
        n >= 10 ==> decimal_digits(n).len() == decimal_digits(n / 10).len() + 1,
        decimal_digits(n).len() > 1 ==> decimal_digits(n)[0] != 48,
    decreases n,
{
    if n >= 10 {
        lemma_decimal_shape(n / 10);
        let s = decimal_digits(n / 10);
        let b = digit_byte((n % 10) as nat);
        assert(decimal_digits(n) == s.push(b));
        assert(s.push(b).drop_last() =~= s);
        assert(s.push(b).last() == b);
        assert(s.push(b)[0] == s[0]);
        assert(n == (n / 10) * 10 + n % 10);
        assert(b - 48 == n % 10);
        assert(digits_value(s.push(b)) == digits_value(s) * 10 + (b - 48) as nat);
        assert forall|i: int| 0 <= i < s.push(b).len() implies is_digit(#[trigger] s.push(b)[i]) by {
            if i < s.len() {
                assert(s.push(b)[i] == s[i]);
            }
        }
        if s.len() == 1 {
            assert(n / 10 >= 1);
            assert(s.drop_last() =~= Seq::<u8>::empty());
            assert(digits_value(s) == digits_value(s.drop_last()) * 10 + (s.last() - 48) as nat);
            assert(s.last() == s[0]);
        }
    } else {
        let b = digit_byte(n);
        assert(seq![b].drop_last() =~= Seq::<u8>::empty());
        assert(digits_value(seq![b]) == digits_value(Seq::<u8>::empty()) * 10 + (b - 48) as nat);
    }
}

/// Printing a number in decimal and parsing the text back gives the number.
pub proof fn lemma_decimal_roundtrip(n: nat)
    ensures
        decimal_value(decimal_digits(n)) == Some(n),
{
    lemma_decimal_shape(n);
}

/// ASCII text is encoded in UTF-8 one byte per character.
pub proof fn lemma_ascii_text_bytes(s: Seq<u8>)
    requires
        forall|i: int| 0 <= i < s.len() ==> #[trigger] s[i] < 128,
    ensures
        vstd::utf8::encode_utf8(ascii_chars(s)) == s,
{
    let cs = ascii_chars(s);
    assert(vstd::utf8::is_ascii_chars(cs)) by {
        assert forall|i: int| 0 <= i < cs.len() implies '\0' <= #[trigger] cs[i] <= '\u{7f}' by {
            let b = s[i];
            assert(cs[i] == b as char);
            assert(b < 128);
        }
    }
    vstd::utf8::is_ascii_chars_encode_utf8(cs);
    let e = vstd::utf8::encode_utf8(cs);
    assert forall|i: int| 0 <= i < s.len() implies e[i] == s[i] by {
        assert(cs[i] as u8 == e[i]);
        let b = s[i];
        assert((b as char) as u8 == b);
    }
    assert(e =~= s);
}

proof fn lemma_decimal_digits_ascii(n: nat)
    ensures
        forall|i: int| 0 <= i < decimal_digits(n).len() ==> #[trigger] decimal_digits(n)[i] < 128,
{
    lemma_decimal_shape(n);
}

/// The text that `decimal_string` writes parses back, with `parse_u64`, to
/// the number it was written from.
pub proof fn law_decimal_roundtrip(n: u64)
    ensures
        spec_parse_u64(vstd::utf8::encode_utf8(decimal_text(n as nat))) == Some(n),
{
    lemma_decimal_digits_ascii(n as nat);
    lemma_ascii_text_bytes(decimal_digits(n as nat));
    lemma_decimal_roundtrip(n as nat);
}

/// The grammar of unsigned numbers: a number's shortest spelling, with or
/// without a leading `+`, is read as that number by both parsers (`u16`
/// only up to 65535, beyond which it refuses); an empty text, a lone sign,
/// and any text that starts with `-` are refused.
pub proof fn law_unsigned_grammar(n: u64, m: u16, t: Seq<u8>)
    ensures
        spec_parse_u64(decimal_digits(n as nat)) == Some(n),
        spec_parse_u64(seq![43u8] + decimal_digits(n as nat)) == Some(n),
        spec_parse_u16(decimal_digits(m as nat)) == Some(m),
        n > 65535 ==> spec_parse_u16(decimal_digits(n as nat)) is None,
        spec_parse_u64(Seq::<u8>::empty()) is None,
        spec_parse_u64(seq![43u8]) is None,
        spec_parse_u64(seq![45u8] + t) is None,
        spec_parse_u16(seq![45u8] + t) is None,
{
    lemma_decimal_shape(n as nat);
    lemma_decimal_shape(m as nat);
    let d = decimal_digits(n as nat);
    assert((seq![43u8] + d).drop_first() =~= d);
    let neg = seq![45u8] + t;
    assert(neg[0] == 45u8);
    assert(unsigned_digits(neg) == neg);
    assert(!is_digit(neg[0]));
    assert(unsigned_digits(seq![43u8]) =~= Seq::<u8>::empty());
}

/// The lowercase hexadecimal digit of `v` (`v < 16`), as an ASCII byte.
pub open spec fn hex_digit(v: nat) -> u8 {
    if v < 10 {
        (48 + v) as u8
    } else {
        (87 + v) as u8
    }
}

/// Each byte as two lowercase hexadecimal digits, high nibble first: what
/// `format!("{:02x}", b)` writes for each byte.
pub open spec fn hex_digits(s: Seq<u8>) -> Seq<u8>
    decreases s.len(),
{
    if s.len() == 0 {
        seq![]
    } else {
        hex_digits(s.drop_last()) + seq![hex_digit((s.last() / 16) as nat), hex_digit((s.last() % 16) as nat)]
    }
}

pub open spec fn hex_text(s: Seq<u8>) -> Seq<char> {
    ascii_chars(hex_digits(s))
}

fn hex_digit_char(v: u8) -> (c: char)
    requires
        v < 16,
    ensures
        c == hex_digit(v as nat) as char,
{
    if v < 10 {
        ascii_char(48u8 + v)
    } else {
        ascii_char(87u8 + v)
    }
}

/// Appends the lowercase hexadecimal spelling of `bytes` to `out`.
pub fn push_hex(out: &mut String, bytes: &[u8])
    ensures
        final(out)@ == old(out)@ + hex_text(bytes@),
{
    let n = bytes.len();
    let ghost start = out@;
    let mut i: usize = 0;
    while i < n
        invariant
            i <= n,
            n == bytes@.len(),
            out@ == start + hex_text(bytes@.subrange(0, i as int)),
        decreases n - i,
    {
        let b = bytes[i];
        let hi = hex_digit_char(b / 16);
        let lo = hex_digit_char(b % 16);
        push_char(out, hi);
        push_char(out, lo);
        proof {
            let pre = bytes@.subrange(0, i as int);
            let post = bytes@.subrange(0, i + 1);
            assert(post.drop_last() =~= pre);
            let tail = seq![hex_digit((b / 16) as nat), hex_digit((b % 16) as nat)];
            assert(hex_digits(post) == hex_digits(pre) + tail);
            lemma_ascii_chars_concat(hex_digits(pre), tail);
            assert(ascii_chars(tail) =~= seq![hi, lo]);
        }
        i = i + 1;
    }
    assert(bytes@.subrange(0, n as int) =~= bytes@);
}

/// Whether the two texts are the same.
pub fn same_text(a: &str, b: &str) -> (res: bool)
    ensures
        res == (a@ == b@),
{
    let x = a.as_bytes();
    let y = b.as_bytes();
    proof {
        vstd::utf8::encode_utf8_decode_utf8(a@);
        vstd::utf8::encode_utf8_decode_utf8(b@);
    }
    if x.len() != y.len() {
        return false;
    }
    let n = x.len();
    let mut i: usize = 0;
    while i < n
        invariant
            i <= n,
            n == x@.len(),
            n == y@.len(),
            x@ == a.spec_bytes(),
            y@ == b.spec_bytes(),
            forall|j: int| 0 <= j < i ==> x@[j] == y@[j],
        decreases n - i,
    {
        if x[i] != y[i] {
            return false;
        }
        i = i + 1;
    }
    assert(x@ =~= y@);
    true
}

pub proof fn lemma_hex_digits_ascii(s: Seq<u8>)
    ensures
        forall|i: int| 0 <= i < hex_digits(s).len() ==> #[trigger] hex_digits(s)[i] < 128,
    decreases s.len(),
{
    if s.len() > 0 {
        lemma_hex_digits_ascii(s.drop_last());
        let p = hex_digits(s.drop_last());
        let t = seq![hex_digit((s.last() / 16) as nat), hex_digit((s.last() % 16) as nat)];
        assert forall|i: int| 0 <= i < hex_digits(s).len() implies #[trigger] hex_digits(s)[i] < 128 by {
            if i < p.len() {
                assert(hex_digits(s)[i] == p[i]);
            } else {
                assert(hex_digits(s)[i] == t[i - p.len()]);
            }
        }
    }
}

} // verus!
