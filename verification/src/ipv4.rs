//! IPv4 addresses in dotted-decimal notation, parsed and printed as the
//! standard library's `Ipv4Addr` does.
use vstd::prelude::*;
use vstd::string::StringSliceAdditionalSpecFns;
use crate::text::{lemma_ascii_text_bytes, push_char, push_decimal, all_digits, ascii_chars, decimal_digits, digit_byte, digits_value, is_digit, lemma_decimal_shape, lemma_ascii_chars_concat};

verus! {

/// An IPv4 address, as its four octets in network order.
#[derive(Clone, Copy, Debug, PartialEq, Eq, Structural)]
pub struct Ipv4 {
    pub a: u8,
    pub b: u8,
    pub c: u8,
    pub d: u8,
}

/// The ASCII code of `.`.
pub open spec fn dot() -> Seq<u8> {
    seq![46u8]
}

/// The dotted-decimal spelling of `ip` as ASCII bytes: each octet in its
/// shortest decimal form, separated by dots.
pub open spec fn ipv4_digits(ip: Ipv4) -> Seq<u8> {
    decimal_digits(ip.a as nat) + (dot() + ipv4_tail_b(ip))
}

/// The spelling of an address from its second octet on.
pub open spec fn ipv4_tail_b(ip: Ipv4) -> Seq<u8> {
    decimal_digits(ip.b as nat) + (dot() + ipv4_tail_c(ip))
}

/// The spelling of an address from its third octet on.
pub open spec fn ipv4_tail_c(ip: Ipv4) -> Seq<u8> {
    decimal_digits(ip.c as nat) + (dot() + decimal_digits(ip.d as nat))
}

/// The dotted-decimal spelling of `ip` as text.
pub open spec fn ipv4_text(ip: Ipv4) -> Seq<char> {
    ascii_chars(ipv4_digits(ip))
}

/// What `Ipv4Addr::from_str` gives on the UTF-8 text `s`: the address
/// whose dotted-decimal spelling `s` is. The standard parser takes exactly
/// four octets of one to three digits each, without leading zeros, each at
/// most 255, separated by single dots and with nothing around them; those are
/// exactly the texts that some address prints as.
pub open spec fn spec_parse_ipv4(s: Seq<u8>) -> Option<Ipv4> {
    if exists|ip: Ipv4| ipv4_digits(ip) == s {
        Some(choose|ip: Ipv4| ipv4_digits(ip) == s)
    } else {
        None
    }
}

proof fn lemma_octet_digits(v: nat)
    requires
        v <= 255,
    ensures
        1 <= decimal_digits(v).len() <= 3,
        all_digits(decimal_digits(v)),
        decimal_digits(v).len() > 1 ==> decimal_digits(v)[0] != 48,
        digits_value(decimal_digits(v)) == v,
{
    lemma_decimal_shape(v);
    if v >= 10 {
        lemma_decimal_shape(v / 10);
        if v >= 100 {
            lemma_decimal_shape(v / 100);
            assert(v / 10 / 10 == v / 100);
            assert(v / 100 < 10);
        }
    }
}

/// Digits without a superfluous leading zero are the shortest spelling of
/// their value.
proof fn lemma_canonical_digits(t: Seq<u8>)
    requires
        t.len() >= 1,
        all_digits(t),
        t.len() > 1 ==> t[0] != 48,
    ensures
        decimal_digits(digits_value(t)) == t,
        t.len() > 1 ==> digits_value(t) >= 10,
    decreases t.len(),
{
    let v = digits_value(t);
    if t.len() == 1 {
        assert(t.drop_last() =~= Seq::<u8>::empty());
        assert(digits_value(t.drop_last()) == 0);
        assert(t.last() == t[0]);
        assert(v == (t[0] - 48) as nat);
        assert(decimal_digits(v) =~= t);
    } else {
        let p = t.drop_last();
        assert(all_digits(p)) by {
            assert forall|i: int| 0 <= i < p.len() implies is_digit(#[trigger] p[i]) by {
                assert(p[i] == t[i]);
            }
        }
        assert(p[0] == t[0]);
        lemma_canonical_digits(p);
        if p.len() == 1 {
            assert(digits_value(p) >= 1) by {
                assert(p.drop_last() =~= Seq::<u8>::empty());
            }
        }
        let x = t.last();
        assert(is_digit(x));
        assert(v == digits_value(p) * 10 + (x - 48) as nat);
        assert(v / 10 == digits_value(p));
        assert(v % 10 == (x - 48) as nat);
        assert(decimal_digits(v) == decimal_digits(v / 10).push(digit_byte(v % 10)));
        assert(t =~= p.push(x));
    }
}

proof fn lemma_decimal_injective(v: nat, w: nat)
    requires
        decimal_digits(v) == decimal_digits(w),
    ensures
        v == w,
{
    lemma_decimal_shape(v);
    lemma_decimal_shape(w);
}

/// Two texts that each start with a number and a dot start with the same
/// number, and go on alike.
proof fn lemma_dot_split(v: nat, w: nat, x: Seq<u8>, y: Seq<u8>)
    requires
        decimal_digits(v) + (dot() + x) == decimal_digits(w) + (dot() + y),
    ensures
        v == w,
        x == y,
{
    let dv = decimal_digits(v);
    let dw = decimal_digits(w);
    let s = dv + (dot() + x);
    lemma_decimal_shape(v);
    lemma_decimal_shape(w);
    if dv.len() < dw.len() {
        assert(s[dv.len() as int] == 46u8);
        assert(s[dv.len() as int] == dw[dv.len() as int]);
        assert(is_digit(dw[dv.len() as int]));
    } else if dw.len() < dv.len() {
        assert(s[dw.len() as int] == 46u8);
        assert(s[dw.len() as int] == dv[dw.len() as int]);
        assert(is_digit(dv[dw.len() as int]));
    } else {
        assert(dv =~= s.subrange(0, dv.len() as int));
        assert(dw =~= s.subrange(0, dv.len() as int));
        lemma_decimal_injective(v, w);
        assert(x =~= s.subrange(dv.len() as int + 1, s.len() as int));
        assert(y =~= s.subrange(dv.len() as int + 1, s.len() as int));
    }
}

/// The spelling of an address names it alone.
pub proof fn lemma_ipv4_digits_injective(p: Ipv4, q: Ipv4)
    requires
        ipv4_digits(p) == ipv4_digits(q),
    ensures
        p == q,
{
    lemma_dot_split(p.a as nat, q.a as nat, ipv4_tail_b(p), ipv4_tail_b(q));
    lemma_dot_split(p.b as nat, q.b as nat, ipv4_tail_c(p), ipv4_tail_c(q));
    lemma_dot_split(p.c as nat, q.c as nat, decimal_digits(p.d as nat), decimal_digits(q.d as nat));
    lemma_decimal_injective(p.d as nat, q.d as nat);
}

pub open spec fn pow10(k: nat) -> nat
    decreases k,
{
    if k == 0 {
        1
    } else {
        10 * pow10((k - 1) as nat)
    }
}

proof fn lemma_digits_value_bound(t: Seq<u8>)
    requires
        all_digits(t),
    ensures
        digits_value(t) < pow10(t.len()),
    decreases t.len(),
{
    if t.len() > 0 {
        let p = t.drop_last();
        assert(all_digits(p)) by {
            assert forall|i: int| 0 <= i < p.len() implies is_digit(#[trigger] p[i]) by {
                assert(p[i] == t[i]);
            }
        }
        lemma_digits_value_bound(p);
        assert(is_digit(t.last()));
    }
}

/// The octet that the bytes `s[pos..end]` spell, if they spell one.
fn octet_value(bytes: &[u8], pos: usize, end: usize) -> (res: Option<u8>)
    requires
        pos <= end <= bytes@.len(),
    ensures
        match res {
            Some(v) => bytes@.subrange(pos as int, end as int) == decimal_digits(v as nat),
            None => forall|v: u8| bytes@.subrange(pos as int, end as int) != decimal_digits(v as nat),
        },
{
    let ghost s = bytes@;
    let ghost seg = s.subrange(pos as int, end as int);
    let len = end - pos;
    if len == 0 || len > 3 {
        proof {
            assert forall|v: u8| #![auto] seg != decimal_digits(v as nat) by {
                lemma_octet_digits(v as nat);
            }
        }
        return None;
    }
    if len > 1 && bytes[pos] == 48u8 {
        proof {
            assert forall|v: u8| #![auto] seg != decimal_digits(v as nat) by {
                lemma_octet_digits(v as nat);
                if seg == decimal_digits(v as nat) {
                    assert(seg[0] == s[pos as int]);
                }
            }
        }
        return None;
    }
    let mut value: u32 = 0;
    let mut i: usize = pos;
    while i < end
        invariant
            pos <= i <= end,
            end <= s.len(),
            s == bytes@,
            end - pos <= 3,
            seg == s.subrange(pos as int, end as int),
            all_digits(s.subrange(pos as int, i as int)),
            value == digits_value(s.subrange(pos as int, i as int)),
        decreases end - i,
    {
        let b = bytes[i];
        if b < 48u8 || b > 57u8 {
            proof {
                assert forall|v: u8| #![auto] seg != decimal_digits(v as nat) by {
                    lemma_octet_digits(v as nat);
                    if seg == decimal_digits(v as nat) {
                        assert(seg[i - pos] == b);
                    }
                }
            }
            return None;
        }
        proof {
            let p = s.subrange(pos as int, i as int);
            let q = s.subrange(pos as int, i + 1);
            assert(q.drop_last() =~= p);
            assert(q.last() == b);
            assert forall|k: int| 0 <= k < q.len() implies is_digit(#[trigger] q[k]) by {
                if k < p.len() {
                    assert(q[k] == p[k]);
                }
            }
            lemma_digits_value_bound(q);
            assert(pow10(0) == 1);
            assert(pow10(1) == 10);
            assert(pow10(2) == 100);
            assert(pow10(3) == 1000);
        }
        value = value * 10 + (b - 48u8) as u32;
        i = i + 1;
    }
    if value > 255 {
        proof {
            assert forall|v: u8| #![auto] seg != decimal_digits(v as nat) by {
                lemma_octet_digits(v as nat);
            }
        }
        return None;
    }
    proof {
        lemma_canonical_digits(seg);
    }
    Some(value as u8)
}

/// Reads one octet that starts at `pos`: up to the next dot, or to the end
/// where `last`; for a middle octet, `next` is the position after its dot.
fn read_octet(bytes: &[u8], pos: usize, last: bool) -> (res: Option<(u8, usize)>)
    requires
        pos <= bytes@.len(),
    ensures
        match res {
            Some((v, next)) => if last {
                &&& next == bytes@.len()
                &&& bytes@.subrange(pos as int, next as int) == decimal_digits(v as nat)
            } else {
                &&& pos < next <= bytes@.len()
                &&& bytes@.subrange(pos as int, next as int) == decimal_digits(v as nat) + dot()
            },
            None => if last {
                forall|v: u8| bytes@.subrange(pos as int, bytes@.len() as int) != decimal_digits(v as nat)
            } else {
                forall|v: u8, rest: Seq<u8>|
                    bytes@.subrange(pos as int, bytes@.len() as int) != decimal_digits(v as nat) + (dot() + rest)
            },
        },
{
    let n = bytes.len();
    let ghost s = bytes@;
    let ghost tail = s.subrange(pos as int, n as int);
    let mut end: usize = pos;
    while end < n && bytes[end] != 46u8
        invariant
            pos <= end <= n,
            n == s.len(),
            s == bytes@,
            forall|i: int| pos <= i < end ==> s[i] != 46u8,
        decreases n - end,
    {
        end = end + 1;
    }
    let ghost seg = s.subrange(pos as int, end as int);
    // every way the tail could spell an octet ends that octet at `end`
    proof {
        assert forall|v: u8, rest: Seq<u8>|
            #![trigger decimal_digits(v as nat), tail.add(rest)]
            tail == (if last { decimal_digits(v as nat) } else { decimal_digits(v as nat) + (dot() + rest) })
            implies seg == decimal_digits(v as nat) && (!last ==> end < n) && (last ==> end == n) by {
            let dv = decimal_digits(v as nat);
            lemma_octet_digits(v as nat);
            if dv.len() < end - pos {
                assert(tail[dv.len() as int] == s[pos + dv.len()]);
                if last {
                    assert(tail.len() == dv.len());
                } else {
                    assert(tail[dv.len() as int] == 46u8);
                }
            } else if dv.len() > end - pos {
                assert(end < n);
                assert(s[end as int] == 46u8);
                assert(tail[end - pos] == s[end as int]);
                assert(tail[end - pos] == dv[end - pos]);
                assert(is_digit(dv[end - pos]));
            } else {
                assert(seg =~= tail.subrange(0, dv.len() as int));
                assert(dv =~= tail.subrange(0, dv.len() as int));
                if !last {
                    assert(tail[dv.len() as int] == 46u8);
                }
            }
        }
    }
    proof {
        if last {
            assert forall|v: u8| tail == decimal_digits(v as nat) implies seg == decimal_digits(v as nat) && end == n by {
                let r = Seq::<u8>::empty();
                let _ = tail.add(r);
            }
        } else {
            assert forall|v: u8, rest: Seq<u8>| tail == decimal_digits(v as nat) + (dot() + rest) implies seg == decimal_digits(v as nat) && end < n by {
                let _ = tail.add(rest);
            }
        }
    }
    if last && end < n {
        return None;
    }
    if !last && end == n {
        return None;
    }
    match octet_value(bytes, pos, end) {
        Some(v) => {
            if last {
                Some((v, n))
            } else {
                proof {
                    assert(s.subrange(pos as int, end + 1) =~= seg + dot());
                }
                Some((v, end + 1))
            }
        },
        None => {
            None
        },
    }
}

impl Ipv4 {
    /// The address `a.b.c.d`.
    pub fn new(a: u8, b: u8, c: u8, d: u8) -> (ip: Self)
        ensures
            ip == (Ipv4 { a, b, c, d }),
    {
        Ipv4 { a, b, c, d }
    }

    /// Parses `s` as `Ipv4Addr::from_str` does.
    pub fn parse(s: &str) -> (res: Option<Ipv4>)
        ensures
            res == spec_parse_ipv4(s.spec_bytes()),
    {
        let bytes = s.as_bytes();
        let ghost all = bytes@;
        let ghost n = all.len() as int;
        assert(all.subrange(0, n) =~= all);
        let (a, p1) = match read_octet(bytes, 0, false) {
            Some(r) => r,
            None => {
                proof {
                    assert forall|ip: Ipv4| ipv4_digits(ip) != all by {
                        if ipv4_digits(ip) == all {
                            assert(all.subrange(0, n) == decimal_digits(ip.a as nat) + (dot() + ipv4_tail_b(ip)));
                        }
                    }
                }
                return None;
            },
        };
        let ghost r1 = all.subrange(p1 as int, n);
        assert(all =~= all.subrange(0, p1 as int) + r1);
        assert(all =~= decimal_digits(a as nat) + (dot() + r1));
        let (b, p2) = match read_octet(bytes, p1, false) {
            Some(r) => r,
            None => {
                proof {
                    assert forall|ip: Ipv4| ipv4_digits(ip) != all by {
                        if ipv4_digits(ip) == all {
                            lemma_dot_split(ip.a as nat, a as nat, ipv4_tail_b(ip), r1);
                            assert(r1 == decimal_digits(ip.b as nat) + (dot() + ipv4_tail_c(ip)));
                        }
                    }
                }
                return None;
            },
        };
        let ghost r2 = all.subrange(p2 as int, n);
        assert(r1 =~= all.subrange(p1 as int, p2 as int) + r2);
        assert(r1 =~= decimal_digits(b as nat) + (dot() + r2));
        let (c, p3) = match read_octet(bytes, p2, false) {
            Some(r) => r,
            None => {
                proof {
                    assert forall|ip: Ipv4| ipv4_digits(ip) != all by {
                        if ipv4_digits(ip) == all {
                            lemma_dot_split(ip.a as nat, a as nat, ipv4_tail_b(ip), r1);
                            lemma_dot_split(ip.b as nat, b as nat, ipv4_tail_c(ip), r2);
                            assert(r2 == decimal_digits(ip.c as nat) + (dot() + decimal_digits(ip.d as nat)));
                        }
                    }
                }
                return None;
            },
        };
        let ghost r3 = all.subrange(p3 as int, n);
        assert(r2 =~= all.subrange(p2 as int, p3 as int) + r3);
        assert(r2 =~= decimal_digits(c as nat) + (dot() + r3));
        let (d, _end) = match read_octet(bytes, p3, true) {
            Some(r) => r,
            None => {
                proof {
                    assert forall|ip: Ipv4| ipv4_digits(ip) != all by {
                        if ipv4_digits(ip) == all {
                            lemma_dot_split(ip.a as nat, a as nat, ipv4_tail_b(ip), r1);
                            lemma_dot_split(ip.b as nat, b as nat, ipv4_tail_c(ip), r2);
                            lemma_dot_split(ip.c as nat, c as nat, decimal_digits(ip.d as nat), r3);
                        }
                    }
                }
                return None;
            },
        };
        let ip = Ipv4 { a, b, c, d };
        proof {
            assert(r3 == decimal_digits(d as nat));
            assert(ipv4_digits(ip) == all);
            assert forall|q: Ipv4| ipv4_digits(q) == all implies q == ip by {
                lemma_ipv4_digits_injective(q, ip);
            }
        }
        Some(ip)
    }
}

impl Ipv4 {
    /// The dotted-decimal spelling of the address, as `Ipv4Addr`'s
    /// `to_string` writes it.
    pub fn to_string(&self) -> (res: String)
        ensures
            res@ == ipv4_text(*self),
    {
        let mut out = String::new();
        push_decimal(&mut out, self.a as u64);
        push_char(&mut out, '.');
        push_decimal(&mut out, self.b as u64);
        push_char(&mut out, '.');
        push_decimal(&mut out, self.c as u64);
        push_char(&mut out, '.');
        push_decimal(&mut out, self.d as u64);
        proof {
            let ip = *self;
            lemma_ascii_chars_concat(decimal_digits(ip.c as nat), dot() + decimal_digits(ip.d as nat));
            lemma_ascii_chars_concat(dot(), decimal_digits(ip.d as nat));
            lemma_ascii_chars_concat(decimal_digits(ip.b as nat), dot() + ipv4_tail_c(ip));
            lemma_ascii_chars_concat(dot(), ipv4_tail_c(ip));
            lemma_ascii_chars_concat(decimal_digits(ip.a as nat), dot() + ipv4_tail_b(ip));
            lemma_ascii_chars_concat(dot(), ipv4_tail_b(ip));
            assert(ascii_chars(dot()) =~= seq!['.']);
            assert(out@ =~= ipv4_text(ip));
        }
        out
    }
}

/// Whether `ip` differs from the address seen before, where one was seen.
pub fn has_new_ip(previous_ip: Option<Ipv4>, ip: Ipv4) -> (res: bool)
    ensures
        res == (previous_ip != Some(ip)),
{
    match previous_ip {
        Some(previous) => previous != ip,
        None => true,
    }
}

proof fn lemma_ipv4_digits_ascii(ip: Ipv4)
    ensures
        forall|i: int| 0 <= i < ipv4_digits(ip).len() ==> #[trigger] ipv4_digits(ip)[i] < 128,
{
    lemma_octet_digits(ip.a as nat);
    lemma_octet_digits(ip.b as nat);
    lemma_octet_digits(ip.c as nat);
    lemma_octet_digits(ip.d as nat);
    let s = ipv4_digits(ip);
    assert forall|i: int| 0 <= i < s.len() implies #[trigger] s[i] < 128 by {
        let da = decimal_digits(ip.a as nat);
        let db = decimal_digits(ip.b as nat);
        let dc = decimal_digits(ip.c as nat);
        let dd = decimal_digits(ip.d as nat);
        if i < da.len() {
            assert(s[i] == da[i]);
            assert(is_digit(da[i]));
        } else if i == da.len() {
        } else if i < da.len() + 1 + db.len() {
            assert(s[i] == db[i - da.len() - 1]);
            assert(is_digit(db[i - da.len() - 1]));
        } else if i == da.len() + 1 + db.len() {
        } else if i < da.len() + 2 + db.len() + dc.len() {
            assert(s[i] == dc[i - da.len() - db.len() - 2]);
            assert(is_digit(dc[i - da.len() - db.len() - 2]));
        } else if i == da.len() + 2 + db.len() + dc.len() {
        } else {
            assert(s[i] == dd[i - da.len() - db.len() - dc.len() - 3]);
            assert(is_digit(dd[i - da.len() - db.len() - dc.len() - 3]));
        }
    }
}

/// Printing an address and parsing the text back gives the address.
pub proof fn law_ipv4_roundtrip(ip: Ipv4)
    ensures
        spec_parse_ipv4(vstd::utf8::encode_utf8(ipv4_text(ip))) == Some(ip),
{
    lemma_ipv4_digits_ascii(ip);
    lemma_ascii_text_bytes(ipv4_digits(ip));
    let s = ipv4_digits(ip);
    assert(ipv4_digits(ip) == s);
    assert forall|q: Ipv4| ipv4_digits(q) == s implies q == ip by {
        lemma_ipv4_digits_injective(q, ip);
    }
}

/// Parsing accepts only the canonical spelling of the address it returns:
/// printing what was parsed gives back the very text.
pub proof fn law_ipv4_canonical(s: Seq<u8>)
    ensures
        spec_parse_ipv4(s) matches Some(ip) ==> ipv4_digits(ip) == s,
{
}

} // verus!
