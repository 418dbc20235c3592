use vstd::prelude::*;

use crate::ipv6::{ipv6_parsed, ipv6_text, lemma_ipv6_text_has_colon, law_ipv6_parse_of_text, Ipv6Address};
use crate::text::{
    chars_of, decimal_text, digit_char, digit_value, digits_u16, is_digit,
    lemma_decimal_text_value, parse_digits, push_char, push_decimal, push_str, slice_chars,
};

verus! {

/// An IPv4 address, by its four octets in network order.
#[derive(Clone, Copy, Debug, PartialEq, Eq, Structural)]
pub struct Ipv4Address {
    pub a: u8,
    pub b: u8,
    pub c: u8,
    pub d: u8,
}

/// A multicast address: one in `224.0.0.0/4`.
pub open spec fn is_multicast_ip(ip: Ipv4Address) -> bool {
    224 <= ip.a <= 239
}

/// The dotted decimal text of an address, such as `127.0.0.1`.
pub open spec fn ipv4_text(ip: Ipv4Address) -> Seq<char> {
    decimal_text(ip.a as nat) + seq!['.'] + decimal_text(ip.b as nat) + seq!['.']
        + decimal_text(ip.c as nat) + seq!['.'] + decimal_text(ip.d as nat)
}

/// The IPv4 address whose dotted decimal text is `text`, if any.
pub open spec fn ipv4_parsed(text: Seq<char>) -> Option<Ipv4Address> {
    if exists|ip: Ipv4Address| ipv4_text(ip) == text {
        Some(choose|ip: Ipv4Address| ipv4_text(ip) == text)
    } else {
        None
    }
}

/// The decimal text of an octet is one to three digits, with no leading zero.
proof fn lemma_octet_text(v: u8)
    ensures
        1 <= decimal_text(v as nat).len() <= 3,
        forall|i: int| 0 <= i < decimal_text(v as nat).len() ==> is_digit(
            #[trigger] decimal_text(v as nat)[i],
        ),
        decimal_text(v as nat).len() > 1 ==> decimal_text(v as nat)[0] != '0',
        decimal_text(v as nat).len() == 1 ==> v == digit_value(decimal_text(v as nat)[0]),
        decimal_text(v as nat).len() == 2 ==> v == 10 * digit_value(decimal_text(v as nat)[0])
            + digit_value(decimal_text(v as nat)[1]),
        decimal_text(v as nat).len() == 3 ==> v == 100 * digit_value(decimal_text(v as nat)[0])
            + 10 * digit_value(decimal_text(v as nat)[1]) + digit_value(decimal_text(v as nat)[2]),
{
    let n = v as nat;
    if n < 10 {
        assert(decimal_text(n) == seq![digit_char(n)]);
    } else if n < 100 {
        assert(decimal_text(n / 10) == seq![digit_char(n / 10)]);
        assert(decimal_text(n) == seq![digit_char(n / 10), digit_char(n % 10)]);
    } else {
        assert(decimal_text(n / 10 / 10) == seq![digit_char(n / 10 / 10)]);
        assert(decimal_text(n / 10) == seq![digit_char(n / 10 / 10), digit_char((n / 10) % 10)]);
        assert(decimal_text(n) == seq![
            digit_char(n / 10 / 10),
            digit_char((n / 10) % 10),
            digit_char(n % 10),
        ]);
    }
}

/// Three or fewer digits without a leading zero are the decimal text of
/// the value they spell.
proof fn lemma_digits_are_octet_text(t: Seq<char>, v: nat)
    requires
        1 <= t.len() <= 3,
        forall|i: int| 0 <= i < t.len() ==> is_digit(#[trigger] t[i]),
        t.len() > 1 ==> t[0] != '0',
        t.len() == 1 ==> v == digit_value(t[0]),
        t.len() == 2 ==> v == 10 * digit_value(t[0]) + digit_value(t[1]),
        t.len() == 3 ==> v == 100 * digit_value(t[0]) + 10 * digit_value(t[1]) + digit_value(t[2]),
    ensures
        decimal_text(v) == t,
{
    assert(is_digit(t[0]));
    if t.len() == 1 {
        assert(decimal_text(v) =~= t);
    } else if t.len() == 2 {
        assert(is_digit(t[1]));
        assert(v / 10 == digit_value(t[0]));
        assert(v % 10 == digit_value(t[1]));
        assert(decimal_text(v / 10) == seq![digit_char(v / 10)]);
        assert(decimal_text(v) =~= t);
    } else {
        assert(is_digit(t[1]));
        assert(is_digit(t[2]));
        assert(v / 10 == 10 * digit_value(t[0]) + digit_value(t[1]));
        assert(v % 10 == digit_value(t[2]));
        assert(v / 10 / 10 == digit_value(t[0]));
        assert((v / 10) % 10 == digit_value(t[1]));
        assert(decimal_text(v / 10 / 10) == seq![digit_char(v / 10 / 10)]);
        assert(decimal_text(v / 10) =~= seq![digit_char(v / 10 / 10), digit_char((v / 10) % 10)]);
        assert(decimal_text(v) =~= t);
    }
}

/// Reads the octet spelled by `chars[start..end]`.
fn parse_octet(chars: &Vec<char>, start: usize, end: usize) -> (octet: Option<u8>)
    requires
        start <= end <= chars@.len(),
    ensures
        match octet {
            Some(v) => decimal_text(v as nat) == chars@.subrange(start as int, end as int),
            None => forall|v: u8|
                decimal_text(v as nat) != chars@.subrange(start as int, end as int),
        },
{
    let ghost t = chars@.subrange(start as int, end as int);
    let len = end - start;
    if len == 0 || len > 3 {
        proof {
            assert forall|v: u8| decimal_text(v as nat) != t by {
                lemma_octet_text(v);
            }
        }
        return None;
    }
    let mut value: u32 = 0;
    let mut i = start;
    while i < end
        invariant
            start <= i <= end <= chars@.len(),
            end - start <= 3,
            t == chars@.subrange(start as int, end as int),
            forall|j: int| 0 <= j < i - start ==> is_digit(#[trigger] t[j]),
            i - start == 0 ==> value == 0,
            i - start == 1 ==> value == digit_value(t[0]),
            i - start == 2 ==> value == 10 * digit_value(t[0]) + digit_value(t[1]),
            i - start == 3 ==> value == 100 * digit_value(t[0]) + 10 * digit_value(t[1])
                + digit_value(t[2]),
        decreases end - i,
    {
        let c = chars[i];
        if !('0' <= c && c <= '9') {
            proof {
                assert(t[i - start] == c);
                assert forall|v: u8| decimal_text(v as nat) != t by {
                    lemma_octet_text(v);
                    if decimal_text(v as nat) == t {
                        assert(is_digit(decimal_text(v as nat)[i - start]));
                    }
                }
            }
            return None;
        }
        assert(t[i - start] == c);
        value = value * 10 + (c as u32 - 48);
        i = i + 1;
    }
    if len > 1 && chars[start] == '0' {
        proof {
            assert(t[0] == '0');
            assert forall|v: u8| decimal_text(v as nat) != t by {
                lemma_octet_text(v);
            }
        }
        return None;
    }
    if value > 255 {
        proof {
            assert forall|v: u8| decimal_text(v as nat) != t by {
                lemma_octet_text(v);
            }
        }
        return None;
    }
    proof {
        lemma_digits_are_octet_text(t, value as nat);
    }
    Some(value as u8)
}

/// The position of the first `target` at or after `from`.
fn find_char(chars: &Vec<char>, from: usize, target: char) -> (position: Option<usize>)
    requires
        from <= chars@.len(),
    ensures
        match position {
            Some(p) => from <= p < chars@.len() && chars@[p as int] == target && forall|j: int|
                from <= j < p ==> chars@[j] != target,
            None => forall|j: int| from <= j < chars@.len() ==> chars@[j] != target,
        },
{
    let mut i = from;
    while i < chars.len()
        invariant
            from <= i <= chars@.len(),
            forall|j: int| from <= j < i ==> chars@[j] != target,
        decreases chars@.len() - i,
    {
        if chars[i] == target {
            return Some(i);
        }
        i = i + 1;
    }
    None
}

/// The decimal text of an octet holds no dot.
proof fn lemma_octet_text_has_no_dot(v: u8)
    ensures
        forall|i: int| 0 <= i < decimal_text(v as nat).len() ==> #[trigger] decimal_text(
            v as nat,
        )[i] != '.',
{
    lemma_octet_text(v);
}

impl Ipv4Address {
    /// The address `127.0.0.1`.
    pub fn localhost() -> (ip: Ipv4Address)
        ensures
            ip == (Ipv4Address { a: 127, b: 0, c: 0, d: 1 }),
    {
        Ipv4Address { a: 127, b: 0, c: 0, d: 1 }
    }

    /// Whether this is a multicast address.
    pub fn is_multicast(&self) -> (multicast: bool)
        ensures
            multicast == is_multicast_ip(*self),
    {
        224 <= self.a && self.a <= 239
    }

    /// The dotted decimal text of this address.
    pub fn to_text(&self) -> (text: String)
        ensures
            text@ == ipv4_text(*self),
    {
        let mut s = String::new();
        push_decimal(&mut s, self.a as u64);
        push_char(&mut s, '.');
        push_decimal(&mut s, self.b as u64);
        push_char(&mut s, '.');
        push_decimal(&mut s, self.c as u64);
        push_char(&mut s, '.');
        push_decimal(&mut s, self.d as u64);
        assert(s@ =~= ipv4_text(*self));
        s
    }

    /// The IPv4 address whose dotted decimal text is `text`: four octets
    /// in decimal, separated by dots, each without leading zeros.
    pub fn parse(text: &str) -> (ip: Option<Ipv4Address>)
        ensures
            match ip {
                Some(ip) => ipv4_text(ip) == text@,
                None => forall|ip: Ipv4Address| ipv4_text(ip) != text@,
            },
    {
        let chars = chars_of(text);
        Self::parse_chars(&chars)
    }

    /// The address whose dotted decimal text is `chars`.
    pub(crate) fn parse_chars(chars: &Vec<char>) -> (ip: Option<Ipv4Address>)
        ensures
            match ip {
                Some(ip) => ipv4_text(ip) == chars@,
                None => forall|ip: Ipv4Address| ipv4_text(ip) != chars@,
            },
    {
        let ghost s = chars@;
        let n = chars.len();
        let p1 = find_char(chars, 0, '.');
        let p1 = match p1 {
            Some(p) => p,
            None => {
                proof { Self::lemma_dots(s); }
                return None;
            },
        };
        let p2 = match find_char(chars, p1 + 1, '.') {
            Some(p) => p,
            None => {
                proof { Self::lemma_dots(s); }
                return None;
            },
        };
        let p3 = match find_char(chars, p2 + 1, '.') {
            Some(p) => p,
            None => {
                proof { Self::lemma_dots(s); }
                return None;
            },
        };
        if find_char(chars, p3 + 1, '.').is_some() {
            proof { Self::lemma_dots(s); }
            return None;
        }
        let a = parse_octet(chars, 0, p1);
        let b = parse_octet(chars, p1 + 1, p2);
        let c = parse_octet(chars, p2 + 1, p3);
        let d = parse_octet(chars, p3 + 1, n);
        match (a, b, c, d) {
            (Some(a), Some(b), Some(c), Some(d)) => {
                let ip = Ipv4Address { a, b, c, d };
                assert(ipv4_text(ip) =~= s);
                Some(ip)
            },
            _ => {
                proof { Self::lemma_dots(s); }
                return None;
            },
        }
    }

    /// Where the dots of an address text stand.
    proof fn lemma_dots(s: Seq<char>)
        ensures
            forall|ip: Ipv4Address| #[trigger] ipv4_text(ip) == s ==> {
                let la = decimal_text(ip.a as nat).len() as int;
                let lb = decimal_text(ip.b as nat).len() as int;
                let lc = decimal_text(ip.c as nat).len() as int;
                &&& s[la as int] == '.'
                &&& s[la + 1 + lb] == '.'
                &&& s[la + 1 + lb + 1 + lc] == '.'
                &&& forall|j: int| 0 <= j < la ==> s[j] != '.'
                &&& forall|j: int| la + 1 <= j < la + 1 + lb ==> s[j] != '.'
                &&& forall|j: int| la + 1 + lb + 1 <= j < la + 1 + lb + 1 + lc ==> s[j] != '.'
                &&& forall|j: int| la + 1 + lb + 1 + lc + 1 <= j < s.len() ==> s[j] != '.'
                &&& s.subrange(0, la as int) == decimal_text(ip.a as nat)
                &&& s.subrange(la + 1, la + 1 + lb) == decimal_text(ip.b as nat)
                &&& s.subrange(la + 1 + lb + 1, la + 1 + lb + 1 + lc) == decimal_text(ip.c as nat)
                &&& s.subrange(la + 1 + lb + 1 + lc + 1, s.len() as int) == decimal_text(
                    ip.d as nat,
                )
            },
    {
        assert forall|ip: Ipv4Address| #[trigger] ipv4_text(ip) == s implies {
            let la = decimal_text(ip.a as nat).len() as int;
            let lb = decimal_text(ip.b as nat).len() as int;
            let lc = decimal_text(ip.c as nat).len() as int;
            &&& s[la as int] == '.'
            &&& s[la + 1 + lb] == '.'
            &&& s[la + 1 + lb + 1 + lc] == '.'
            &&& forall|j: int| 0 <= j < la ==> s[j] != '.'
            &&& forall|j: int| la + 1 <= j < la + 1 + lb ==> s[j] != '.'
            &&& forall|j: int| la + 1 + lb + 1 <= j < la + 1 + lb + 1 + lc ==> s[j] != '.'
            &&& forall|j: int| la + 1 + lb + 1 + lc + 1 <= j < s.len() ==> s[j] != '.'
            &&& s.subrange(0, la as int) == decimal_text(ip.a as nat)
            &&& s.subrange(la + 1, la + 1 + lb) == decimal_text(ip.b as nat)
            &&& s.subrange(la + 1 + lb + 1, la + 1 + lb + 1 + lc) == decimal_text(ip.c as nat)
            &&& s.subrange(la + 1 + lb + 1 + lc + 1, s.len() as int) == decimal_text(ip.d as nat)
        } by {
            let ta = decimal_text(ip.a as nat);
            let tb = decimal_text(ip.b as nat);
            let tc = decimal_text(ip.c as nat);
            let td = decimal_text(ip.d as nat);
            lemma_octet_text_has_no_dot(ip.a);
            lemma_octet_text_has_no_dot(ip.b);
            lemma_octet_text_has_no_dot(ip.c);
            lemma_octet_text_has_no_dot(ip.d);
            let la = ta.len() as int;
            let lb = tb.len() as int;
            let lc = tc.len() as int;
            assert forall|j: int| 0 <= j < la implies s[j] == ta[j] by {}
            assert forall|j: int| la + 1 <= j < la + 1 + lb implies s[j] == tb[j - la - 1] by {}
            assert forall|j: int| la + 1 + lb + 1 <= j < la + 1 + lb + 1 + lc implies s[j] == tc[j
                - la - lb - 2] by {}
            assert forall|j: int| la + 1 + lb + 1 + lc + 1 <= j < s.len() implies s[j] == td[j - la
                - lb - lc - 3] by {}
            assert(s.subrange(0, la as int) =~= ta);
            assert(s.subrange(la + 1, la + 1 + lb) =~= tb);
            assert(s.subrange(la + 1 + lb + 1, la + 1 + lb + 1 + lc) =~= tc);
            assert(s.subrange(la + 1 + lb + 1 + lc + 1, s.len() as int) =~= td);
        }
    }
}

/// Different octets have different decimal texts.
proof fn lemma_octet_text_injective(u: u8, v: u8)
    ensures
        decimal_text(u as nat) == decimal_text(v as nat) ==> u == v,
{
    lemma_octet_text(u);
    lemma_octet_text(v);
}

/// Different addresses have different texts.
pub proof fn lemma_ipv4_text_injective(x: Ipv4Address, y: Ipv4Address)
    ensures
        ipv4_text(x) == ipv4_text(y) ==> x == y,
{
    if ipv4_text(x) == ipv4_text(y) {
        let s = ipv4_text(x);
        Ipv4Address::lemma_dots(s);
        let xa = decimal_text(x.a as nat).len() as int;
        let ya = decimal_text(y.a as nat).len() as int;
        assert(xa == ya) by {
            if xa < ya {
                assert(s[xa] == '.');
            } else if ya < xa {
                assert(s[ya] == '.');
            }
        }
        let xb = decimal_text(x.b as nat).len() as int;
        let yb = decimal_text(y.b as nat).len() as int;
        assert(xb == yb) by {
            if xb < yb {
                assert(s[xa + 1 + xb] == '.');
            } else if yb < xb {
                assert(s[ya + 1 + yb] == '.');
            }
        }
        let xc = decimal_text(x.c as nat).len() as int;
        let yc = decimal_text(y.c as nat).len() as int;
        assert(xc == yc) by {
            if xc < yc {
                assert(s[xa + 1 + xb + 1 + xc] == '.');
            } else if yc < xc {
                assert(s[ya + 1 + yb + 1 + yc] == '.');
            }
        }
        lemma_octet_text_injective(x.a, y.a);
        lemma_octet_text_injective(x.b, y.b);
        lemma_octet_text_injective(x.c, y.c);
        lemma_octet_text_injective(x.d, y.d);
    }
}

/// The text of an address holds no colon.
pub proof fn lemma_ipv4_text_has_no_colon(ip: Ipv4Address)
    ensures
        forall|i: int| 0 <= i < ipv4_text(ip).len() ==> #[trigger] ipv4_text(ip)[i] != ':',
{
    lemma_octet_text(ip.a);
    lemma_octet_text(ip.b);
    lemma_octet_text(ip.c);
    lemma_octet_text(ip.d);
    let ta = decimal_text(ip.a as nat);
    let tb = decimal_text(ip.b as nat);
    let tc = decimal_text(ip.c as nat);
    let td = decimal_text(ip.d as nat);
    let t = ipv4_text(ip);
    assert forall|i: int| 0 <= i < t.len() implies #[trigger] t[i] != ':' by {
        let la = ta.len() as int;
        let lb = tb.len() as int;
        let lc = tc.len() as int;
        if i < la {
            assert(t[i] == ta[i]);
        } else if i == la {
        } else if i < la + 1 + lb {
            assert(t[i] == tb[i - la - 1]);
        } else if i == la + 1 + lb {
        } else if i < la + 1 + lb + 1 + lc {
            assert(t[i] == tc[i - la - lb - 2]);
        } else if i == la + 1 + lb + 1 + lc {
        } else {
            assert(t[i] == td[i - la - lb - lc - 3]);
        }
    }
}

/// The text of an address is made of digits and dots, a digit first.
pub proof fn lemma_ipv4_text_chars(ip: Ipv4Address)
    ensures
        forall|i: int| 0 <= i < ipv4_text(ip).len() ==> is_digit(#[trigger] ipv4_text(ip)[i])
            || ipv4_text(ip)[i] == '.',
        is_digit(ipv4_text(ip)[0]),
{
    lemma_octet_text(ip.a);
    lemma_octet_text(ip.b);
    lemma_octet_text(ip.c);
    lemma_octet_text(ip.d);
    let ta = decimal_text(ip.a as nat);
    let tb = decimal_text(ip.b as nat);
    let tc = decimal_text(ip.c as nat);
    let td = decimal_text(ip.d as nat);
    let t = ipv4_text(ip);
    assert(t[0] == ta[0]);
    assert forall|i: int| 0 <= i < t.len() implies is_digit(#[trigger] t[i]) || t[i] == '.' by {
        let la = ta.len() as int;
        let lb = tb.len() as int;
        let lc = tc.len() as int;
        if i < la {
            assert(t[i] == ta[i]);
        } else if i == la {
        } else if i < la + 1 + lb {
            assert(t[i] == tb[i - la - 1]);
        } else if i == la + 1 + lb {
        } else if i < la + 1 + lb + 1 + lc {
            assert(t[i] == tc[i - la - lb - 2]);
        } else if i == la + 1 + lb + 1 + lc {
        } else {
            assert(t[i] == td[i - la - lb - lc - 3]);
        }
    }
}

/// The text of an address holds a dot after its first octet.
pub proof fn lemma_ipv4_text_dot(ip: Ipv4Address)
    ensures
        ipv4_text(ip)[decimal_text(ip.a as nat).len() as int] == '.',
        decimal_text(ip.a as nat).len() < ipv4_text(ip).len(),
{
    lemma_octet_text(ip.a);
}

/// An IP address: IPv4 or IPv6.
#[derive(Clone, Copy, Debug, PartialEq, Eq, Structural)]
pub enum IpAddress {
    V4(Ipv4Address),
    V6(Ipv6Address),
}

/// An IP address together with a port.
#[derive(Clone, Copy, Debug, PartialEq, Eq, Structural)]
pub struct SocketAddress {
    pub ip: IpAddress,
    pub port: u16,
}

/// The IPv6 address with the segments `segments`.
pub open spec fn ipv6_of_segments(segments: Seq<u16>) -> Ipv6Address {
    Ipv6Address {
        s0: segments[0],
        s1: segments[1],
        s2: segments[2],
        s3: segments[3],
        s4: segments[4],
        s5: segments[5],
        s6: segments[6],
        s7: segments[7],
    }
}

/// The text of an address: dotted decimal for IPv4, the colon form of
/// [`ipv6_text`] for IPv6.
pub open spec fn ip_text(ip: IpAddress) -> Seq<char> {
    match ip {
        IpAddress::V4(a) => ipv4_text(a),
        IpAddress::V6(a) => ipv6_text(a),
    }
}

/// The address a text gives: the IPv4 address it spells in dotted decimal,
/// or else the IPv6 address it spells.
pub open spec fn ip_parsed(text: Seq<char>) -> Option<IpAddress> {
    match ipv4_parsed(text) {
        Some(a) => Some(IpAddress::V4(a)),
        None => match ipv6_parsed(text) {
            Some(segments) => Some(IpAddress::V6(ipv6_of_segments(segments))),
            None => None,
        },
    }
}

/// The IPv4 address that dotted decimal text spells.
proof fn lemma_ipv4_parsed(ip: Ipv4Address)
    ensures
        ipv4_parsed(ipv4_text(ip)) == Some(ip),
{
    let chosen = choose|other: Ipv4Address| ipv4_text(other) == ipv4_text(ip);
    lemma_ipv4_text_injective(chosen, ip);
}

/// Law: the text of an address reads back as that address; so no two
/// addresses have the same text.
pub proof fn law_parse_of_text(ip: IpAddress, other: IpAddress)
    ensures
        ip_parsed(ip_text(ip)) == Some(ip),
        ip_text(other) == ip_text(ip) ==> other == ip,
{
    lemma_parse_of_text(ip);
    lemma_parse_of_text(other);
}

proof fn lemma_parse_of_text(ip: IpAddress)
    ensures
        ip_parsed(ip_text(ip)) == Some(ip),
{
    match ip {
        IpAddress::V4(a) => {
            lemma_ipv4_parsed(a);
        },
        IpAddress::V6(a) => {
            law_ipv6_parse_of_text(a);
            lemma_ipv6_text_has_colon(a);
            let t = ipv6_text(a);
            assert forall|v: Ipv4Address| ipv4_text(v) != t by {
                lemma_ipv4_text_has_no_colon(v);
                if ipv4_text(v) == t {
                    let k = choose|k: int| 0 <= k < t.len() && t[k] == ':';
                    assert(ipv4_text(v)[k] != ':');
                }
            }
            assert(ipv6_of_segments(a.segments()) == a);
        },
    }
}

impl IpAddress {
    /// The address `127.0.0.1`.
    pub fn localhost() -> (ip: IpAddress)
        ensures
            ip == IpAddress::V4(Ipv4Address { a: 127, b: 0, c: 0, d: 1 }),
    {
        IpAddress::V4(Ipv4Address::localhost())
    }

    /// The text of this address.
    pub fn to_text(&self) -> (text: String)
        ensures
            text@ == ip_text(*self),
    {
        match self {
            IpAddress::V4(a) => a.to_text(),
            IpAddress::V6(a) => a.to_text(),
        }
    }

    /// The address a text gives, read as [`ip_parsed`] describes.
    pub fn parse(text: &str) -> (ip: Option<IpAddress>)
        ensures
            ip == ip_parsed(text@),
    {
        let chars = chars_of(text);
        Self::parse_chars(&chars)
    }

    pub(crate) fn parse_chars(chars: &Vec<char>) -> (ip: Option<IpAddress>)
        ensures
            ip == ip_parsed(chars@),
    {
        match Ipv4Address::parse_chars(chars) {
            Some(a) => {
                proof {
                    lemma_ipv4_parsed(a);
                }
                Some(IpAddress::V4(a))
            },
            None => match Ipv6Address::parse_chars(chars) {
                Some(a) => {
                    assert(ipv6_of_segments(a.segments()) == a);
                    Some(IpAddress::V6(a))
                },
                None => None,
            },
        }
    }
}

/// The text of an address in a socket address: as it is for IPv4, in
/// square brackets for IPv6.
pub open spec fn host_text(ip: IpAddress) -> Seq<char> {
    match ip {
        IpAddress::V4(a) => ipv4_text(a),
        IpAddress::V6(a) => seq!['['] + ipv6_text(a) + seq![']'],
    }
}

/// The text of a socket address, such as `127.0.0.1:1234` or `[::1]:1234`.
pub open spec fn socket_text(address: SocketAddress) -> Seq<char> {
    host_text(address.ip) + seq![':'] + decimal_text(address.port as nat)
}

/// The position of the first `target` in `t` at or after `from`, or the
/// length of `t`.
pub open spec fn char_from(t: Seq<char>, from: int, target: char) -> int
    decreases t.len() - from,
{
    if from < 0 || from >= t.len() {
        t.len() as int
    } else if t[from] == target {
        from
    } else {
        char_from(t, from + 1, target)
    }
}

/// The socket address a text gives, as the standard library reads one:
/// an IPv4 address in dotted decimal, a colon and a port; or an IPv6
/// address (read as [`ipv6_parsed`] describes, without a zone index) in
/// square brackets, a colon and a port. A port is one or more decimal
/// digits, leading zeros allowed, whose value fits in 16 bits.
pub open spec fn socket_parsed(t: Seq<char>) -> Option<SocketAddress> {
    if t.len() > 0 && t[0] == '[' {
        let close = char_from(t, 1, ']');
        if close + 1 < t.len() && t[close + 1] == ':' {
            match (
                ipv6_parsed(t.subrange(1, close)),
                digits_u16(t.subrange(close + 2, t.len() as int)),
            ) {
                (Some(segments), Some(port)) => Some(
                    SocketAddress { ip: IpAddress::V6(ipv6_of_segments(segments)), port },
                ),
                _ => None,
            }
        } else {
            None
        }
    } else {
        let colon = char_from(t, 0, ':');
        if colon < t.len() {
            match (
                ipv4_parsed(t.subrange(0, colon)),
                digits_u16(t.subrange(colon + 1, t.len() as int)),
            ) {
                (Some(ip), Some(port)) => Some(SocketAddress { ip: IpAddress::V4(ip), port }),
                _ => None,
            }
        } else {
            None
        }
    }
}

proof fn lemma_char_from(t: Seq<char>, from: int, target: char)
    requires
        0 <= from <= t.len(),
    ensures
        from <= char_from(t, from, target) <= t.len(),
        char_from(t, from, target) < t.len() ==> t[char_from(t, from, target)] == target,
        forall|j: int| from <= j < char_from(t, from, target) ==> t[j] != target,
    decreases t.len() - from,
{
    if from < t.len() && t[from] != target {
        lemma_char_from(t, from + 1, target);
    }
}

proof fn lemma_char_at(t: Seq<char>, from: int, k: int, target: char)
    requires
        0 <= from <= k <= t.len(),
        k < t.len() ==> t[k] == target,
        forall|j: int| from <= j < k ==> t[j] != target,
    ensures
        char_from(t, from, target) == k,
    decreases k - from,
{
    if from < k {
        lemma_char_at(t, from + 1, k, target);
    }
}

/// Law: the text of a socket address reads back as that address.
pub proof fn law_socket_parse_of_text(address: SocketAddress)
    ensures
        socket_parsed(socket_text(address)) == Some(address),
{
    let t = socket_text(address);
    let h = host_text(address.ip);
    let tp = decimal_text(address.port as nat);
    lemma_decimal_text_value(address.port as nat);
    assert(t == h + seq![':'] + tp);
    match address.ip {
        IpAddress::V4(a) => {
            lemma_ipv4_text_has_no_colon(a);
            lemma_ipv4_text_dot(a);
            lemma_ipv4_text_chars(a);
            assert(t[0] == h[0]);
            assert forall|j: int| 0 <= j < h.len() implies t[j] != ':' by {
                assert(t[j] == h[j]);
            }
            lemma_char_at(t, 0, h.len() as int, ':');
            assert(t.subrange(0, h.len() as int) =~= h);
            assert(t.subrange(h.len() as int + 1, t.len() as int) =~= tp);
            lemma_ipv4_parsed(a);
        },
        IpAddress::V6(a) => {
            let v = ipv6_text(a);
            crate::ipv6::lemma_ipv6_text_has_no_bracket(a);
            assert forall|j: int| 1 <= j < v.len() + 1 implies t[j] != ']' by {
                assert(t[j] == v[j - 1]);
            }
            lemma_char_at(t, 1, v.len() as int + 1, ']');
            assert(t.subrange(1, v.len() as int + 1) =~= v);
            assert(t.subrange(v.len() as int + 3, t.len() as int) =~= tp);
            law_ipv6_parse_of_text(a);
            assert(ipv6_of_segments(a.segments()) == a);
        },
    }
}

impl SocketAddress {
    /// The socket address a text gives, read as [`socket_parsed`]
    /// describes.
    pub fn parse(text: &str) -> (address: Option<SocketAddress>)
        ensures
            address == socket_parsed(text@),
    {
        let chars = chars_of(text);
        let ghost s = chars@;
        let n = chars.len();
        if n > 0 && chars[0] == '[' {
            let close = find_char(&chars, 1, ']');
            let close = match close {
                Some(c) => c,
                None => {
                    proof {
                        lemma_char_at(s, 1, n as int, ']');
                    }
                    return None;
                },
            };
            proof {
                lemma_char_at(s, 1, close as int, ']');
            }
            if close + 1 >= n || chars[close + 1] != ':' {
                return None;
            }
            let inner = slice_chars(&chars, 1, close);
            let ip = Ipv6Address::parse_chars(&inner);
            let port = parse_digits(&chars, close + 2, n);
            match (ip, port) {
                (Some(ip), Some(port)) => {
                    assert(ipv6_of_segments(ip.segments()) == ip);
                    Some(SocketAddress { ip: IpAddress::V6(ip), port })
                },
                _ => None,
            }
        } else {
            let colon = match find_char(&chars, 0, ':') {
                Some(p) => p,
                None => {
                    proof {
                        lemma_char_at(s, 0, n as int, ':');
                    }
                    return None;
                },
            };
            proof {
                lemma_char_at(s, 0, colon as int, ':');
            }
            let prefix = slice_chars(&chars, 0, colon);
            let ip = Ipv4Address::parse_chars(&prefix);
            let port = parse_digits(&chars, colon + 1, n);
            match (ip, port) {
                (Some(ip), Some(port)) => {
                    proof {
                        lemma_ipv4_parsed(ip);
                    }
                    Some(SocketAddress { ip: IpAddress::V4(ip), port })
                },
                _ => None,
            }
        }
    }

    /// The text of this socket address.
    pub fn to_text(&self) -> (text: String)
        ensures
            text@ == socket_text(*self),
    {
        let mut s = String::new();
        match self.ip {
            IpAddress::V4(a) => {
                s = a.to_text();
            },
            IpAddress::V6(a) => {
                push_char(&mut s, '[');
                let inner = a.to_text();
                push_str(&mut s, &inner);
                push_char(&mut s, ']');
            },
        }
        push_char(&mut s, ':');
        push_decimal(&mut s, self.port as u64);
        assert(s@ =~= socket_text(*self));
        s
    }
}

} // verus!
