use vstd::prelude::*;

verus! {

/// Appends one character to a string.
#[verifier::external_body]
pub(crate) fn push_char(s: &mut String, c: char)
    ensures
        final(s)@ == old(s)@.push(c),
{
    s.push(c);
}

/// The decimal digit character of `d`, for `d < 10`.
pub open spec fn digit_char(d: nat) -> char {
    (48 + d) as char
}

/// The decimal text of a natural number, most significant digit first and
/// without leading zeros.
pub open spec fn decimal_text(n: nat) -> Seq<char>
    decreases n,
{
    if n < 10 {
        seq![digit_char(n)]
    } else {
        decimal_text(n / 10).push(digit_char(n % 10))
    }
}

/// A character that is a decimal digit.
pub open spec fn is_digit(c: char) -> bool {
    '0' <= c <= '9'
}

/// The value of a digit character.
pub open spec fn digit_value(c: char) -> nat {
    (c as nat - 48) as nat
}

/// Every character of `t` is a decimal digit.
pub open spec fn all_digits(t: Seq<char>) -> bool {
    forall|i: int| 0 <= i < t.len() ==> is_digit(#[trigger] t[i])
}

/// The number that a string of decimal digits spells, most significant
/// digit first; leading zeros add nothing.
pub open spec fn digits_value(t: Seq<char>) -> nat
    decreases t.len(),
{
    if t.len() == 0 {
        0
    } else {
        digits_value(t.drop_last()) * 10 + digit_value(t.last())
    }
}

/// The 16-bit number that one or more decimal digits spell, if it fits.
pub open spec fn digits_u16(t: Seq<char>) -> Option<u16> {
    if t.len() > 0 && all_digits(t) && digits_value(t) < 0x1_0000 {
        Some(digits_value(t) as u16)
    } else {
        None
    }
}

/// The port that a text gives as `u16` reads it: an optional `+` sign,
/// then one or more decimal digits whose value fits in 16 bits.
pub open spec fn port_parsed(t: Seq<char>) -> Option<u16> {
    if t.len() > 0 && t[0] == '+' {
        digits_u16(t.drop_first())
    } else {
        digits_u16(t)
    }
}

/// Spelling a number in decimal and reading it back gives the number.
pub proof fn lemma_decimal_text_value(n: nat)
    ensures
        decimal_text(n).len() > 0,
        all_digits(decimal_text(n)),
        digits_value(decimal_text(n)) == n,
    decreases n,
{
    if n >= 10 {
        lemma_decimal_text_value(n / 10);
        let t = decimal_text(n);
        assert(t.drop_last() =~= decimal_text(n / 10));
        assert(digit_value(digit_char(n % 10)) == n % 10);
        assert(t.last() == digit_char(n % 10));
        assert(digits_value(t) == digits_value(decimal_text(n / 10)) * 10 + n % 10);
    } else {
        assert(decimal_text(n).drop_last() =~= Seq::<char>::empty());
        assert(digits_value(Seq::<char>::empty()) == 0);
        assert(digit_value(digit_char(n)) == n);
    }
}

/// Law: the decimal text of a port reads back as that port, with or
/// without a leading `+`.
pub proof fn law_port_parse_of_decimal(port: u16)
    ensures
        port_parsed(decimal_text(port as nat)) == Some(port),
        port_parsed(seq!['+'] + decimal_text(port as nat)) == Some(port),
{
    let t = decimal_text(port as nat);
    lemma_decimal_text_value(port as nat);
    assert(is_digit(t[0]));
    assert((seq!['+'] + t).drop_first() =~= t);
}

/// The lowercase hexadecimal digit of `n`, for `n < 16`.
pub open spec fn hex_char(n: nat) -> char {
    if n < 10 {
        (48 + n) as char
    } else {
        (87 + n) as char
    }
}

/// A hexadecimal digit, in either case.
pub open spec fn is_hex_digit(c: char) -> bool {
    ('0' <= c <= '9') || ('a' <= c <= 'f') || ('A' <= c <= 'F')
}

/// The value of a hexadecimal digit.
pub open spec fn hex_value(c: char) -> nat {
    if '0' <= c <= '9' {
        (c as nat - 48) as nat
    } else if 'a' <= c <= 'f' {
        (c as nat - 87) as nat
    } else {
        (c as nat - 55) as nat
    }
}

/// The lowercase hexadecimal text of a number, most significant digit
/// first and without leading zeros.
pub open spec fn hex_text(n: nat) -> Seq<char>
    decreases n,
{
    if n < 16 {
        seq![hex_char(n)]
    } else {
        hex_text(n / 16).push(hex_char(n % 16))
    }
}

/// The number that hexadecimal digits spell.
pub open spec fn hex_digits_value(t: Seq<char>) -> nat
    decreases t.len(),
{
    if t.len() == 0 {
        0
    } else {
        hex_digits_value(t.drop_last()) * 16 + hex_value(t.last())
    }
}

/// One to four hexadecimal digits, in either case, leading zeros allowed:
/// a group of an IPv6 address.
pub open spec fn hex_group(t: Seq<char>) -> Option<u16> {
    if 1 <= t.len() <= 4 && forall|i: int| 0 <= i < t.len() ==> is_hex_digit(#[trigger] t[i]) {
        Some(hex_digits_value(t) as u16)
    } else {
        None
    }
}

/// Up to four hexadecimal digits spell a 16-bit number.
proof fn lemma_hex_digits_bound(t: Seq<char>)
    requires
        t.len() <= 4,
        forall|i: int| 0 <= i < t.len() ==> is_hex_digit(#[trigger] t[i]),
    ensures
        t.len() <= 1 ==> hex_digits_value(t) < 16,
        t.len() <= 2 ==> hex_digits_value(t) < 256,
        t.len() <= 3 ==> hex_digits_value(t) < 4096,
        hex_digits_value(t) < 0x1_0000,
    decreases t.len(),
{
    if t.len() > 0 {
        assert(is_hex_digit(t.last()));
        lemma_hex_digits_bound(t.drop_last());
    }
}

/// The hexadecimal text of a 16-bit number is one to four lowercase
/// digits, holds neither a colon nor a dot, and reads back as the number.
pub proof fn lemma_hex_text(n: u16)
    ensures
        1 <= hex_text(n as nat).len() <= 4,
        forall|i: int| 0 <= i < hex_text(n as nat).len() ==> is_hex_digit(
            #[trigger] hex_text(n as nat)[i],
        ),
        forall|i: int| 0 <= i < hex_text(n as nat).len() ==> #[trigger] hex_text(n as nat)[i] != ':'
            && hex_text(n as nat)[i] != '.',
        hex_group(hex_text(n as nat)) == Some(n),
{
    lemma_hex_text_nat(n as nat);
}

proof fn lemma_hex_text_nat(n: nat)
    ensures
        hex_text(n).len() >= 1,
        n < 16 ==> hex_text(n).len() == 1,
        n < 256 ==> hex_text(n).len() <= 2,
        n < 4096 ==> hex_text(n).len() <= 3,
        n < 0x1_0000 ==> hex_text(n).len() <= 4,
        forall|i: int| 0 <= i < hex_text(n).len() ==> is_hex_digit(#[trigger] hex_text(n)[i])
            && hex_text(n)[i] != ':' && hex_text(n)[i] != '.',
        hex_digits_value(hex_text(n)) == n,
    decreases n,
{
    if n >= 16 {
        lemma_hex_text_nat(n / 16);
        let t = hex_text(n);
        assert(t.drop_last() =~= hex_text(n / 16));
        assert(hex_value(hex_char(n % 16)) == n % 16);
        assert forall|i: int| 0 <= i < t.len() implies is_hex_digit(#[trigger] t[i]) && t[i] != ':'
            && t[i] != '.' by {
            if i < t.len() - 1 {
                assert(t[i] == hex_text(n / 16)[i]);
            }
        }
    } else {
        assert(hex_text(n).drop_last() =~= Seq::<char>::empty());
        assert(hex_digits_value(Seq::<char>::empty()) == 0);
        assert(hex_value(hex_char(n)) == n);
    }
}

/// The lowercase hexadecimal digit of `d`, for `d < 16`.
fn hex_digit(d: u16) -> (c: char)
    requires
        d < 16,
    ensures
        c == hex_char(d as nat),
{
    if d < 10 {
        let b: u8 = 48u8 + d as u8;
        b as char
    } else {
        let b: u8 = 87u8 + d as u8;
        b as char
    }
}

/// Appends the lowercase hexadecimal text of `n` to `s`.
pub fn push_hex(s: &mut String, n: u16)
    ensures
        final(s)@ == old(s)@ + hex_text(n as nat),
    decreases n,
{
    if n >= 16 {
        push_hex(s, n / 16);
    }
    let c = hex_digit(n % 16);
    push_char(s, c);
    proof {
        if n >= 16 {
            assert(hex_text(n as nat) == hex_text((n / 16) as nat).push(c));
        }
    }
    assert(final(s)@ =~= old(s)@ + hex_text(n as nat));
}

/// Reads the group spelled by `chars[start..end]`.
pub fn parse_hex_group(chars: &Vec<char>, start: usize, end: usize) -> (group: Option<u16>)
    requires
        start <= end <= chars@.len(),
    ensures
        group == hex_group(chars@.subrange(start as int, end as int)),
{
    let ghost t = chars@.subrange(start as int, end as int);
    if start == end || end - start > 4 {
        return None;
    }
    let mut value: u32 = 0;
    let mut i = start;
    while i < end
        invariant
            start <= i <= end <= chars@.len(),
            end - start <= 4,
            t == chars@.subrange(start as int, end as int),
            forall|j: int| 0 <= j < i - start ==> is_hex_digit(#[trigger] t[j]),
            value == hex_digits_value(chars@.subrange(start as int, i as int)),
            value < 0x1_0000,
        decreases end - i,
    {
        let ghost before = chars@.subrange(start as int, i as int);
        let ghost after = chars@.subrange(start as int, i + 1);
        assert(after.drop_last() =~= before);
        assert(after.last() == chars@[i as int]);
        let c = chars[i];
        assert(t[i - start] == c);
        let d: u32 = if '0' <= c && c <= '9' {
            c as u32 - 48
        } else if 'a' <= c && c <= 'f' {
            c as u32 - 87
        } else if 'A' <= c && c <= 'F' {
            c as u32 - 55
        } else {
            return None;
        };
        proof {
            assert forall|j: int| 0 <= j < after.len() implies is_hex_digit(#[trigger] after[j]) by {
                assert(after[j] == t[j]);
            }
            lemma_hex_digits_bound(after);
        }
        value = value * 16 + d;
        i = i + 1;
    }
    assert(chars@.subrange(start as int, end as int) =~= t);
    Some(value as u16)
}

/// Reads the 16-bit number spelled by `chars[start..end]`.
pub fn parse_digits(chars: &Vec<char>, start: usize, end: usize) -> (value: Option<u16>)
    requires
        start <= end <= chars@.len(),
    ensures
        value == digits_u16(chars@.subrange(start as int, end as int)),
{
    let ghost t = chars@.subrange(start as int, end as int);
    if start == end {
        return None;
    }
    let mut value: u32 = 0;
    let mut too_big = false;
    let mut i = start;
    while i < end
        invariant
            start <= i <= end <= chars@.len(),
            t == chars@.subrange(start as int, end as int),
            all_digits(chars@.subrange(start as int, i as int)),
            too_big ==> digits_value(chars@.subrange(start as int, i as int)) >= 0x1_0000,
            !too_big ==> value == digits_value(chars@.subrange(start as int, i as int)),
            value < 0x1_0000,
        decreases end - i,
    {
        let ghost before = chars@.subrange(start as int, i as int);
        let ghost after = chars@.subrange(start as int, i + 1);
        assert(after.drop_last() =~= before);
        assert(after.last() == chars@[i as int]);
        let c = chars[i];
        if !('0' <= c && c <= '9') {
            assert(t[i - start] == c);
            return None;
        }
        assert forall|j: int| 0 <= j < after.len() implies is_digit(#[trigger] after[j]) by {
            if j < before.len() {
                assert(after[j] == before[j]);
            }
        }
        if !too_big {
            let next = value * 10 + (c as u32 - 48);
            if next >= 0x1_0000 {
                too_big = true;
            } else {
                value = next;
            }
        }
        i = i + 1;
    }
    if too_big {
        None
    } else {
        Some(value as u16)
    }
}

/// Reads a port as `u16` reads it from text.
pub fn parse_port(text: &str) -> (port: Option<u16>)
    ensures
        port == port_parsed(text@),
{
    let chars = chars_of(text);
    if chars.len() > 0 && chars[0] == '+' {
        assert(chars@.subrange(1, chars@.len() as int) =~= text@.drop_first());
        parse_digits(&chars, 1, chars.len())
    } else {
        assert(chars@.subrange(0, chars@.len() as int) =~= text@);
        parse_digits(&chars, 0, chars.len())
    }
}

pub(crate) fn digit(d: u64) -> (c: char)
    requires
        d < 10,
    ensures
        c == digit_char(d as nat),
{
    let b: u8 = 48u8 + d as u8;
    b as char
}

/// Appends the decimal text of `n` to `s`.
pub fn push_decimal(s: &mut String, n: u64)
    ensures
        final(s)@ == old(s)@ + decimal_text(n as nat),
    decreases n,
{
    if n >= 10 {
        push_decimal(s, n / 10);
    }
    let c = digit(n % 10);
    push_char(s, c);
    proof {
        if n >= 10 {
            assert(decimal_text(n as nat) == decimal_text((n / 10) as nat).push(c));
        }
    }
    assert(final(s)@ =~= old(s)@ + decimal_text(n as nat));
}

/// The decimal text of `n`.
pub fn decimal_string(n: u64) -> (s: String)
    ensures
        s@ == decimal_text(n as nat),
{
    let mut s = String::new();
    push_decimal(&mut s, n);
    assert(s@ =~= decimal_text(n as nat));
    s
}

/// The characters of a string slice.
pub fn chars_of(s: &str) -> (chars: Vec<char>)
    ensures
        chars@ == s@,
{
    let n = s.unicode_len();
    let mut chars: Vec<char> = Vec::new();
    let mut i: usize = 0;
    while i < n
        invariant
            n == s@.len(),
            i <= n,
            chars@ == s@.subrange(0, i as int),
        decreases n - i,
    {
        chars.push(s.get_char(i));
        i = i + 1;
        assert(chars@ =~= s@.subrange(0, i as int));
    }
    assert(chars@ =~= s@);
    chars
}

/// The characters `chars[start..end]`.
pub fn slice_chars(chars: &Vec<char>, start: usize, end: usize) -> (piece: Vec<char>)
    requires
        start <= end <= chars@.len(),
    ensures
        piece@ == chars@.subrange(start as int, end as int),
{
    let mut piece: Vec<char> = Vec::new();
    let mut i = start;
    while i < end
        invariant
            start <= i <= end <= chars@.len(),
            piece@ == chars@.subrange(start as int, i as int),
        decreases end - i,
    {
        piece.push(chars[i]);
        i = i + 1;
        assert(piece@ =~= chars@.subrange(start as int, i as int));
    }
    piece
}

/// Appends the characters of `t` to `s`.
pub fn push_str(s: &mut String, t: &String)
    ensures
        final(s)@ == old(s)@ + t@,
{
    let chars = chars_of(t.as_str());
    let mut i: usize = 0;
    while i < chars.len()
        invariant
            i <= chars@.len(),
            chars@ == t@,
            s@ == old(s)@ + chars@.subrange(0, i as int),
        decreases chars@.len() - i,
    {
        push_char(s, chars[i]);
        i = i + 1;
        assert(s@ =~= old(s)@ + chars@.subrange(0, i as int));
    }
    assert(chars@.subrange(0, i as int) =~= t@);
}

} // verus!
