use vstd::prelude::*;

use crate::net::{
    ipv4_parsed, ipv4_text, lemma_ipv4_text_chars, lemma_ipv4_text_has_no_colon,
    lemma_ipv4_text_injective, Ipv4Address,
};
use crate::text::{
    decimal_text, hex_digits_value, hex_group, hex_text, hex_value, is_hex_digit, lemma_hex_text,
    parse_hex_group, push_char, push_decimal, push_hex, slice_chars,
};

verus! {

/// An IPv6 address, by its eight 16-bit segments in network order.
#[derive(Clone, Copy, Debug, PartialEq, Eq, Structural)]
pub struct Ipv6Address {
    pub s0: u16,
    pub s1: u16,
    pub s2: u16,
    pub s3: u16,
    pub s4: u16,
    pub s5: u16,
    pub s6: u16,
    pub s7: u16,
}

impl Ipv6Address {
    /// The eight segments, most significant first.
    pub open spec fn segments(self) -> Seq<u16> {
        seq![self.s0, self.s1, self.s2, self.s3, self.s4, self.s5, self.s6, self.s7]
    }
}

/// The hexadecimal texts of `groups`, joined by colons.
pub open spec fn joined_groups(groups: Seq<u16>) -> Seq<char>
    decreases groups.len(),
{
    if groups.len() == 0 {
        Seq::empty()
    } else if groups.len() == 1 {
        hex_text(groups[0] as nat)
    } else {
        hex_text(groups[0] as nat) + seq![':'] + joined_groups(groups.drop_first())
    }
}

/// How many zero segments follow one another from `i` on.
pub open spec fn zero_run(segments: Seq<u16>, i: int) -> nat
    decreases segments.len() - i,
{
    if 0 <= i < segments.len() && segments[i] == 0 {
        1 + zero_run(segments, i + 1)
    } else {
        0
    }
}

/// The longest run of zero segments starting before `end`, as its start
/// and length: the first of the longest, scanning from the left.
pub open spec fn longest_zero_run(segments: Seq<u16>, end: nat) -> (int, nat)
    decreases end,
{
    if end == 0 {
        (0, 0)
    } else {
        let (start, length) = longest_zero_run(segments, (end - 1) as nat);
        let run = zero_run(segments, end - 1);
        if run > length {
            (end - 1, run)
        } else {
            (start, length)
        }
    }
}

/// The IPv4 address held in the last two segments of an address.
pub open spec fn embedded_ipv4(high: u16, low: u16) -> Ipv4Address {
    Ipv4Address {
        a: (high / 256) as u8,
        b: (high % 256) as u8,
        c: (low / 256) as u8,
        d: (low % 256) as u8,
    }
}

/// An IPv4 address mapped into IPv6: five zero segments, then `ffff`.
pub open spec fn is_ipv4_mapped(segments: Seq<u16>) -> bool {
    &&& segments[0] == 0
    &&& segments[1] == 0
    &&& segments[2] == 0
    &&& segments[3] == 0
    &&& segments[4] == 0
    &&& segments[5] == 0xffff
}

/// The text of an IPv6 address: an IPv4-mapped address as `::ffff:`
/// followed by the IPv4 address in dotted decimal; any other address as its
/// segments in lowercase hexadecimal joined by colons, the first longest
/// run of two or more zero segments written as `::`.
pub open spec fn ipv6_text(address: Ipv6Address) -> Seq<char> {
    let s = address.segments();
    if is_ipv4_mapped(s) {
        seq![':', ':', 'f', 'f', 'f', 'f', ':'] + ipv4_text(embedded_ipv4(s[6], s[7]))
    } else {
        let (start, length) = longest_zero_run(s, 8);
        if length > 1 {
            joined_groups(s.subrange(0, start)) + seq![':', ':'] + joined_groups(
                s.subrange(start + length, 8),
            )
        } else {
            joined_groups(s)
        }
    }
}

/// Joining one more group adds a colon and its text.
proof fn lemma_joined_push(groups: Seq<u16>, last: u16)
    requires
        groups.len() > 0,
    ensures
        joined_groups(groups.push(last)) == joined_groups(groups) + seq![':'] + hex_text(
            last as nat,
        ),
    decreases groups.len(),
{
    let g = groups.push(last);
    assert(g.drop_first() =~= groups.drop_first().push(last));
    assert(g[0] == groups[0]);
    if groups.len() == 1 {
        assert(groups.drop_first().push(last) =~= seq![last]);
        assert(joined_groups(seq![last]) == hex_text(last as nat));
    } else {
        lemma_joined_push(groups.drop_first(), last);
        assert(joined_groups(g) =~= joined_groups(groups) + seq![':'] + hex_text(last as nat));
    }
}

/// Appends the groups `segments[from..to]`, joined by colons.
fn push_joined(s: &mut String, segments: &Vec<u16>, from: usize, to: usize)
    requires
        from <= to <= segments@.len(),
    ensures
        final(s)@ == old(s)@ + joined_groups(segments@.subrange(from as int, to as int)),
{
    if from == to {
        assert(segments@.subrange(from as int, to as int) =~= Seq::<u16>::empty());
        assert(final(s)@ =~= old(s)@ + Seq::<char>::empty());
        return;
    }
    push_hex(s, segments[from]);
    assert(segments@.subrange(from as int, from + 1) =~= seq![segments@[from as int]]);
    let mut i = from + 1;
    while i < to
        invariant
            from < i <= to <= segments@.len(),
            s@ == old(s)@ + joined_groups(segments@.subrange(from as int, i as int)),
        decreases to - i,
    {
        let ghost before = s@;
        push_char(s, ':');
        push_hex(s, segments[i]);
        proof {
            lemma_joined_push(segments@.subrange(from as int, i as int), segments@[i as int]);
            assert(segments@.subrange(from as int, i + 1) =~= segments@.subrange(
                from as int,
                i as int,
            ).push(segments@[i as int]));
        }
        i = i + 1;
        assert(s@ =~= old(s)@ + joined_groups(segments@.subrange(from as int, i as int)));
    }
}

/// The length of the run of zero segments from `i` on.
fn zero_run_at(segments: &Vec<u16>, i: usize) -> (run: usize)
    requires
        i <= segments@.len(),
    ensures
        run == zero_run(segments@, i as int),
        i + run <= segments@.len(),
    decreases segments@.len() - i,
{
    if i < segments.len() && segments[i] == 0 {
        let rest = zero_run_at(segments, i + 1);
        1 + rest
    } else {
        0
    }
}

/// The first longest run of zero segments.
fn longest_run(segments: &Vec<u16>) -> (run: (usize, usize))
    ensures
        run.0 == longest_zero_run(segments@, segments@.len()).0,
        run.1 == longest_zero_run(segments@, segments@.len()).1,
        run.0 + run.1 <= segments@.len(),
{
    let mut start: usize = 0;
    let mut length: usize = 0;
    let mut end: usize = 0;
    while end < segments.len()
        invariant
            end <= segments@.len(),
            start == longest_zero_run(segments@, end as nat).0,
            length == longest_zero_run(segments@, end as nat).1,
            start + length <= segments@.len(),
        decreases segments@.len() - end,
    {
        let run = zero_run_at(segments, end);
        if run > length {
            start = end;
            length = run;
        }
        end = end + 1;
    }
    (start, length)
}

impl Ipv6Address {
    /// The text of this address.
    pub fn to_text(&self) -> (text: String)
        ensures
            text@ == ipv6_text(*self),
    {
        let mut s = String::new();
        let ghost segments = self.segments();
        if self.s0 == 0 && self.s1 == 0 && self.s2 == 0 && self.s3 == 0 && self.s4 == 0 && self.s5
            == 0xffff {
            push_char(&mut s, ':');
            push_char(&mut s, ':');
            push_char(&mut s, 'f');
            push_char(&mut s, 'f');
            push_char(&mut s, 'f');
            push_char(&mut s, 'f');
            push_char(&mut s, ':');
            push_decimal(&mut s, (self.s6 / 256) as u64);
            push_char(&mut s, '.');
            push_decimal(&mut s, (self.s6 % 256) as u64);
            push_char(&mut s, '.');
            push_decimal(&mut s, (self.s7 / 256) as u64);
            push_char(&mut s, '.');
            push_decimal(&mut s, (self.s7 % 256) as u64);
            assert(s@ =~= ipv6_text(*self));
            s
        } else {
            let segs: Vec<u16> = vec![
                self.s0,
                self.s1,
                self.s2,
                self.s3,
                self.s4,
                self.s5,
                self.s6,
                self.s7,
            ];
            assert(segs@ =~= segments);
            let (start, length) = longest_run(&segs);
            if length > 1 {
                push_joined(&mut s, &segs, 0, start);
                push_char(&mut s, ':');
                push_char(&mut s, ':');
                push_joined(&mut s, &segs, start + length, 8);
            } else {
                push_joined(&mut s, &segs, 0, 8);
                assert(segs@.subrange(0, 8) =~= segs@);
            }
            assert(s@ =~= ipv6_text(*self));
            s
        }
    }
}

/// The position of the first colon in `t` at or after `from`, or the
/// length of `t` when there is none.
pub open spec fn colon_from(t: Seq<char>, from: int) -> int
    decreases t.len() - from,
{
    if from < 0 || from >= t.len() {
        t.len() as int
    } else if t[from] == ':' {
        from
    } else {
        colon_from(t, from + 1)
    }
}

pub proof fn lemma_colon_from(t: Seq<char>, from: int)
    requires
        0 <= from <= t.len(),
    ensures
        from <= colon_from(t, from) <= t.len(),
        colon_from(t, from) < t.len() ==> t[colon_from(t, from)] == ':',
        forall|j: int| from <= j < colon_from(t, from) ==> t[j] != ':',
    decreases t.len() - from,
{
    if from < t.len() && t[from] != ':' {
        lemma_colon_from(t, from + 1);
    }
}

/// The first colon is where no colon stands before it.
proof fn lemma_colon_at(t: Seq<char>, from: int, k: int)
    requires
        0 <= from <= k <= t.len(),
        k < t.len() ==> t[k] == ':',
        forall|j: int| from <= j < k ==> t[j] != ':',
    ensures
        colon_from(t, from) == k,
    decreases k - from,
{
    if from < k {
        lemma_colon_at(t, from + 1, k);
    }
}

/// The pieces of `t` between colons, in order; a text without a colon is a
/// single piece.
pub open spec fn colon_pieces(t: Seq<char>) -> Seq<Seq<char>>
    decreases t.len(),
{
    let k = colon_from(t, 0);
    if k >= t.len() {
        seq![t]
    } else {
        proof {
            lemma_colon_from(t, 0);
        }
        seq![t.subrange(0, k)] + colon_pieces(t.subrange(k + 1, t.len() as int))
    }
}

/// The groups the last piece of a side stands for: one group of
/// hexadecimal digits, or, when `embedded` is allowed, an IPv4 address
/// standing for two.
pub open spec fn last_piece_groups(piece: Seq<char>, embedded: bool) -> Option<Seq<u16>> {
    match hex_group(piece) {
        Some(g) => Some(seq![g]),
        None => if embedded && ipv4_parsed(piece) is Some {
            let ip = ipv4_parsed(piece)->0;
            Some(seq![(ip.a * 256 + ip.b) as u16, (ip.c * 256 + ip.d) as u16])
        } else {
            None
        },
    }
}

/// The groups that pieces stand for: every piece but the last a group of
/// hexadecimal digits.
pub open spec fn pieces_groups(pieces: Seq<Seq<char>>, embedded: bool) -> Option<Seq<u16>>
    decreases pieces.len(),
{
    if pieces.len() == 0 {
        Some(Seq::empty())
    } else if pieces.len() == 1 {
        last_piece_groups(pieces[0], embedded)
    } else {
        match (hex_group(pieces[0]), pieces_groups(pieces.drop_first(), embedded)) {
            (Some(g), Some(rest)) => Some(seq![g] + rest),
            _ => None,
        }
    }
}

/// The groups of one side of an IPv6 text; an empty side has none.
pub open spec fn side_groups(t: Seq<char>, embedded: bool) -> Option<Seq<u16>> {
    if t.len() == 0 {
        Some(Seq::empty())
    } else {
        pieces_groups(colon_pieces(t), embedded)
    }
}

/// The position of the first `::` in `t` at or after `from`.
pub open spec fn double_colon_from(t: Seq<char>, from: int) -> Option<int>
    decreases t.len() - from,
{
    if from < 0 || from + 1 >= t.len() {
        None
    } else if t[from] == ':' && t[from + 1] == ':' {
        Some(from)
    } else {
        double_colon_from(t, from + 1)
    }
}

/// The segments an IPv6 text gives, as the standard library reads IPv6
/// text: without `::`, eight groups of one to four hexadecimal digits
/// joined by colons, the last two of which may be written as an IPv4
/// address; with `::` (its first occurrence), the groups before it and the
/// groups after it (the latter may end with an IPv4 address), at most
/// seven in all, the `::` standing for as many zero segments as are
/// missing.
pub open spec fn ipv6_parsed(t: Seq<char>) -> Option<Seq<u16>> {
    match double_colon_from(t, 0) {
        None => match side_groups(t, true) {
            Some(g) => if g.len() == 8 {
                Some(g)
            } else {
                None
            },
            None => None,
        },
        Some(p) => match (
            side_groups(t.subrange(0, p), false),
            side_groups(t.subrange(p + 2, t.len() as int), true),
        ) {
            (Some(head), Some(tail)) => if head.len() + tail.len() <= 7 {
                Some(head + Seq::new((8 - head.len() - tail.len()) as nat, |i: int| 0u16) + tail)
            } else {
                None
            },
            _ => None,
        },
    }
}

/// `groups` followed by the groups of `rest`, if `rest` has any.
pub open spec fn prefixed(groups: Seq<u16>, rest: Option<Seq<u16>>) -> Option<Seq<u16>> {
    match rest {
        Some(r) => Some(groups + r),
        None => None,
    }
}

/// A text always has at least one piece.
proof fn lemma_colon_pieces_nonempty(t: Seq<char>)
    ensures
        colon_pieces(t).len() >= 1,
{
    lemma_colon_from(t, 0);
}

/// The pieces of `chars[pos..end]`, given where its first colon stands.
proof fn lemma_pieces_split(chars: Seq<char>, pos: int, k: int, end: int)
    requires
        0 <= pos <= k <= end <= chars.len(),
        k < end ==> chars[k] == ':',
        forall|j: int| pos <= j < k ==> chars[j] != ':',
    ensures
        k < end ==> colon_pieces(chars.subrange(pos, end)) == seq![chars.subrange(pos, k)]
            + colon_pieces(chars.subrange(k + 1, end)),
        k == end ==> colon_pieces(chars.subrange(pos, end)) == seq![chars.subrange(pos, end)],
{
    let t = chars.subrange(pos, end);
    lemma_colon_at(t, 0, k - pos);
    if k < end {
        assert(t.subrange(0, k - pos) =~= chars.subrange(pos, k));
        assert(t.subrange(k - pos + 1, t.len() as int) =~= chars.subrange(k + 1, end));
    }
}

/// The position of the first `target` in `chars[from..end]`, or `end`.
fn find_before(chars: &Vec<char>, from: usize, end: usize, target: char) -> (k: usize)
    requires
        from <= end <= chars@.len(),
    ensures
        from <= k <= end,
        k < end ==> chars@[k as int] == target,
        forall|j: int| from <= j < k ==> chars@[j] != target,
{
    let mut i = from;
    while i < end
        invariant
            from <= i <= end <= chars@.len(),
            forall|j: int| from <= j < i ==> chars@[j] != target,
        decreases end - i,
    {
        if chars[i] == target {
            return i;
        }
        i = i + 1;
    }
    end
}

/// Reads the last piece of a side.
fn parse_last_piece(chars: &Vec<char>, start: usize, end: usize, embedded: bool) -> (groups: Option<
    Vec<u16>,
>)
    requires
        start <= end <= chars@.len(),
    ensures
        match groups {
            Some(g) => last_piece_groups(chars@.subrange(start as int, end as int), embedded)
                == Some(g@),
            None => last_piece_groups(chars@.subrange(start as int, end as int), embedded) is None,
        },
{
    let ghost piece = chars@.subrange(start as int, end as int);
    match parse_hex_group(chars, start, end) {
        Some(g) => {
            let mut groups: Vec<u16> = Vec::new();
            groups.push(g);
            assert(groups@ =~= seq![g]);
            Some(groups)
        },
        None => {
            if !embedded {
                return None;
            }
            let text = slice_chars(chars, start, end);
            match Ipv4Address::parse_chars(&text) {
                Some(ip) => {
                    proof {
                        let chosen = choose|other: Ipv4Address| ipv4_text(other) == piece;
                        lemma_ipv4_text_injective(chosen, ip);
                    }
                    let mut groups: Vec<u16> = Vec::new();
                    groups.push(ip.a as u16 * 256 + ip.b as u16);
                    groups.push(ip.c as u16 * 256 + ip.d as u16);
                    assert(groups@ =~= seq![
                        (ip.a * 256 + ip.b) as u16,
                        (ip.c * 256 + ip.d) as u16,
                    ]);
                    Some(groups)
                },
                None => None,
            }
        },
    }
}

/// Reads one side of an IPv6 text, `chars[start..end]`.
fn parse_side(chars: &Vec<char>, start: usize, end: usize, embedded: bool) -> (groups: Option<
    Vec<u16>,
>)
    requires
        start <= end <= chars@.len(),
    ensures
        match groups {
            Some(g) => side_groups(chars@.subrange(start as int, end as int), embedded) == Some(g@),
            None => side_groups(chars@.subrange(start as int, end as int), embedded) is None,
        },
{
    let ghost whole = chars@.subrange(start as int, end as int);
    let mut groups: Vec<u16> = Vec::new();
    if start == end {
        assert(groups@ =~= Seq::<u16>::empty());
        return Some(groups);
    }
    let mut pos = start;
    assert(groups@ + Seq::<u16>::empty() =~= Seq::<u16>::empty());
    loop
        invariant
            start <= pos <= end <= chars@.len(),
            start < end,
            whole == chars@.subrange(start as int, end as int),
            side_groups(whole, embedded) == prefixed(
                groups@,
                pieces_groups(colon_pieces(chars@.subrange(pos as int, end as int)), embedded),
            ),
        decreases end - pos,
    {
        let k = find_before(chars, pos, end, ':');
        proof {
            lemma_pieces_split(chars@, pos as int, k as int, end as int);
        }
        if k == end {
            let last = parse_last_piece(chars, pos, end, embedded);
            match last {
                Some(g) => {
                    let ghost before = groups@;
                    let mut g = g;
                    groups.append(&mut g);
                    return Some(groups);
                },
                None => {
                    return None;
                },
            }
        }
        let ghost rest = colon_pieces(chars@.subrange(k + 1, end as int));
        proof {
            lemma_colon_pieces_nonempty(chars@.subrange(k + 1, end as int));
            let pieces = seq![chars@.subrange(pos as int, k as int)] + rest;
            assert(pieces.drop_first() =~= rest);
            assert(pieces[0] == chars@.subrange(pos as int, k as int));
        }
        match parse_hex_group(chars, pos, k) {
            Some(g) => {
                let ghost before = groups@;
                groups.push(g);
                proof {
                    match pieces_groups(rest, embedded) {
                        Some(r) => {
                            assert(before + (seq![g] + r) =~= groups@ + r);
                        },
                        None => {},
                    }
                }
                pos = k + 1;
            },
            None => {
                return None;
            },
        }
    }
}

/// The position of the first `::` in `chars`.
fn find_double_colon(chars: &Vec<char>) -> (position: Option<usize>)
    ensures
        match position {
            Some(p) => double_colon_from(chars@, 0) == Some(p as int) && p + 1 < chars@.len(),
            None => double_colon_from(chars@, 0) is None,
        },
{
    let mut i: usize = 0;
    while i < chars.len()
        invariant
            i <= chars@.len(),
            double_colon_from(chars@, 0) == double_colon_from(chars@, i as int),
        decreases chars@.len() - i,
    {
        if i + 1 < chars.len() && chars[i] == ':' && chars[i + 1] == ':' {
            return Some(i);
        }
        i = i + 1;
    }
    None
}

impl Ipv6Address {
    /// The address with the eight segments `segments`.
    fn from_segments(segments: &Vec<u16>) -> (address: Ipv6Address)
        requires
            segments@.len() == 8,
        ensures
            address.segments() == segments@,
    {
        let address = Ipv6Address {
            s0: segments[0],
            s1: segments[1],
            s2: segments[2],
            s3: segments[3],
            s4: segments[4],
            s5: segments[5],
            s6: segments[6],
            s7: segments[7],
        };
        assert(address.segments() =~= segments@);
        address
    }

    /// The address an IPv6 text gives, read as [`ipv6_parsed`] describes.
    pub fn parse_chars(chars: &Vec<char>) -> (address: Option<Ipv6Address>)
        ensures
            match address {
                Some(a) => ipv6_parsed(chars@) == Some(a.segments()),
                None => ipv6_parsed(chars@) is None,
            },
    {
        let n = chars.len();
        match find_double_colon(chars) {
            None => {
                assert(chars@.subrange(0, n as int) =~= chars@);
                match parse_side(chars, 0, n, true) {
                    Some(groups) => if groups.len() == 8 {
                        Some(Ipv6Address::from_segments(&groups))
                    } else {
                        None
                    },
                    None => None,
                }
            },
            Some(p) => {
                let head = match parse_side(chars, 0, p, false) {
                    Some(h) => h,
                    None => return None,
                };
                let tail = match parse_side(chars, p + 2, n, true) {
                    Some(t) => t,
                    None => return None,
                };
                if head.len() > 7 || tail.len() > 7 - head.len() {
                    return None;
                }
                let missing = 8 - head.len() - tail.len();
                let mut segments: Vec<u16> = Vec::new();
                let mut i: usize = 0;
                while i < head.len()
                    invariant
                        i <= head@.len(),
                        segments@ == head@.subrange(0, i as int),
                    decreases head@.len() - i,
                {
                    segments.push(head[i]);
                    i = i + 1;
                    assert(segments@ =~= head@.subrange(0, i as int));
                }
                let mut j: usize = 0;
                while j < missing
                    invariant
                        i == head@.len(),
                        j <= missing,
                        segments@ == head@ + Seq::new(j as nat, |x: int| 0u16),
                    decreases missing - j,
                {
                    segments.push(0);
                    j = j + 1;
                    assert(segments@ =~= head@ + Seq::new(j as nat, |x: int| 0u16));
                }
                let mut k: usize = 0;
                while k < tail.len()
                    invariant
                        j == missing,
                        k <= tail@.len(),
                        segments@ == head@ + Seq::new(missing as nat, |x: int| 0u16)
                            + tail@.subrange(0, k as int),
                    decreases tail@.len() - k,
                {
                    segments.push(tail[k]);
                    k = k + 1;
                    assert(segments@ =~= head@ + Seq::new(missing as nat, |x: int| 0u16)
                        + tail@.subrange(0, k as int));
                }
                assert(tail@.subrange(0, k as int) =~= tail@);
                Some(Ipv6Address::from_segments(&segments))
            },
        }
    }
}

/// The text of joined groups: nonempty for any group, with neither a
/// colon first nor last, nor two colons side by side; its pieces are the
/// groups' texts, which read back as the groups.
proof fn lemma_joined_groups(groups: Seq<u16>, embedded: bool)
    requires
        groups.len() >= 1,
    ensures
        joined_groups(groups).len() >= 1,
        joined_groups(groups)[0] != ':',
        joined_groups(groups)[joined_groups(groups).len() - 1] != ':',
        forall|i: int|
            0 <= i < joined_groups(groups).len() - 1 ==> !(#[trigger] joined_groups(groups)[i] == ':'
                && joined_groups(groups)[i + 1] == ':'),
        pieces_groups(colon_pieces(joined_groups(groups)), embedded) == Some(groups),
    decreases groups.len(),
{
    let h = hex_text(groups[0] as nat);
    lemma_hex_text(groups[0]);
    if groups.len() == 1 {
        lemma_colon_at(h, 0, h.len() as int);
        assert(colon_pieces(h) == seq![h]);
        assert(groups =~= seq![groups[0]]);
    } else {
        let rest = groups.drop_first();
        lemma_joined_groups(rest, embedded);
        let r = joined_groups(rest);
        let t = joined_groups(groups);
        assert(t == h + seq![':'] + r);
        assert forall|j: int| 0 <= j < h.len() implies t[j] != ':' by {
            assert(t[j] == h[j]);
        }
        lemma_colon_at(t, 0, h.len() as int);
        assert(t.subrange(0, h.len() as int) =~= h);
        assert(t.subrange(h.len() as int + 1, t.len() as int) =~= r);
        lemma_colon_pieces_nonempty(r);
        let pieces = colon_pieces(t);
        assert(pieces == seq![h] + colon_pieces(r));
        assert(pieces.drop_first() =~= colon_pieces(r));
        assert(seq![groups[0]] + rest =~= groups);
        assert forall|i: int| 0 <= i < t.len() - 1 implies !(#[trigger] t[i] == ':' && t[i + 1]
            == ':') by {
            if i < h.len() {
                assert(t[i] == h[i]);
            } else if i == h.len() {
                assert(t[i + 1] == r[0]);
            } else {
                assert(t[i] == r[i - h.len() - 1]);
            }
        }
        assert(t[t.len() - 1] == r[r.len() - 1]);
    }
}

/// The sides of an IPv6 text read back as the groups they were joined
/// from; an empty side has none.
proof fn lemma_side_of_joined(groups: Seq<u16>, embedded: bool)
    ensures
        side_groups(joined_groups(groups), embedded) == Some(groups),
{
    if groups.len() == 0 {
        assert(groups =~= Seq::<u16>::empty());
    } else {
        lemma_joined_groups(groups, embedded);
    }
}

/// No `::` stands at or after `from` where no two colons stand side by
/// side.
proof fn lemma_no_double_colon(t: Seq<char>, from: int)
    requires
        0 <= from,
        forall|i: int| from <= i < t.len() - 1 ==> !(#[trigger] t[i] == ':' && t[i + 1] == ':'),
    ensures
        double_colon_from(t, from) is None,
    decreases t.len() - from,
{
    if from + 1 < t.len() {
        lemma_no_double_colon(t, from + 1);
    }
}

/// The first `::` at or after `from` is at `p` when none stands before.
proof fn lemma_double_colon_at(t: Seq<char>, from: int, p: int)
    requires
        0 <= from <= p,
        p + 1 < t.len(),
        t[p] == ':' && t[p + 1] == ':',
        forall|i: int| from <= i < p ==> !(#[trigger] t[i] == ':' && t[i + 1] == ':'),
    ensures
        double_colon_from(t, from) == Some(p),
    decreases p - from,
{
    if from < p {
        lemma_double_colon_at(t, from + 1, p);
    }
}

/// A run of zeros is made of zeros and stays within the segments.
proof fn lemma_zero_run(segments: Seq<u16>, i: int)
    requires
        0 <= i <= segments.len(),
    ensures
        i + zero_run(segments, i) <= segments.len(),
        forall|k: int| i <= k < i + zero_run(segments, i) ==> segments[k] == 0,
    decreases segments.len() - i,
{
    if i < segments.len() && segments[i] == 0 {
        lemma_zero_run(segments, i + 1);
    }
}

/// The longest run found is a run of zeros, within the segments.
proof fn lemma_longest_zero_run(segments: Seq<u16>, end: nat)
    requires
        end <= segments.len(),
    ensures
        ({
            let (start, length) = longest_zero_run(segments, end);
            &&& 0 <= start
            &&& length > 0 ==> start < end && zero_run(segments, start) == length
            &&& start + length <= segments.len()
        }),
    decreases end,
{
    if end > 0 {
        lemma_longest_zero_run(segments, (end - 1) as nat);
        lemma_zero_run(segments, end - 1);
    }
}

/// `ffff` reads as the group `0xffff`.
proof fn lemma_ffff()
    ensures
        hex_group(seq!['f', 'f', 'f', 'f']) == Some(0xffffu16),
{
    let t1 = seq!['f'];
    let t2 = seq!['f', 'f'];
    let t3 = seq!['f', 'f', 'f'];
    let t4 = seq!['f', 'f', 'f', 'f'];
    assert(hex_value('f') == 15);
    assert(t1.drop_last() =~= Seq::<char>::empty());
    assert(hex_digits_value(Seq::<char>::empty()) == 0);
    assert(t1.last() == 'f');
    assert(hex_digits_value(t1) == 15);
    assert(t2.drop_last() =~= t1);
    assert(t2.last() == 'f');
    assert(hex_digits_value(t2) == 255);
    assert(t3.drop_last() =~= t2);
    assert(t3.last() == 'f');
    assert(hex_digits_value(t3) == 4095);
    assert(t4.drop_last() =~= t3);
    assert(t4.last() == 'f');
    assert(hex_digits_value(t4) == 65535);
    assert(forall|i: int| 0 <= i < t4.len() ==> is_hex_digit(#[trigger] t4[i]));
}

/// The groups of a side made of `ffff` and an IPv4 address.
proof fn lemma_mapped_side(v4: Ipv4Address)
    ensures
        side_groups(seq!['f', 'f', 'f', 'f', ':'] + ipv4_text(v4), true) == Some(
            seq![0xffffu16, (v4.a * 256 + v4.b) as u16, (v4.c * 256 + v4.d) as u16],
        ),
{
    let ip = ipv4_text(v4);
    let ffff = seq!['f', 'f', 'f', 'f'];
    let tail = seq!['f', 'f', 'f', 'f', ':'] + ip;
    lemma_ipv4_text_has_no_colon(v4);
    assert forall|j: int| 0 <= j < 4 implies tail[j] != ':' by {}
    lemma_colon_at(tail, 0, 4);
    assert(tail.subrange(0, 4) =~= ffff);
    assert(tail.subrange(5, tail.len() as int) =~= ip);
    lemma_colon_at(ip, 0, ip.len() as int);
    assert(colon_pieces(ip) == seq![ip]);
    let pieces = colon_pieces(tail);
    assert(pieces == seq![ffff] + seq![ip]);
    assert(pieces.len() == 2);
    assert(pieces[0] == ffff);
    assert(pieces.drop_first() =~= seq![ip]);
    lemma_ffff();
    crate::net::lemma_ipv4_text_dot(v4);
    assert(!is_hex_digit(ip[crate::text::decimal_text(v4.a as nat).len() as int]));
    assert(hex_group(ip) is None);
    let chosen = choose|other: Ipv4Address| ipv4_text(other) == ip;
    lemma_ipv4_text_injective(chosen, v4);
    assert(ipv4_parsed(ip) == Some(v4));
    assert(last_piece_groups(ip, true) == Some(
        seq![(v4.a * 256 + v4.b) as u16, (v4.c * 256 + v4.d) as u16],
    ));
    assert(pieces_groups(seq![ip], true) == last_piece_groups(ip, true));
    assert(seq![0xffffu16] + seq![(v4.a * 256 + v4.b) as u16, (v4.c * 256 + v4.d) as u16]
        =~= seq![0xffffu16, (v4.a * 256 + v4.b) as u16, (v4.c * 256 + v4.d) as u16]);
}

/// The text of an IPv4-mapped address reads back as that address.
proof fn lemma_mapped_parse(address: Ipv6Address)
    requires
        is_ipv4_mapped(address.segments()),
    ensures
        ipv6_parsed(ipv6_text(address)) == Some(address.segments()),
{
    let s = address.segments();
    let t = ipv6_text(address);
    let v4 = embedded_ipv4(s[6], s[7]);
    let ip = ipv4_text(v4);
    assert(t == seq![':', ':', 'f', 'f', 'f', 'f', ':'] + ip);
    lemma_double_colon_at(t, 0, 0);
    assert(t.subrange(0, 0) =~= Seq::<char>::empty());
    assert(t.subrange(2, t.len() as int) =~= seq!['f', 'f', 'f', 'f', ':'] + ip);
    lemma_mapped_side(v4);
    assert((v4.a * 256 + v4.b) as u16 == s[6]);
    assert((v4.c * 256 + v4.d) as u16 == s[7]);
    assert(Seq::<u16>::empty() + Seq::new(5, |i: int| 0u16) + seq![0xffffu16, s[6], s[7]] =~= s);
}

/// The text of an address with a run of two or more zero segments reads
/// back as that address.
proof fn lemma_compressed_parse(address: Ipv6Address)
    requires
        !is_ipv4_mapped(address.segments()),
        longest_zero_run(address.segments(), 8).1 > 1,
    ensures
        ipv6_parsed(ipv6_text(address)) == Some(address.segments()),
{
    let s = address.segments();
    let t = ipv6_text(address);
    let (start, length) = longest_zero_run(s, 8);
    lemma_longest_zero_run(s, 8);
    lemma_zero_run(s, start);
    let g1 = s.subrange(0, start);
    let g2 = s.subrange(start + length, 8);
    let j1 = joined_groups(g1);
    let j2 = joined_groups(g2);
    assert(t == j1 + seq![':', ':'] + j2);
    if g1.len() > 0 {
        lemma_joined_groups(g1, false);
    }
    assert forall|i: int| 0 <= i < j1.len() implies !(#[trigger] t[i] == ':' && t[i + 1] == ':') by {
        assert(t[i] == j1[i]);
        if i + 1 < j1.len() {
            assert(t[i + 1] == j1[i + 1]);
        }
    }
    lemma_double_colon_at(t, 0, j1.len() as int);
    assert(t.subrange(0, j1.len() as int) =~= j1);
    assert(t.subrange(j1.len() as int + 2, t.len() as int) =~= j2);
    lemma_side_of_joined(g1, false);
    lemma_side_of_joined(g2, true);
    assert(g1 + Seq::new((8 - g1.len() - g2.len()) as nat, |i: int| 0u16) + g2 =~= s);
}

/// Law: the text of an IPv6 address reads back as that address.
pub proof fn law_ipv6_parse_of_text(address: Ipv6Address)
    ensures
        ipv6_parsed(ipv6_text(address)) == Some(address.segments()),
{
    let s = address.segments();
    if is_ipv4_mapped(s) {
        lemma_mapped_parse(address);
    } else if longest_zero_run(s, 8).1 > 1 {
        lemma_compressed_parse(address);
    } else {
        lemma_joined_groups(s, true);
        lemma_no_double_colon(ipv6_text(address), 0);
    }
}

/// Joined groups are made of hexadecimal digits and colons.
proof fn lemma_joined_chars(groups: Seq<u16>)
    ensures
        forall|i: int| 0 <= i < joined_groups(groups).len() ==> is_hex_digit(
            #[trigger] joined_groups(groups)[i],
        ) || joined_groups(groups)[i] == ':',
    decreases groups.len(),
{
    if groups.len() >= 1 {
        lemma_hex_text(groups[0]);
        let h = hex_text(groups[0] as nat);
        if groups.len() >= 2 {
            lemma_joined_chars(groups.drop_first());
            let r = joined_groups(groups.drop_first());
            let t = joined_groups(groups);
            assert(t == h + seq![':'] + r);
            assert forall|i: int| 0 <= i < t.len() implies is_hex_digit(#[trigger] t[i]) || t[i]
                == ':' by {
                if i < h.len() {
                    assert(t[i] == h[i]);
                } else if i > h.len() {
                    assert(t[i] == r[i - h.len() - 1]);
                }
            }
        }
    }
}

/// The text of an IPv6 address holds no square bracket.
pub proof fn lemma_ipv6_text_has_no_bracket(address: Ipv6Address)
    ensures
        forall|i: int| 0 <= i < ipv6_text(address).len() ==> #[trigger] ipv6_text(address)[i]
            != ']' && ipv6_text(address)[i] != '[',
{
    let s = address.segments();
    let t = ipv6_text(address);
    if is_ipv4_mapped(s) {
        let v4 = embedded_ipv4(s[6], s[7]);
        let ip = ipv4_text(v4);
        lemma_ipv4_text_chars(v4);
        let prefix = seq![':', ':', 'f', 'f', 'f', 'f', ':'];
        assert(t == prefix + ip);
        assert forall|i: int| 0 <= i < t.len() implies #[trigger] t[i] != ']' && t[i] != '[' by {
            if i >= 7 {
                assert(t[i] == ip[i - 7]);
            }
        }
    } else {
        let (start, length) = longest_zero_run(s, 8);
        if length > 1 {
            let j1 = joined_groups(s.subrange(0, start));
            let j2 = joined_groups(s.subrange(start + length, 8));
            lemma_joined_chars(s.subrange(0, start));
            lemma_joined_chars(s.subrange(start + length, 8));
            assert(t == j1 + seq![':', ':'] + j2);
            assert forall|i: int| 0 <= i < t.len() implies #[trigger] t[i] != ']' && t[i] != '['
                by {
                if i < j1.len() {
                    assert(t[i] == j1[i]);
                } else if i >= j1.len() + 2 {
                    assert(t[i] == j2[i - j1.len() - 2]);
                }
            }
        } else {
            lemma_joined_chars(s);
        }
    }
}

/// The text of an IPv6 address holds a colon.
pub proof fn lemma_ipv6_text_has_colon(address: Ipv6Address)
    ensures
        exists|k: int| 0 <= k < ipv6_text(address).len() && ipv6_text(address)[k] == ':',
{
    let s = address.segments();
    let t = ipv6_text(address);
    if is_ipv4_mapped(s) {
        assert(t[0] == ':');
    } else {
        let (start, length) = longest_zero_run(s, 8);
        if length > 1 {
            let j1 = joined_groups(s.subrange(0, start));
            assert(t[j1.len() as int] == ':');
        } else {
            let h = hex_text(s[0] as nat);
            lemma_hex_text(s[0]);
            assert(t == h + seq![':'] + joined_groups(s.drop_first()));
            assert(t[h.len() as int] == ':');
        }
    }
}

} // verus!
