use vstd::prelude::*;

use vstd::arithmetic::div_mod::{lemma_basic_div, lemma_div_denominator, lemma_fundamental_div_mod};
use vstd::arithmetic::power2::{lemma2_to64, lemma2_to64_rest, lemma_pow2_adds, lemma_pow2_pos, pow2};

use crate::net::{IpAddress, SocketAddress};
use crate::text::{hex_char, hex_digits_value, hex_value, is_hex_digit};

verus! {

/// A member of the cluster: its identifier (a UUID, held as its 128-bit
/// value), its address and the ports of its three services.
#[derive(Clone, Copy, Debug, PartialEq, Eq, Structural)]
pub struct Node {
    pub id: u128,
    pub address: IpAddress,
    pub client_port: u16,
    pub cluster_port: u16,
    pub membership_port: u16,
}

/// The bits of a UUID that hold its version and its variant.
pub open spec fn version_variant_mask() -> u128 {
    0xF000_C000_0000_0000_0000u128
}

/// A random (version 4) UUID of the RFC 4122 variant: version nibble `4`,
/// variant bits `10`.
pub open spec fn is_random_uuid(id: u128) -> bool {
    id & version_variant_mask() == 0x4000_8000_0000_0000_0000u128
}

/// The `k`-th hexadecimal digit of a UUID, counted from the most
/// significant one.
pub open spec fn uuid_digit(id: u128, k: int) -> nat {
    ((id as nat) / pow2((4 * (31 - k)) as nat)) % 16
}

/// The index among the 32 digits of the character at `position` of the
/// hyphenated text.
pub open spec fn uuid_digit_index(position: int) -> int {
    if position < 8 {
        position
    } else if position < 13 {
        position - 1
    } else if position < 18 {
        position - 2
    } else if position < 23 {
        position - 3
    } else {
        position - 4
    }
}

/// The hyphenated text of a UUID: 32 lowercase hexadecimal digits, most
/// significant first, in groups of 8, 4, 4, 4 and 12 joined by hyphens.
pub open spec fn uuid_text(id: u128) -> Seq<char> {
    Seq::new(
        36,
        |p: int|
            if p == 8 || p == 13 || p == 18 || p == 23 {
                '-'
            } else {
                hex_char(uuid_digit(id, uuid_digit_index(p)))
            },
    )
}

/// The UUID that 32 hexadecimal digits (in either case) spell, most
/// significant first.
pub open spec fn uuid_simple(t: Seq<char>) -> Option<u128> {
    if t.len() == 32 && forall|i: int| 0 <= i < t.len() ==> is_hex_digit(#[trigger] t[i]) {
        Some(hex_digits_value(t) as u128)
    } else {
        None
    }
}

/// The UUID that a hyphenated text spells: 36 characters, hyphens at
/// positions 8, 13, 18 and 23, hexadecimal digits in between.
pub open spec fn uuid_hyphenated(t: Seq<char>) -> Option<u128> {
    if t.len() == 36 && t[8] == '-' && t[13] == '-' && t[18] == '-' && t[23] == '-' {
        uuid_simple(
            t.subrange(0, 8) + t.subrange(9, 13) + t.subrange(14, 18) + t.subrange(19, 23)
                + t.subrange(24, 36),
        )
    } else {
        None
    }
}

/// A character with ASCII capitals made lowercase.
pub open spec fn ascii_lowercase(c: char) -> char {
    if 'A' <= c <= 'Z' {
        ((c as u32) + 32) as char
    } else {
        c
    }
}

/// The UUID that `uuid::Uuid::parse_str` reads from a text: 32 digits
/// alone, the hyphenated form, the hyphenated form in braces, or the
/// hyphenated form after the prefix `urn:uuid:` in any case; digits in
/// either case. Any other text is refused.
pub open spec fn uuid_parsed(text: Seq<char>) -> Option<u128> {
    if text.len() == 32 {
        uuid_simple(text)
    } else if text.len() == 36 {
        uuid_hyphenated(text)
    } else if text.len() == 38 && text[0] == '{' && text[37] == '}' {
        uuid_hyphenated(text.subrange(1, 37))
    } else if text.len() == 45 && text.subrange(0, 9).map_values(|c: char| ascii_lowercase(c))
        == "urn:uuid:"@ {
        uuid_hyphenated(text.subrange(9, 45))
    } else {
        None
    }
}

/// The first `n` digits of a UUID spell the UUID shifted right by the
/// digits that follow them.
proof fn lemma_uuid_digits_value(id: u128, t: Seq<char>, n: nat)
    requires
        n <= 32,
        t.len() >= n,
        forall|k: int| 0 <= k < n ==> #[trigger] t[k] == hex_char(uuid_digit(id, k)),
    ensures
        hex_digits_value(t.take(n as int)) == (id as nat) / pow2((4 * (32 - n)) as nat),
    decreases n,
{
    if n == 0 {
        lemma2_to64();
        lemma2_to64_rest();
        lemma_pow2_adds(64, 64);
        assert(pow2(64) * pow2(64) == 0x1_0000_0000_0000_0000_0000_0000_0000_0000nat);
        lemma_basic_div(id as int, pow2(128) as int);
        assert(t.take(0) =~= Seq::<char>::empty());
    } else {
        let m = (n - 1) as nat;
        lemma_uuid_digits_value(id, t, m);
        let e = (4 * (32 - n)) as nat;
        lemma_pow2_pos(e);
        lemma2_to64();
        lemma_pow2_adds(e, 4);
        assert((4 * (32 - m)) as nat == e + 4);
        lemma_div_denominator(id as int, pow2(e) as int, 16);
        let y = (id as nat) / pow2(e);
        lemma_fundamental_div_mod(y as int, 16);
        let d = uuid_digit(id, m as int);
        assert(d == y % 16);
        assert(hex_value(hex_char(d)) == d);
        assert(t.take(n as int).drop_last() =~= t.take(m as int));
        assert(t.take(n as int).last() == t[m as int]);
    }
}

/// The hyphenated text of a UUID reads back as that UUID.
pub proof fn lemma_uuid_text_parsed(id: u128)
    ensures
        uuid_parsed(uuid_text(id)) == Some(id),
{
    let t = uuid_text(id);
    let digits = t.subrange(0, 8) + t.subrange(9, 13) + t.subrange(14, 18) + t.subrange(19, 23)
        + t.subrange(24, 36);
    assert(digits.len() == 32);
    assert forall|k: int| 0 <= k < 32 implies #[trigger] digits[k] == hex_char(uuid_digit(id, k)) by {
        if k < 8 {
            assert(digits[k] == t[k]);
        } else if k < 12 {
            assert(digits[k] == t[k + 1]);
        } else if k < 16 {
            assert(digits[k] == t[k + 2]);
        } else if k < 20 {
            assert(digits[k] == t[k + 3]);
        } else {
            assert(digits[k] == t[k + 4]);
        }
    }
    assert forall|k: int| 0 <= k < 32 implies is_hex_digit(#[trigger] digits[k]) by {
        let d = uuid_digit(id, k);
        assert(d < 16);
        assert(digits[k] == hex_char(d));
    }
    lemma_uuid_digits_value(id, digits, 32);
    assert(digits.take(32) =~= digits);
    assert(pow2(0) == 1) by {
        lemma2_to64();
    }
    assert(hex_digits_value(digits.take(32)) == (id as nat) / pow2(0));
    assert((id as nat) / 1 == id as nat);
    assert(hex_digits_value(digits) == id as nat);
    assert(t.len() == 36);
    assert(t[8] == '-' && t[13] == '-' && t[18] == '-' && t[23] == '-');
    assert(uuid_simple(digits) == Some(id));
    assert(uuid_hyphenated(t) == Some(id));
}

/// Draws a fresh identifier with `uuid::Uuid::new_v4`, by its 128-bit value.
/// The crate masks random bits so that the version is 4 and the variant is
/// RFC 4122; the random bits themselves are left unsaid.
#[verifier::external_body]
fn random_uuid() -> (id: u128)
    ensures
        is_random_uuid(id),
{
    uuid::Uuid::new_v4().as_u128()
}

/// The text that `uuid::Uuid`'s `Display` writes for a UUID: its
/// hyphenated lowercase form.
#[verifier::external_body]
pub(crate) fn uuid_to_text(id: u128) -> (text: String)
    ensures
        text@ == uuid_text(id),
{
    uuid::Uuid::from_u128(id).to_string()
}

/// Reads a UUID with `uuid::Uuid::parse_str`: the simple, hyphenated,
/// braced and URN forms, digits in either case (see [`uuid_parsed`]).
#[verifier::external_body]
pub(crate) fn parse_uuid(text: &str) -> (id: Option<u128>)
    ensures
        id == uuid_parsed(text@),
{
    match uuid::Uuid::parse_str(text) {
        Ok(uuid) => Some(uuid.as_u128()),
        Err(_) => None,
    }
}

/// The socket address of a node's membership service.
pub open spec fn node_membership_address(node: Node) -> SocketAddress {
    SocketAddress { ip: node.address, port: node.membership_port }
}

impl Node {
    /// A node with a fresh random identifier and the given address and
    /// ports.
    pub fn init(address: IpAddress, client_port: u16, cluster_port: u16, membership_port: u16) -> (node: Node)
        ensures
            is_random_uuid(node.id),
            node.address == address,
            node.client_port == client_port,
            node.cluster_port == cluster_port,
            node.membership_port == membership_port,
    {
        let id = random_uuid();
        Node { id, address, client_port, cluster_port, membership_port }
    }

    /// The socket address of this node at `port`.
    pub fn build_address(&self, port: u16) -> (address: SocketAddress)
        ensures
            address == (SocketAddress { ip: self.address, port }),
    {
        SocketAddress { ip: self.address, port }
    }

    /// The socket address of this node's membership service.
    pub fn membership_address(&self) -> (address: SocketAddress)
        ensures
            address == node_membership_address(*self),
    {
        SocketAddress { ip: self.address, port: self.membership_port }
    }

    /// The version number of this node's identifier (the UUID's version
    /// nibble).
    pub fn id_version(&self) -> (version: u8)
        ensures
            version == ((self.id >> 76u128) & 0xFu128),
            is_random_uuid(self.id) ==> version == 4,
    {
        let id = self.id;
        let v = (id >> 76u128) & 0xFu128;
        proof {
            if is_random_uuid(id) {
                assert(id & 0xF000_C000_0000_0000_0000u128 == 0x4000_8000_0000_0000_0000u128
                    ==> (id >> 76u128) & 0xFu128 == 4) by (bit_vector);
            }
        }
        assert(v < 16) by (bit_vector)
            requires
                v == (id >> 76u128) & 0xFu128,
        ;
        v as u8
    }

    /// The hyphenated text of this node's identifier.
    pub fn id_text(&self) -> (text: String)
        ensures
            text@ == uuid_text(self.id),
            uuid_parsed(text@) == Some(self.id),
    {
        proof {
            lemma_uuid_text_parsed(self.id);
        }
        uuid_to_text(self.id)
    }
}

} // verus!
