//! Ethernet (MAC) addresses: random local unicast addresses and their text form.
use rand::RngCore;
use vstd::prelude::*;
use crate::lines::push_char;

verus! {

/// A 48-bit MAC address.
#[derive(Debug)]
pub struct MacAddress(pub [u8; 6]);

/// The address is locally administered (bit 1 of the first octet is set).
pub open spec fn is_local(octets: [u8; 6]) -> bool {
    octets[0] & 0b0000_0010u8 == 0b0000_0010u8
}

/// The address is a unicast address (bit 0 of the first octet is clear).
pub open spec fn is_unicast(octets: [u8; 6]) -> bool {
    octets[0] & 0b0000_0001u8 == 0u8
}

/// The lower-case hexadecimal digit for `n` (which is below 16).
pub open spec fn hex_digit(n: u8) -> char {
    if n < 10 {
        (('0' as u8) + n) as char
    } else {
        (('a' as u8) + (n - 10)) as char
    }
}

/// An octet as two lower-case hexadecimal digits.
pub open spec fn hex_octet(b: u8) -> Seq<char> {
    seq![hex_digit(b / 16), hex_digit(b % 16)]
}

/// The address written as six two-digit hexadecimal octets separated by colons.
pub open spec fn mac_text(o: [u8; 6]) -> Seq<char> {
    hex_octet(o[0]) + seq![':'] + hex_octet(o[1]) + seq![':'] + hex_octet(o[2]) + seq![':']
        + hex_octet(o[3]) + seq![':'] + hex_octet(o[4]) + seq![':'] + hex_octet(o[5])
}

/// Fills six octets from `rand::thread_rng()` with `rand::RngCore::fill_bytes`.
/// Nothing is claimed of the octets: any value may come back.
#[verifier::external_body]
fn random_octets() -> (octets: [u8; 6]) {
    let mut octets = [0u8; 6];
    rand::thread_rng().fill_bytes(&mut octets);
    octets
}

fn hex_digit_exec(n: u8) -> (c: char)
    requires
        n < 16,
    ensures
        c == hex_digit(n),
{
    let digits: [char; 16] = [
        '0',
        '1',
        '2',
        '3',
        '4',
        '5',
        '6',
        '7',
        '8',
        '9',
        'a',
        'b',
        'c',
        'd',
        'e',
        'f',
    ];
    let c = digits[n as usize];
    assert(c == hex_digit(n)) by {
        assert(digits@[n as int] == c);
    }
    c
}

fn push_hex_octet(s: &mut String, b: u8)
    ensures
        final(s)@ == old(s)@ + hex_octet(b),
{
    push_char(s, hex_digit_exec(b / 16));
    push_char(s, hex_digit_exec(b % 16));
    assert(final(s)@ =~= old(s)@ + hex_octet(b));
}

impl MacAddress {
    /// The address built from `raw`: the first octet gets the locally-administered
    /// bit set and the multicast bit cleared; the other octets are kept.
    pub fn from_octets(raw: [u8; 6]) -> (mac: MacAddress)
        ensures
            mac.0[0] == (raw[0] | 0b0000_0010u8) & 0b1111_1110u8,
            forall|i: int| 1 <= i < 6 ==> mac.0[i] == raw[i],
    {
        let mut octets = raw;
        octets[0] |= 0b0000_0010;
        octets[0] &= 0b1111_1110;
        MacAddress(octets)
    }

    /// A random, locally administered unicast address.
    pub fn new() -> (mac: MacAddress)
        ensures
            is_local(mac.0),
            is_unicast(mac.0),
    {
        let raw = random_octets();
        let mac = MacAddress::from_octets(raw);
        proof {
            lemma_from_octets_local_unicast(raw[0]);
        }
        mac
    }

    /// The address as six two-digit lower-case hexadecimal octets separated by colons.
    pub fn to_string(&self) -> (text: String)
        ensures
            text@ == mac_text(self.0),
    {
        let o = self.0;
        let mut text = String::new();
        push_hex_octet(&mut text, o[0]);
        push_char(&mut text, ':');
        push_hex_octet(&mut text, o[1]);
        push_char(&mut text, ':');
        push_hex_octet(&mut text, o[2]);
        push_char(&mut text, ':');
        push_hex_octet(&mut text, o[3]);
        push_char(&mut text, ':');
        push_hex_octet(&mut text, o[4]);
        push_char(&mut text, ':');
        push_hex_octet(&mut text, o[5]);
        assert(text@ =~= mac_text(o));
        text
    }
}

/// Whatever the raw octets, the address that `from_octets` builds is a locally
/// administered unicast address.
pub proof fn lemma_from_octets_local_unicast(first: u8)
    ensures
        ((first | 0b0000_0010u8) & 0b1111_1110u8) & 0b0000_0010u8 == 0b0000_0010u8,
        ((first | 0b0000_0010u8) & 0b1111_1110u8) & 0b0000_0001u8 == 0u8,
{
    assert(((first | 0b0000_0010u8) & 0b1111_1110u8) & 0b0000_0010u8 == 0b0000_0010u8)
        by (bit_vector);
    assert(((first | 0b0000_0010u8) & 0b1111_1110u8) & 0b0000_0001u8 == 0u8) by (bit_vector);
}

} // verus!
