//! Internet addresses.

use vstd::prelude::*;
use vstd::string::*;

use crate::text::{
    append_decimal, decimal, is_numeral, numbers_are_written_as_numerals, value_of,
};

verus! {

/// An IPv4 address: its four octets.
#[derive(Clone, Copy, Debug, PartialEq, Eq, Structural)]
pub struct Ipv4Addr {
    pub a: u8,
    pub b: u8,
    pub c: u8,
    pub d: u8,
}

/// An IPv4 address and a port.
#[derive(Clone, Copy, Debug, PartialEq, Eq, Structural)]
pub struct SocketAddrV4 {
    pub ip: Ipv4Addr,
    pub port: u16,
}

impl Ipv4Addr {
    pub fn new(a: u8, b: u8, c: u8, d: u8) -> (ip: Ipv4Addr)
        ensures
            ip == (Ipv4Addr { a, b, c, d }),
    {
        Ipv4Addr { a, b, c, d }
    }

    /// 127.0.0.1.
    #[verifier::allow_in_spec]
    pub fn localhost() -> (ip: Ipv4Addr)
        returns
            (Ipv4Addr { a: 127, b: 0, c: 0, d: 1 }),
    {
        Ipv4Addr { a: 127, b: 0, c: 0, d: 1 }
    }

    /// The octets, in network order.
    pub open spec fn bytes(self) -> Seq<u8> {
        seq![self.a, self.b, self.c, self.d]
    }

    /// The octets as one number.
    pub open spec fn bits(self) -> u32 {
        (self.a * 0x100_0000 + self.b * 0x1_0000 + self.c * 0x100 + self.d) as u32
    }

    /// The address in dotted decimal.
    pub open spec fn shown(self) -> Seq<char> {
        decimal(self.a as nat) + "."@ + decimal(self.b as nat) + "."@ + decimal(self.c as nat)
            + "."@ + decimal(self.d as nat)
    }

    pub fn octets(&self) -> (octets: [u8; 4])
        ensures
            octets@ == self.bytes(),
    {
        [self.a, self.b, self.c, self.d]
    }

    /// Whether the address is in 127.0.0.0/8.
    #[verifier::allow_in_spec]
    pub fn is_loopback(&self) -> (found: bool)
        returns
            self.a == 127,
    {
        self.a == 127
    }

    pub(crate) fn number(&self) -> (bits: u32)
        ensures
            bits == self.bits(),
    {
        self.a as u32 * 0x100_0000 + self.b as u32 * 0x1_0000 + self.c as u32 * 0x100
            + self.d as u32
    }

    pub(crate) fn append_to(&self, text: &mut String)
        ensures
            final(text)@ == old(text)@ + self.shown(),
    {
        append_decimal(text, self.a as u128);
        text.append(".");
        append_decimal(text, self.b as u128);
        text.append(".");
        append_decimal(text, self.c as u128);
        text.append(".");
        append_decimal(text, self.d as u128);
    }

    /// The address in dotted decimal.
    pub fn text(&self) -> (text: String)
        ensures
            text@ == self.shown(),
    {
        let mut text = String::new();
        self.append_to(&mut text);
        text
    }
}

impl SocketAddrV4 {
    pub fn new(ip: Ipv4Addr, port: u16) -> (addr: SocketAddrV4)
        ensures
            addr == (SocketAddrV4 { ip, port }),
    {
        SocketAddrV4 { ip, port }
    }

    /// The address and the port as one number.
    pub open spec fn bits(self) -> u64 {
        (self.ip.bits() * 0x1_0000 + self.port) as u64
    }

    /// The address and the port, with a colon between them.
    pub open spec fn shown(self) -> Seq<char> {
        self.ip.shown() + ":"@ + decimal(self.port as nat)
    }

    pub(crate) fn number(&self) -> (bits: u64)
        ensures
            bits == self.bits(),
    {
        self.ip.number() as u64 * 0x1_0000 + self.port as u64
    }

    pub(crate) fn append_to(&self, text: &mut String)
        ensures
            final(text)@ == old(text)@ + self.shown(),
    {
        self.ip.append_to(text);
        text.append(":");
        append_decimal(text, self.port as u128);
    }

    /// The address and the port, with a colon between them.
    pub fn text(&self) -> (text: String)
        ensures
            text@ == self.shown(),
    {
        let mut text = String::new();
        self.append_to(&mut text);
        text
    }
}

/// The IPv6 address that stands for an IPv4 address: ten zero bytes, two of ones, the octets.
pub open spec fn mapped(ip: Ipv4Addr) -> Seq<u8> {
    seq![0u8, 0, 0, 0, 0, 0, 0, 0, 0, 0, 0xff, 0xff] + ip.bytes()
}

/// The IPv4 address that an IPv6 address stands for.
pub fn mapped_ipv4(bytes: [u8; 16]) -> (ip: Option<Ipv4Addr>)
    ensures
        match ip {
            Some(ip) => bytes@ == mapped(ip),
            None => forall|ip: Ipv4Addr| bytes@ != #[trigger] mapped(ip),
        },
{
    let mut i: usize = 0;
    while i < 10
        invariant
            i <= 10,
            forall|j: int| 0 <= j < i ==> bytes@[j] == 0,
        decreases 10 - i,
    {
        if bytes[i] != 0 {
            assert forall|ip: Ipv4Addr| bytes@ != #[trigger] mapped(ip) by {
                assert(mapped(ip)[i as int] == 0);
            }
            return None;
        }
        i = i + 1;
    }
    if bytes[10] != 0xff || bytes[11] != 0xff {
        assert forall|ip: Ipv4Addr| bytes@ != #[trigger] mapped(ip) by {
            assert(mapped(ip)[10] == 0xff && mapped(ip)[11] == 0xff);
        }
        return None;
    }
    let ip = Ipv4Addr::new(bytes[12], bytes[13], bytes[14], bytes[15]);
    assert(bytes@ == mapped(ip));
    Some(ip)
}

/// The IPv6 address that stands for an IPv4 address.
pub fn ipv4_mapped_bytes(ip: Ipv4Addr) -> (bytes: [u8; 16])
    ensures
        bytes@ == mapped(ip),
{
    let bytes: [u8; 16] = [0, 0, 0, 0, 0, 0, 0, 0, 0, 0, 0xff, 0xff, ip.a, ip.b, ip.c, ip.d];
    assert(bytes@ == mapped(ip));
    bytes
}

/// Different addresses stand behind different IPv6 addresses, so that the address that one stands
/// for is the one it was made from.
pub proof fn mapping_is_injective(first: Ipv4Addr, second: Ipv4Addr)
    requires
        mapped(first) == mapped(second),
    ensures
        first == second,
{
    assert(mapped(first)[12] == first.a && mapped(second)[12] == second.a);
    assert(mapped(first)[13] == first.b && mapped(second)[13] == second.b);
    assert(mapped(first)[14] == first.c && mapped(second)[14] == second.c);
    assert(mapped(first)[15] == first.d && mapped(second)[15] == second.d);
}

/// Different addresses have different numbers.
pub proof fn address_numbers_are_injective(first: SocketAddrV4, second: SocketAddrV4)
    ensures
        first.ip.bits() == second.ip.bits() ==> first.ip == second.ip,
        first.bits() == second.bits() ==> first == second,
{
}

/// An address is written as the numerals of its four octets with dots between them, and a port
/// behind a colon.
pub proof fn addresses_are_written_in_numerals(
    addr: SocketAddrV4,
    a: Seq<char>,
    b: Seq<char>,
    c: Seq<char>,
    d: Seq<char>,
    port: Seq<char>,
)
    requires
        is_numeral(a) && value_of(a) == addr.ip.a,
        is_numeral(b) && value_of(b) == addr.ip.b,
        is_numeral(c) && value_of(c) == addr.ip.c,
        is_numeral(d) && value_of(d) == addr.ip.d,
        is_numeral(port) && value_of(port) == addr.port,
    ensures
        addr.ip.shown() == a + "."@ + b + "."@ + c + "."@ + d,
        addr.shown() == a + "."@ + b + "."@ + c + "."@ + d + ":"@ + port,
{
    numbers_are_written_as_numerals(addr.ip.a as nat, a);
    numbers_are_written_as_numerals(addr.ip.b as nat, b);
    numbers_are_written_as_numerals(addr.ip.c as nat, c);
    numbers_are_written_as_numerals(addr.ip.d as nat, d);
    numbers_are_written_as_numerals(addr.port as nat, port);
}

/// The octets of an address are its bytes, in order; all addresses whose first octet is 127, and no
/// others, are on this machine.
pub proof fn octets_are_in_order(ip: Ipv4Addr)
    ensures
        ip.bytes().len() == 4,
        ip.bytes()[0] == ip.a && ip.bytes()[1] == ip.b && ip.bytes()[2] == ip.c && ip.bytes()[3]
            == ip.d,
        ip.is_loopback() <==> ip.bytes()[0] == 127,
        Ipv4Addr::localhost().bytes() == seq![127u8, 0, 0, 1],
{
}

/// The IPv6 address that stands for an address has its octets behind ten zeros and two bytes of
/// ones.
pub proof fn mapped_addresses_end_with_the_octets(ip: Ipv4Addr)
    ensures
        mapped(ip).len() == 16,
        forall|i: int| 0 <= i < 10 ==> #[trigger] mapped(ip)[i] == 0,
        mapped(ip)[10] == 0xff && mapped(ip)[11] == 0xff,
        mapped(ip).skip(12) == ip.bytes(),
{
    assert(mapped(ip).skip(12) == ip.bytes());
}

}
