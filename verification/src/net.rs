//! IP networks as the mesh address book keeps them: an address with a
//! prefix length, the block of addresses that the prefix spans, the next
//! free address of that block, and the CIDR text that is saved and loaded.
use vstd::prelude::*;
use vstd::arithmetic::div_mod::lemma_fundamental_div_mod;
use vstd::arithmetic::div_mod::lemma_fundamental_div_mod_converse;
use vstd::arithmetic::div_mod::lemma_small_mod;
use crate::text::{decimal, decimal_chars, decimal_value, is_digit, law_decimal_reads_back, is_white_space, push_all, string_from_chars, trim, trim_end, trim_start, trim_str};

verus! {

/// An IP address: IPv4 as its 32-bit value, IPv6 as its 128-bit value
/// (most significant octet first, as `u32::from(Ipv4Addr)` gives it).
#[derive(Clone, Copy, PartialEq, Eq, Structural, Debug)]
pub enum IpAddress {
    V4(u32),
    V6(u128),
}

/// An address together with a prefix length, in CIDR terms
/// (`ipnetwork::IpNetwork`). The address need not be the first of its block.
#[derive(Clone, Copy, PartialEq, Eq, Structural, Debug)]
pub struct IpNet {
    pub addr: IpAddress,
    pub prefix: u8,
}

/// `2` to the power `e`.
pub open spec fn two_to(e: nat) -> nat
    decreases e,
{
    if e == 0 {
        1
    } else {
        2 * two_to((e - 1) as nat)
    }
}

impl IpAddress {
    /// The numeric value of the address.
    pub open spec fn value(self) -> int {
        match self {
            IpAddress::V4(a) => a as int,
            IpAddress::V6(a) => a as int,
        }
    }

    /// The number of bits of an address of this family.
    pub open spec fn width(self) -> nat {
        match self {
            IpAddress::V4(_) => 32,
            IpAddress::V6(_) => 128,
        }
    }

    /// The address of the same family with value `v`.
    pub open spec fn with_value(self, v: int) -> IpAddress {
        match self {
            IpAddress::V4(_) => IpAddress::V4(v as u32),
            IpAddress::V6(_) => IpAddress::V6(v as u128),
        }
    }
}

impl IpNet {
    /// The prefix fits the address family (`IpNetwork::new` refuses longer ones).
    pub open spec fn wf(self) -> bool {
        self.prefix <= self.addr.width()
    }

    /// Number of host bits.
    pub open spec fn host_bits(self) -> nat {
        (self.addr.width() - self.prefix) as nat
    }

    /// Number of addresses in the block.
    pub open spec fn block_size(self) -> nat {
        two_to(self.host_bits())
    }

    /// The lowest address of the block (`network()`).
    pub open spec fn first_addr(self) -> int {
        self.addr.value() - self.addr.value() % (self.block_size() as int)
    }

    /// The highest address of the block (`broadcast()`).
    pub open spec fn last_addr(self) -> int {
        self.first_addr() + self.block_size() - 1
    }

    /// `x` is one of the addresses that iterating the network yields, which
    /// runs from the first to the last address of the block, in order.
    pub open spec fn in_block(self, x: int) -> bool {
        self.first_addr() <= x <= self.last_addr()
    }

    /// The block can be iterated: `ipnetwork` 0.17 computes the size of an
    /// IPv4 block as a `u32`, which overflows for the prefix 0.
    pub open spec fn iterable(self) -> bool {
        !(self.addr is V4 && self.prefix == 0)
    }

    /// Some address of the block comes after the network's own address.
    pub open spec fn can_advance(self) -> bool {
        &&& self.wf()
        &&& self.iterable()
        &&& self.addr.value() < self.last_addr()
    }

    /// The network whose address is the one after this network's address,
    /// with the same prefix.
    pub open spec fn advanced(self) -> IpNet {
        IpNet { addr: self.addr.with_value(self.addr.value() + 1), prefix: self.prefix }
    }

    /// `k` successive advances.
    pub open spec fn advanced_by(self, k: nat) -> IpNet
        decreases k,
    {
        if k == 0 {
            self
        } else {
            self.advanced_by((k - 1) as nat).advanced()
        }
    }
}

/// The dotted decimal text of an IPv4 address, as `Ipv4Addr` displays it.
pub open spec fn ipv4_text(a: u32) -> Seq<char> {
    decimal((a / 0x100_0000) as nat) + seq!['.'] + decimal(((a / 0x1_0000) % 0x100) as nat)
        + seq!['.'] + decimal(((a / 0x100) % 0x100) as nat) + seq!['.'] + decimal(
        (a % 0x100) as nat,
    )
}

/// The text that `ipnetwork` displays for the IPv6 network of address `a`
/// and prefix `prefix`.
pub uninterp spec fn ipv6_network_text(a: u128, prefix: u8) -> Seq<char>;

/// The CIDR text of a network: its address, `/`, its prefix length.
pub open spec fn network_text(n: IpNet) -> Seq<char> {
    match n.addr {
        IpAddress::V4(a) => ipv4_text(a) + seq!['/'] + decimal(n.prefix as nat),
        IpAddress::V6(a) => ipv6_network_text(a, n.prefix),
    }
}

/// What `str::parse::<ipnetwork::IpNetwork>` gives for a text.
pub uninterp spec fn parsed_network(text: Seq<char>) -> Option<IpNet>;

// ---------------------------------------------------------------------------
// Lemmas
// ---------------------------------------------------------------------------

proof fn lemma_two_to_pos(e: nat)
    ensures
        two_to(e) >= 1,
    decreases e,
{
    if e > 0 {
        lemma_two_to_pos((e - 1) as nat);
    }
}

proof fn lemma_two_to_add(a: nat, b: nat)
    ensures
        two_to(a + b) == two_to(a) * two_to(b),
    decreases a,
{
    if a > 0 {
        let a1 = (a - 1) as nat;
        lemma_two_to_add(a1, b);
        assert(a1 + b == (a + b - 1) as nat);
        assert(two_to(a + b) == 2 * two_to(a1 + b));
        assert(two_to(a) == 2 * two_to(a1));
        let x = two_to(a1);
        let y = two_to(b);
        assert(2 * (x * y) == (2 * x) * y) by (nonlinear_arith);
        assert(two_to(a + b) == 2 * (x * y));
        assert(two_to(a) * two_to(b) == (2 * x) * y);
    } else {
        assert(two_to(a) == 1);
        assert(a + b == b);
        assert(1 * two_to(b) == two_to(b));
    }
}

proof fn lemma_two_to_widths()
    ensures
        two_to(32) == 0x1_0000_0000,
        two_to(128) == 0x1_0000_0000_0000_0000_0000_0000_0000_0000,
{
    reveal_with_fuel(two_to, 33);
    assert(two_to(32) == 0x1_0000_0000);
    lemma_two_to_add(32, 32);
    assert(two_to(64) == 0x1_0000_0000_0000_0000);
    lemma_two_to_add(64, 64);
    assert(two_to(128) == 0x1_0000_0000_0000_0000 * 0x1_0000_0000_0000_0000);
}

/// Where an address lies in its block, and that the block ends inside the
/// address space.
proof fn lemma_block(v: int, h: nat, p: nat)
    requires
        0 <= v < two_to(h + p),
    ensures
        ({
            let s = two_to(h) as int;
            &&& s >= 1
            &&& 0 <= v % s < s
            &&& v - v % s + s <= two_to(h + p)
        }),
{
    let s = two_to(h) as int;
    let t = two_to(p) as int;
    lemma_two_to_pos(h);
    lemma_two_to_pos(p);
    lemma_two_to_add(h, p);
    lemma_fundamental_div_mod(v, s);
    let q = v / s;
    let r = v % s;
    assert(0 <= r < s) by {
        vstd::arithmetic::div_mod::lemma_mod_pos_bound(v, s);
    }
    assert(0 <= q) by {
        vstd::arithmetic::div_mod::lemma_div_pos_is_pos(v, s);
    }
    assert(s * q + s <= s * t) by (nonlinear_arith)
        requires
            v == s * q + r,
            0 <= r < s,
            v < s * t,
            s >= 1,
            q >= 0,
    {
        if q >= t {
            assert(s * q >= s * t);
        }
        assert(q + 1 <= t);
        assert(s * (q + 1) <= s * t);
    }
}

/// Iterating a network yields its block in ascending order; the first
/// address it yields above the network's own address is the next one, and
/// when the network's address is the last of the block there is none.
pub proof fn lemma_next_in_block(n: IpNet)
    requires
        n.wf(),
        n.iterable(),
    ensures
        n.in_block(n.addr.value()),
        n.can_advance() ==> n.in_block(n.addr.value() + 1),
        forall|x: int| n.in_block(x) && x > n.addr.value() ==> x >= n.addr.value() + 1,
        !n.can_advance() ==> forall|x: int| n.in_block(x) ==> x <= n.addr.value(),
{
    lemma_two_to_widths();
    lemma_two_to_add(n.host_bits(), n.prefix as nat);
    assert(n.host_bits() + n.prefix == n.addr.width());
    lemma_block(n.addr.value(), n.host_bits(), n.prefix as nat);
}

/// Advancing keeps the prefix and the block, and moves to the next address.
pub proof fn lemma_advanced(n: IpNet)
    requires
        n.can_advance(),
    ensures
        n.advanced().wf(),
        n.advanced().iterable(),
        n.advanced().addr.value() == n.addr.value() + 1,
        n.advanced().prefix == n.prefix,
        n.advanced().addr.width() == n.addr.width(),
        n.advanced().first_addr() == n.first_addr(),
        n.advanced().last_addr() == n.last_addr(),
{
    let v = n.addr.value();
    let s = n.block_size() as int;
    lemma_two_to_widths();
    lemma_two_to_add(n.host_bits(), n.prefix as nat);
    lemma_block(v, n.host_bits(), n.prefix as nat);
    let r = v % s;
    let q = v / s;
    lemma_fundamental_div_mod(v, s);
    assert(v + 1 == q * s + (r + 1)) by (nonlinear_arith)
        requires
            v == s * q + r,
    ;
    lemma_fundamental_div_mod_converse(v + 1, s, q, r + 1);
    assert(n.advanced().addr.value() == v + 1);
}

/// Addresses handed out one after another never repeat: after `k` advances
/// within the block the address has grown by exactly `k`, and it stays in
/// the block.
pub proof fn lemma_advances_distinct(n: IpNet, i: nat, j: nat)
    requires
        n.wf(),
        n.iterable(),
        i < j,
        n.addr.value() + j <= n.last_addr(),
    ensures
        n.advanced_by(i).addr.value() == n.addr.value() + i,
        n.advanced_by(j).addr.value() == n.addr.value() + j,
        n.advanced_by(i).addr.value() < n.advanced_by(j).addr.value(),
        n.advanced_by(j).in_block(n.advanced_by(j).addr.value()),
        n.advanced_by(j).first_addr() == n.first_addr(),
        n.advanced_by(j).prefix == n.prefix,
{
    lemma_advances(n, i);
    lemma_advances(n, j);
    lemma_next_in_block(n.advanced_by(j));
}

proof fn lemma_advances(n: IpNet, k: nat)
    requires
        n.wf(),
        n.iterable(),
        n.addr.value() + k <= n.last_addr(),
    ensures
        n.advanced_by(k).wf(),
        n.advanced_by(k).iterable(),
        n.advanced_by(k).addr.value() == n.addr.value() + k,
        n.advanced_by(k).prefix == n.prefix,
        n.advanced_by(k).first_addr() == n.first_addr(),
        n.advanced_by(k).last_addr() == n.last_addr(),
    decreases k,
{
    if k > 0 {
        lemma_advances(n, (k - 1) as nat);
        lemma_advanced(n.advanced_by((k - 1) as nat));
    }
}

// ---------------------------------------------------------------------------
// Executable functions
// ---------------------------------------------------------------------------

fn two_to_exec(e: u8) -> (r: u128)
    requires
        e < 128,
    ensures
        r == two_to(e as nat),
{
    let mut r: u128 = 1;
    let mut k: u8 = 0;
    proof {
        lemma_two_to_widths();
    }
    while k < e
        invariant
            k <= e < 128,
            r == two_to(k as nat),
            two_to(128) == 0x1_0000_0000_0000_0000_0000_0000_0000_0000,
        decreases e - k,
    {
        proof {
            lemma_two_to_add((k + 1) as nat, (127 - k) as nat);
            let e = (127 - k) as nat;
            lemma_two_to_pos((e - 1) as nat);
            assert(two_to(e) >= 2);
            lemma_two_to_pos((k + 1) as nat);
            assert(two_to((k + 1) as nat) < two_to(128)) by (nonlinear_arith)
                requires
                    two_to(128) == two_to((k + 1) as nat) * two_to(e),
                    two_to(e) >= 2,
                    two_to((k + 1) as nat) >= 1,
            ;
            assert(two_to((k + 1) as nat) == 2 * two_to(k as nat));
        }
        r = r * 2;
        k = k + 1;
    }
    r
}

impl IpAddress {
    /// The numeric value of the address as a `u128`.
    pub fn value_u128(&self) -> (v: u128)
        ensures
            v == self.value(),
    {
        match self {
            IpAddress::V4(a) => *a as u128,
            IpAddress::V6(a) => *a,
        }
    }

    /// The number of bits of an address of this family.
    pub fn bit_width(&self) -> (w: u8)
        ensures
            w == self.width(),
    {
        match self {
            IpAddress::V4(_) => 32,
            IpAddress::V6(_) => 128,
        }
    }
}

impl IpNet {
    /// A network from an address and a prefix length (`IpNetwork::new`):
    /// `None` when the prefix is longer than the address has bits.
    pub fn new(addr: IpAddress, prefix: u8) -> (r: Option<IpNet>)
        ensures
            r matches Some(n) ==> n.addr == addr && n.prefix == prefix && n.wf(),
            r is None <==> prefix > addr.width(),
    {
        if prefix > addr.bit_width() {
            None
        } else {
            Some(IpNet { addr, prefix })
        }
    }

    /// Whether iterating the network yields an address after the network's
    /// own address (and the network can be iterated at all).
    pub fn can_advance_exec(&self) -> (b: bool)
        requires
            self.wf(),
        ensures
            b == self.can_advance(),
    {
        let v = self.addr.value_u128();
        let w = self.addr.bit_width();
        if w == 32 && self.prefix == 0 {
            return false;
        }
        let h = w - self.prefix;
        proof {
            lemma_two_to_widths();
            lemma_two_to_add(self.host_bits(), self.prefix as nat);
            lemma_block(v as int, self.host_bits(), self.prefix as nat);
        }
        if h == 128 {
            proof {
                lemma_small_mod(v as nat, two_to(128));
            }
            return v < u128::MAX;
        }
        let size = two_to_exec(h);
        v % size != size - 1
    }

    /// The first address that iterating the network yields above the
    /// network's own address, with the same prefix; this is how the next
    /// member of the mesh gets its address.
    pub fn advance(&self) -> (r: IpNet)
        requires
            self.can_advance(),
        ensures
            r == self.advanced(),
            r.wf(),
            r.addr.value() == self.addr.value() + 1,
            r.in_block(r.addr.value()),
            r.first_addr() == self.first_addr(),
            r.last_addr() == self.last_addr(),
            forall|x: int| self.in_block(x) && x > self.addr.value() ==> x >= r.addr.value(),
    {
        proof {
            lemma_advanced(*self);
            lemma_next_in_block(*self);
            lemma_next_in_block(self.advanced());
        }
        match self.addr {
            IpAddress::V4(a) => IpNet { addr: IpAddress::V4(a + 1), prefix: self.prefix },
            IpAddress::V6(a) => IpNet { addr: IpAddress::V6(a + 1), prefix: self.prefix },
        }
    }
}

/// Displays an IPv6 network through `ipnetwork`'s `Display` for
/// `Ipv6Network`, which writes the address as `Ipv6Addr` displays it (hex
/// groups, `:` and possibly a dotted IPv4 tail), then `/` and the prefix in
/// decimal. The text is given the name `ipv6_network_text`; of it only this
/// is stated: it holds no white space at either end.
#[verifier::external_body]
fn ipv6_network_display(a: u128, prefix: u8) -> (s: String)
    requires
        prefix <= 128,
    ensures
        s@ == ipv6_network_text(a, prefix),
        trim(s@) == s@,
{
    match ipnetwork::Ipv6Network::new(a.into(), prefix) {
        Ok(n) => n.to_string(),
        Err(_) => String::new(),
    }
}

/// Parses CIDR text with `str::parse::<ipnetwork::IpNetwork>` (`FromStr`):
/// the result is named `parsed_network`. Its source tries IPv4 first
/// (`a.b.c.d` in decimal, then `/` and a prefix of at most 32, or no `/` for
/// 32), then IPv6, and builds the network with `new`, which refuses
/// prefixes longer than the family allows. So: every network it gives has
/// a fitting prefix, and the text that `Display` writes for a network parses
/// back to that network. For IPv6 that text holds `:`, so the IPv4 attempt
/// fails; it has a single `/`, and `Ipv6Addr::from_str` reads back the
/// address that `Ipv6Addr` displayed.
#[verifier::external_body]
fn parse_ip_network(text: &str) -> (r: Option<IpNet>)
    ensures
        r == parsed_network(text@),
        r matches Some(n) ==> n.wf(),
        forall|n: IpNet| n.wf() && text@ == #[trigger] network_text(n) ==> r == Some(n),
{
    match text.parse::<ipnetwork::IpNetwork>() {
        Ok(ipnetwork::IpNetwork::V4(n)) => Some(
            IpNet { addr: IpAddress::V4(u32::from(n.ip())), prefix: n.prefix() },
        ),
        Ok(ipnetwork::IpNetwork::V6(n)) => Some(
            IpNet { addr: IpAddress::V6(u128::from(n.ip())), prefix: n.prefix() },
        ),
        Err(_) => None,
    }
}

proof fn lemma_decimal_digits(n: nat)
    ensures
        decimal(n).len() >= 1,
        forall|i: int| 0 <= i < decimal(n).len() ==> !is_white_space(#[trigger] decimal(n)[i]),
    decreases n,
{
    if n >= 10 {
        lemma_decimal_digits(n / 10);
        let d = decimal(n / 10);
        assert forall|i: int| 0 <= i < decimal(n).len() implies !is_white_space(
            #[trigger] decimal(n)[i],
        ) by {
            if i < d.len() {
                assert(decimal(n)[i] == d[i]);
            }
        }
    }
}

/// The CIDR text of an IPv4 network has no white space at either end, so
/// trimming leaves it as it is.
proof fn lemma_ipv4_text_trimmed(n: IpNet)
    requires
        n.addr is V4,
    ensures
        trim(network_text(n)) == network_text(n),
{
    let t = network_text(n);
    let a = n.addr->V4_0;
    lemma_decimal_digits((a / 0x100_0000) as nat);
    lemma_decimal_digits(n.prefix as nat);
    let first = decimal((a / 0x100_0000) as nat);
    let last = decimal(n.prefix as nat);
    assert(t[0] == first[0]);
    assert(t.last() == last[last.len() - 1]);
    assert(!is_white_space(first[0]));
    assert(!is_white_space(last[last.len() - 1]));
    assert(trim_start(t) == t);
    assert(trim_end(t) == t);
}


/// The CIDR text of an IPv4 network reads back as that network: it is four
/// groups of digits separated by `.`, then `/` and a group of digits; read
/// in base ten, the four groups are the address's octets, most significant
/// first, and the last group is the prefix.
pub proof fn law_ipv4_text_reads_back(n: IpNet) -> (parts: (
    Seq<char>,
    Seq<char>,
    Seq<char>,
    Seq<char>,
    Seq<char>,
))
    requires
        n.addr is V4,
    ensures
        network_text(n) == parts.0 + seq!['.'] + parts.1 + seq!['.'] + parts.2 + seq!['.']
            + parts.3 + seq!['/'] + parts.4,
        forall|i: int| 0 <= i < parts.0.len() ==> is_digit(#[trigger] parts.0[i]),
        forall|i: int| 0 <= i < parts.1.len() ==> is_digit(#[trigger] parts.1[i]),
        forall|i: int| 0 <= i < parts.2.len() ==> is_digit(#[trigger] parts.2[i]),
        forall|i: int| 0 <= i < parts.3.len() ==> is_digit(#[trigger] parts.3[i]),
        forall|i: int| 0 <= i < parts.4.len() ==> is_digit(#[trigger] parts.4[i]),
        parts.0.len() >= 1 && parts.1.len() >= 1 && parts.2.len() >= 1 && parts.3.len() >= 1
            && parts.4.len() >= 1,
        decimal_value(parts.0) < 256 && decimal_value(parts.1) < 256 && decimal_value(parts.2)
            < 256 && decimal_value(parts.3) < 256,
        decimal_value(parts.0) * 0x100_0000 + decimal_value(parts.1) * 0x1_0000 + decimal_value(
            parts.2,
        ) * 0x100 + decimal_value(parts.3) == n.addr.value(),
        decimal_value(parts.4) == n.prefix,
{
    let a = n.addr->V4_0;
    let o0 = (a / 0x100_0000) as nat;
    let o1 = ((a / 0x1_0000) % 0x100) as nat;
    let o2 = ((a / 0x100) % 0x100) as nat;
    let o3 = (a % 0x100) as nat;
    law_decimal_reads_back(o0);
    law_decimal_reads_back(o1);
    law_decimal_reads_back(o2);
    law_decimal_reads_back(o3);
    law_decimal_reads_back(n.prefix as nat);
    assert(o0 * 0x100_0000 + o1 * 0x1_0000 + o2 * 0x100 + o3 == a as int);
    (decimal(o0), decimal(o1), decimal(o2), decimal(o3), decimal(n.prefix as nat))
}

impl IpNet {
    /// The CIDR text of the network, as `ipnetwork` displays it: what the
    /// address book saves, and what the mesh certificate is signed for.
    pub fn to_text(&self) -> (s: String)
        requires
            self.wf(),
        ensures
            s@ == network_text(*self),
            trim(s@) == s@,
    {
        proof {
            if self.addr is V4 {
                lemma_ipv4_text_trimmed(*self);
            }
        }
        match self.addr {
            IpAddress::V4(a) => {
                let mut v = decimal_chars(a / 0x100_0000);
                v.push('.');
                let o1 = decimal_chars((a / 0x1_0000) % 0x100);
                push_all(&mut v, o1.as_slice());
                v.push('.');
                let o2 = decimal_chars((a / 0x100) % 0x100);
                push_all(&mut v, o2.as_slice());
                v.push('.');
                let o3 = decimal_chars(a % 0x100);
                push_all(&mut v, o3.as_slice());
                v.push('/');
                let p = decimal_chars(self.prefix as u32);
                push_all(&mut v, p.as_slice());
                string_from_chars(v.as_slice())
            },
            IpAddress::V6(a) => ipv6_network_display(a, self.prefix),
        }
    }
}

/// Reads back a saved network: the text without surrounding white space,
/// parsed as CIDR. What `to_text` wrote for a network (whose text has no
/// surrounding white space) loads back as that same network; for IPv4 the
/// text is known to have none.
pub fn load_network(text: &str) -> (r: Option<IpNet>)
    ensures
        r == parsed_network(trim(text@)),
        r matches Some(n) ==> n.wf(),
        forall|n: IpNet|
            n.wf() && text@ == #[trigger] network_text(n) && trim(network_text(n)) == network_text(
                n,
            ) ==> r == Some(n),
        forall|n: IpNet|
            n.addr is V4 && n.wf() && text@ == #[trigger] network_text(n) ==> r == Some(n),
{
    let t = trim_str(text);
    let r = parse_ip_network(t.as_str());
    proof {
        assert forall|n: IpNet|
            n.addr is V4 && n.wf() && text@ == #[trigger] network_text(n) implies r == Some(n) by {
            lemma_ipv4_text_trimmed(n);
            assert(t@ == network_text(n));
        }
    }
    r
}

} // verus!
