//! Addresses: virtual and real ones, their text, and the arithmetic of an address pool.

use vstd::prelude::*;
use vstd::arithmetic::div_mod::{lemma_div_denominator, lemma_fundamental_div_mod_converse};
use crate::text::{
    all_digits, chars_of, decimal, digits_value, is_decimal, is_digit,
    lemma_decimal, lemma_decimal_injective, lemma_decimal_of_value, u8_text,
};

verus! {

/// An IPv4 address by its four octets.
#[derive(Clone, Copy, Debug, PartialEq, Eq, Hash, Structural)]
pub struct Ipv4Addr {
    pub a: u8,
    pub b: u8,
    pub c: u8,
    pub d: u8,
}

/// The address and port of a UDP endpoint.
#[derive(Clone, Copy, Debug, PartialEq, Eq, Hash, Structural)]
pub enum SocketAddr {
    V4 { ip: Ipv4Addr, port: u16 },
    V6 { bits: u128, port: u16, flowinfo: u32, scope_id: u32 },
}

impl View for Ipv4Addr {
    type V = Ipv4Addr;

    open spec fn view(&self) -> Ipv4Addr {
        *self
    }
}

impl View for SocketAddr {
    type V = SocketAddr;

    open spec fn view(&self) -> SocketAddr {
        *self
    }
}

impl SocketAddr {
    pub open spec fn spec_port(self) -> u16 {
        match self {
            SocketAddr::V4 { port, .. } => port,
            SocketAddr::V6 { port, .. } => port,
        }
    }

    /// The port of the endpoint.
    pub fn port(&self) -> (port: u16)
        ensures
            port == self.spec_port(),
            *self matches SocketAddr::V4 { port: p, .. } ==> port == p,
            *self matches SocketAddr::V6 { port: p, .. } ==> port == p,
    {
        match self {
            SocketAddr::V4 { port, .. } => *port,
            SocketAddr::V6 { port, .. } => *port,
        }
    }

    /// Whether two endpoints are on the same host, whatever their ports.
    pub open spec fn spec_same_ip(self, other: SocketAddr) -> bool {
        match (self, other) {
            (SocketAddr::V4 { ip: x, .. }, SocketAddr::V4 { ip: y, .. }) => x == y,
            (SocketAddr::V6 { bits: x, .. }, SocketAddr::V6 { bits: y, .. }) => x == y,
            _ => false,
        }
    }

    pub fn same_ip(&self, other: &SocketAddr) -> (same: bool)
        ensures
            same == self.spec_same_ip(*other),
            same <==> (match (*self, *other) {
                (SocketAddr::V4 { ip: x, .. }, SocketAddr::V4 { ip: y, .. }) => x == y,
                (SocketAddr::V6 { bits: x, .. }, SocketAddr::V6 { bits: y, .. }) => x == y,
                _ => false,
            }),
    {
        match (self, other) {
            (SocketAddr::V4 { ip: x, .. }, SocketAddr::V4 { ip: y, .. }) => *x == *y,
            (SocketAddr::V6 { bits: x, .. }, SocketAddr::V6 { bits: y, .. }) => *x == *y,
            _ => false,
        }
    }

    /// The endpoint of the same host at another port, with no flow or scope.
    pub open spec fn spec_at_port(self, new_port: u16) -> SocketAddr {
        match self {
            SocketAddr::V4 { ip, .. } => SocketAddr::V4 { ip, port: new_port },
            SocketAddr::V6 { bits, .. } => SocketAddr::V6 {
                bits,
                port: new_port,
                flowinfo: 0,
                scope_id: 0,
            },
        }
    }

    pub fn at_port(&self, new_port: u16) -> (r: SocketAddr)
        ensures
            r == self.spec_at_port(new_port),
            r.spec_port() == new_port,
            r.spec_same_ip(*self),
            r matches SocketAddr::V6 { flowinfo, scope_id, .. } ==> flowinfo == 0 && scope_id == 0,
    {
        match self {
            SocketAddr::V4 { ip, .. } => SocketAddr::V4 { ip: *ip, port: new_port },
            SocketAddr::V6 { bits, .. } => SocketAddr::V6 {
                bits: *bits,
                port: new_port,
                flowinfo: 0,
                scope_id: 0,
            },
        }
    }
}

/// The address as one number, the first octet the most significant.
pub open spec fn ip_bits(ip: Ipv4Addr) -> int {
    ip.a * 0x100_0000 + ip.b * 0x1_0000 + ip.c * 0x100 + ip.d
}

/// The address whose number is `n`, for `n` below 2 to the 32.
pub open spec fn ip_of_bits(n: int) -> Ipv4Addr {
    Ipv4Addr {
        a: (n / 0x100_0000) as u8,
        b: (n / 0x1_0000 % 0x100) as u8,
        c: (n / 0x100 % 0x100) as u8,
        d: (n % 0x100) as u8,
    }
}

/// The address `offset` places after `base`; the one after the last address is the first.
#[verifier::opaque]
pub open spec fn spec_next_ip(base: Ipv4Addr, offset: int) -> Ipv4Addr {
    ip_of_bits((ip_bits(base) + offset) % 0x1_0000_0000)
}

/// An address is given by its number, and every number below 2 to the 32 is one.
pub proof fn lemma_ip_bits(ip: Ipv4Addr, n: int)
    requires
        0 <= n < 0x1_0000_0000,
    ensures
        ip_of_bits(ip_bits(ip)) == ip,
        0 <= ip_bits(ip) < 0x1_0000_0000,
        ip_bits(ip_of_bits(n)) == n,
{
    let m: int = ip_bits(ip);
    let hi: int = ip.a * 0x100 + ip.b;
    let mid: int = hi * 0x100 + ip.c;
    lemma_fundamental_div_mod_converse(m, 0x100, mid, ip.d as int);
    lemma_fundamental_div_mod_converse(mid, 0x100, hi, ip.c as int);
    lemma_fundamental_div_mod_converse(hi, 0x100, ip.a as int, ip.b as int);
    lemma_div_denominator(m, 0x100, 0x100);
    lemma_div_denominator(m, 0x1_0000, 0x100);
    lemma_div_denominator(n, 0x100, 0x100);
    lemma_div_denominator(n, 0x1_0000, 0x100);
}

/// Addresses at different offsets from one base differ, as long as the offsets do not lie
/// a whole turn of the address space apart.
pub proof fn law_offsets_distinct(base: Ipv4Addr, i: int, j: int)
    requires
        0 <= i < j < 0x1_0000_0000,
    ensures
        spec_next_ip(base, i) != spec_next_ip(base, j),
{
    reveal(spec_next_ip);
    lemma_ip_bits(base, 0);
    let m: int = (ip_bits(base) + i) % 0x1_0000_0000;
    let n: int = (ip_bits(base) + j) % 0x1_0000_0000;
    lemma_ip_bits(base, m);
    lemma_ip_bits(base, n);
    assert(m != n);
}

/// The address `offset` places after `base`, counting on from 0.0.0.0 after the last address.
pub fn next_ip(base: Ipv4Addr, offset: u32) -> (ip: Ipv4Addr)
    ensures
        ip == spec_next_ip(base, offset as int),
        ip == ip_of_bits((ip_bits(base) + offset) % 0x1_0000_0000),
        ip.a * 0x100_0000 + ip.b * 0x1_0000 + ip.c * 0x100 + ip.d == (base.a * 0x100_0000 + base.b
            * 0x1_0000 + base.c * 0x100 + base.d + offset) % 0x1_0000_0000,
{
    proof {
        reveal(spec_next_ip);
        lemma_ip_bits(base, (ip_bits(base) + offset) % 0x1_0000_0000);
    }
    let bits: u32 = base.a as u32 * 0x100_0000 + base.b as u32 * 0x1_0000 + base.c as u32 * 0x100
        + base.d as u32;
    let val: u32 = bits.wrapping_add(offset);
    Ipv4Addr {
        a: (val / 0x100_0000) as u8,
        b: (val / 0x1_0000 % 0x100) as u8,
        c: (val / 0x100 % 0x100) as u8,
        d: (val % 0x100) as u8,
    }
}

/// As numbers with four digits to the base 256, the address at an offset is the base and the
/// offset, counted around at the end of the address space. One step on from any address but a last
/// one of a block only the last octet grows.
pub proof fn law_next_ip_counts(base: Ipv4Addr, offset: int)
    requires
        0 <= offset < 0x1_0000_0000,
    ensures
        ({
            let ip = spec_next_ip(base, offset);
            ip.a * 0x100_0000 + ip.b * 0x1_0000 + ip.c * 0x100 + ip.d == (base.a * 0x100_0000
                + base.b * 0x1_0000 + base.c * 0x100 + base.d + offset) % 0x1_0000_0000
        }),
        spec_next_ip(base, 0) == base,
        base.d + offset <= 255 ==> spec_next_ip(base, offset) == (Ipv4Addr {
            a: base.a,
            b: base.b,
            c: base.c,
            d: (base.d + offset) as u8,
        }),
{
    lemma_next_bits(base, offset);
    lemma_next_bits(base, 0);
    lemma_same_bits(spec_next_ip(base, 0), base);
    if base.d + offset <= 255 {
        let moved = Ipv4Addr { a: base.a, b: base.b, c: base.c, d: (base.d + offset) as u8 };
        assert(ip_bits(moved) == ip_bits(base) + offset);
        lemma_same_bits(spec_next_ip(base, offset), moved);
    }
}

proof fn lemma_next_bits(base: Ipv4Addr, offset: int)
    ensures
        ip_bits(spec_next_ip(base, offset)) == (ip_bits(base) + offset) % 0x1_0000_0000,
        0 <= ip_bits(base) < 0x1_0000_0000,
{
    reveal(spec_next_ip);
    lemma_ip_bits(base, (ip_bits(base) + offset) % 0x1_0000_0000);
}

proof fn lemma_same_bits(x: Ipv4Addr, y: Ipv4Addr)
    ensures
        ip_bits(x) == ip_bits(y) ==> x == y,
        0 <= ip_bits(x) < 0x1_0000_0000,
{
    lemma_ip_bits(x, 0);
    lemma_ip_bits(y, 0);
}

/// The text of an address: its octets in decimal, with dots between them.
pub open spec fn ip_text(ip: Ipv4Addr) -> Seq<char> {
    decimal(ip.a as nat) + seq!['.'] + decimal(ip.b as nat) + seq!['.'] + decimal(ip.c as nat)
        + seq!['.'] + decimal(ip.d as nat)
}

/// Whether `s` is the text of an address.
pub open spec fn is_ip_text(s: Seq<char>) -> bool {
    exists|ip: Ipv4Addr| s == #[trigger] ip_text(ip)
}

/// The address whose text is `s`, if there is one.
pub open spec fn spec_parse_ip(s: Seq<char>) -> Option<Ipv4Addr> {
    if is_ip_text(s) {
        Some(choose|ip: Ipv4Addr| s == #[trigger] ip_text(ip))
    } else {
        None
    }
}

/// What follows a run of digits at `pos` begins with no digit.
spec fn run_ends(s: Seq<char>, end: int) -> bool {
    end == s.len() || !is_digit(s[end])
}

/// A run of digits that cannot be extended is found whole by whoever looks for it.
proof fn lemma_run(s: Seq<char>, pos: int, end: int, front: Seq<char>, rest: Seq<char>)
    requires
        0 <= pos <= end <= s.len(),
        all_digits(s.subrange(pos, end)),
        run_ends(s, end),
        s.skip(pos) == front + rest,
        all_digits(front),
        rest.len() == 0 || !is_digit(rest[0]),
    ensures
        end == pos + front.len(),
        s.subrange(pos, end) == front,
        s.skip(end) == rest,
{
    let n: int = front.len() as int;
    assert(s.skip(pos).len() == n + rest.len());
    if end < pos + n {
        assert(s[end] == s.skip(pos)[end - pos]);
        assert(s[end] == front[end - pos]);
        assert(false);
    }
    if end > pos + n {
        assert(s.subrange(pos, end)[n] == s.skip(pos)[n]);
        assert(rest[0] == s.skip(pos)[n]);
        assert(false);
    }
    assert forall|i: int| 0 <= i < n implies s.subrange(pos, end)[i] == front[i] by {
        assert(s.subrange(pos, end)[i] == s.skip(pos)[i]);
    }
    assert(s.subrange(pos, end) =~= front);
    assert forall|i: int| 0 <= i < rest.len() implies s.skip(end)[i] == rest[i] by {
        assert(s.skip(end)[i] == s.skip(pos)[n + i]);
    }
    assert(s.skip(end) =~= rest);
}

/// Reads the octet that starts at `pos`: a number up to 255 in decimal, and no digit after it.
/// Gives the octet and where it ends.
fn read_octet(v: &Vec<char>, pos: usize) -> (r: Option<(u8, usize)>)
    requires
        pos <= v@.len(),
    ensures
        match r {
            Some((n, end)) => {
                &&& pos < end <= v@.len()
                &&& v@.subrange(pos as int, end as int) == decimal(n as nat)
                &&& run_ends(v@, end as int)
            },
            None => forall|n: u8, rest: Seq<char>|
                v@.skip(pos as int) == #[trigger] (decimal(n as nat) + rest) ==> !(rest.len() == 0
                    || !is_digit(rest[0])),
        },
{
    let mut end: usize = pos;
    let mut value: u32 = 0;
    while end < v.len() && end - pos < 4 && '0' <= v[end] && v[end] <= '9'
        invariant
            pos <= end <= v@.len(),
            end - pos <= 4,
            all_digits(v@.subrange(pos as int, end as int)),
            value == digits_value(v@.subrange(pos as int, end as int)),
            end - pos == 0 ==> value == 0,
            end - pos == 1 ==> value <= 9,
            end - pos == 2 ==> value <= 99,
            end - pos == 3 ==> value <= 999,
            end - pos == 4 ==> value <= 9999,
        decreases v@.len() - end,
    {
        let ghost before = v@.subrange(pos as int, end as int);
        let c: char = v[end];
        let ghost after = v@.subrange(pos as int, end + 1);
        proof {
            assert(after.drop_last() =~= before);
            assert(after.last() == c);
            assert(after =~= before.push(c));
        }
        value = value * 10 + (c as u32 - '0' as u32);
        end = end + 1;
    }
    let ghost run = v@.subrange(pos as int, end as int);
    proof {
        // Longer runs, runs with leading zeros and runs over 255 are no octet.
        assert forall|n: u8, rest: Seq<char>|
            v@.skip(pos as int) == #[trigger] (decimal(n as nat) + rest) && (rest.len() == 0
                || !is_digit(rest[0])) implies run == decimal(n as nat) by {
            let front = decimal(n as nat);
            lemma_decimal(n as nat);
            lemma_octet_len(n);
            if end - pos == 4 {
                assert(is_digit(run[3]));
                assert(run[front.len() as int] == v@.skip(pos as int)[front.len() as int]);
                assert(false);
            }
            lemma_run(v@, pos as int, end as int, front, rest);
        }
    }
    if end == pos || end - pos == 4 || (v[pos] == '0' && end - pos > 1) || value > 255 {
        proof {
            assert forall|n: u8, rest: Seq<char>|
                v@.skip(pos as int) == #[trigger] (decimal(n as nat) + rest) implies !(rest.len()
                == 0 || !is_digit(rest[0])) by {
                lemma_decimal(n as nat);
                lemma_octet_len(n);
                if rest.len() == 0 || !is_digit(rest[0]) {
                    assert(run == decimal(n as nat));
                    assert(run[0] == v@[pos as int]);
                }
            }
        }
        None
    } else {
        proof {
            assert(run[0] == v@[pos as int]);
            assert(is_decimal(run));
            lemma_decimal_of_value(run);
        }
        Some((value as u8, end))
    }
}

proof fn lemma_octet_len(n: u8)
    ensures
        1 <= decimal(n as nat).len() <= 3,
{
    reveal_with_fuel(decimal, 3);
}

/// The text from the octet `n` on: the octet, a dot, and the rest.
spec fn dotted(n: u8, rest: Seq<char>) -> Seq<char> {
    decimal(n as nat) + (seq!['.'] + rest)
}

proof fn lemma_ip_text_dotted(ip: Ipv4Addr)
    ensures
        ip_text(ip) == dotted(ip.a, dotted(ip.b, dotted(ip.c, decimal(ip.d as nat)))),
{
    assert(ip_text(ip) =~= dotted(ip.a, dotted(ip.b, dotted(ip.c, decimal(ip.d as nat)))));
}

/// An octet read at `pos`, where the text from there on is known to be `n` and a rest,
/// is `n`, and the rest follows it.
proof fn lemma_octet(s: Seq<char>, pos: int, m: u8, end: int, n: u8, rest: Seq<char>)
    requires
        0 <= pos < end <= s.len(),
        s.subrange(pos, end) == decimal(m as nat),
        run_ends(s, end),
        s.skip(pos) == decimal(n as nat) + rest,
        rest.len() == 0 || !is_digit(rest[0]),
    ensures
        m == n,
        s.skip(end) == rest,
{
    lemma_decimal(m as nat);
    lemma_decimal(n as nat);
    lemma_run(s, pos, end, decimal(n as nat), rest);
    lemma_decimal_injective(m as nat, n as nat);
}

/// Two texts that begin with an octet and a dot agree only if the octets and the rests do.
proof fn lemma_dotted_injective(m: u8, s: Seq<char>, n: u8, t: Seq<char>)
    requires
        dotted(m, s) == dotted(n, t),
    ensures
        m == n,
        s == t,
{
    let whole = dotted(m, s);
    let end: int = decimal(m as nat).len() as int;
    lemma_decimal(m as nat);
    assert(whole.subrange(0, end) =~= decimal(m as nat));
    assert(whole[end] == '.');
    assert(whole.skip(0) =~= whole);
    lemma_octet(whole, 0, m, end, n, seq!['.'] + t);
    assert(whole.skip(end) =~= seq!['.'] + s);
    assert(s =~= (seq!['.'] + s).skip(1));
    assert(t =~= (seq!['.'] + t).skip(1));
}

/// An address can be read back from its text: no two addresses have the same one.
pub proof fn law_ip_text_roundtrip(ip: Ipv4Addr)
    ensures
        spec_parse_ip(ip_text(ip)) == Some(ip),
{
    let other = choose|other: Ipv4Addr| ip_text(ip) == #[trigger] ip_text(other);
    lemma_ip_text_dotted(ip);
    lemma_ip_text_dotted(other);
    let (x3, y3) = (decimal(ip.d as nat), decimal(other.d as nat));
    let (x2, y2) = (dotted(ip.c, x3), dotted(other.c, y3));
    let (x1, y1) = (dotted(ip.b, x2), dotted(other.b, y2));
    lemma_dotted_injective(ip.a, x1, other.a, y1);
    lemma_dotted_injective(ip.b, x2, other.b, y2);
    lemma_dotted_injective(ip.c, x3, other.c, y3);
    lemma_decimal_injective(ip.d as nat, other.d as nat);
}

/// The text of an address has the four octets in their order, each in decimal and a dot between
/// two of them; and nothing but such a text is read as an address.
pub proof fn law_ip_text_shows_octets(ip: Ipv4Addr, s: Seq<char>)
    ensures
        ip_text(ip) == decimal(ip.a as nat).push('.') + decimal(ip.b as nat).push('.') + decimal(
            ip.c as nat,
        ).push('.') + decimal(ip.d as nat),
        spec_parse_ip(s) == Some(ip) <==> s == ip_text(ip),
{
    assert(ip_text(ip) =~= decimal(ip.a as nat).push('.') + decimal(ip.b as nat).push('.')
        + decimal(ip.c as nat).push('.') + decimal(ip.d as nat));
    law_ip_text_roundtrip(ip);
    if spec_parse_ip(s) == Some(ip) {
        assert(is_ip_text(s));
    }
}

/// The text of an address.
pub fn ip_string(ip: Ipv4Addr) -> (t: String)
    ensures
        t@ == ip_text(ip),
{
    proof {
        reveal_strlit(".");
        assert("."@ =~= seq!['.']);
    }
    let mut t: String = u8_text(ip.a);
    t.append(".");
    t.append(u8_text(ip.b).as_str());
    t.append(".");
    t.append(u8_text(ip.c).as_str());
    t.append(".");
    t.append(u8_text(ip.d).as_str());
    t
}

/// Reads the address whose text is all of `v`.
fn parse_ip_chars(v: &Vec<char>) -> (r: Option<Ipv4Addr>)
    ensures
        r == spec_parse_ip(v@),
{
    let ghost s = v@;
    let ghost known = spec_parse_ip(s);
    proof {
        assert(s.skip(0) =~= s);
        if known is Some {
            lemma_ip_text_dotted(known->0);
        }
    }
    let ghost want = known->0;
    let ghost rest3 = decimal(want.d as nat);
    let ghost rest2 = dotted(want.c, rest3);
    let ghost rest1 = dotted(want.b, rest2);
    let (a, end1): (u8, usize) = match read_octet(v, 0) {
        Some(found) => found,
        None => return None,
    };
    proof {
        if known is Some {
            lemma_octet(s, 0, a, end1 as int, want.a, seq!['.'] + rest1);
            lemma_after_dot(s, end1 as int, rest1);
        }
    }
    if end1 == v.len() || v[end1] != '.' {
        return None;
    }
    let (b, end2): (u8, usize) = match read_octet(v, end1 + 1) {
        Some(found) => found,
        None => return None,
    };
    proof {
        if known is Some {
            lemma_octet(s, end1 + 1, b, end2 as int, want.b, seq!['.'] + rest2);
            lemma_after_dot(s, end2 as int, rest2);
        }
    }
    if end2 == v.len() || v[end2] != '.' {
        return None;
    }
    let (c, end3): (u8, usize) = match read_octet(v, end2 + 1) {
        Some(found) => found,
        None => return None,
    };
    proof {
        if known is Some {
            lemma_octet(s, end2 + 1, c, end3 as int, want.c, seq!['.'] + rest3);
            lemma_after_dot(s, end3 as int, rest3);
            assert(rest3 =~= rest3 + Seq::<char>::empty());
        }
    }
    if end3 == v.len() || v[end3] != '.' {
        return None;
    }
    let (d, end4): (u8, usize) = match read_octet(v, end3 + 1) {
        Some(found) => found,
        None => return None,
    };
    proof {
        if known is Some {
            lemma_octet(s, end3 + 1, d, end4 as int, want.d, Seq::<char>::empty());
        }
    }
    if end4 != v.len() {
        return None;
    }
    let ip = Ipv4Addr { a, b, c, d };
    proof {
        assert(s =~= ip_text(ip));
        law_ip_text_roundtrip(ip);
    }
    Some(ip)
}

proof fn lemma_after_dot(s: Seq<char>, end: int, rest: Seq<char>)
    requires
        0 <= end <= s.len(),
        s.skip(end) == seq!['.'] + rest,
    ensures
        end < s.len(),
        s[end] == '.',
        s.skip(end + 1) == rest,
{
    assert(s.skip(end)[0] == '.');
    assert(s.skip(end + 1) =~= s.skip(end).skip(1));
    assert(rest =~= (seq!['.'] + rest).skip(1));
}

/// The address whose text is `s`: four numbers up to 255 in decimal, without leading zeros,
/// and single dots between them. Any other text gives `None`.
pub fn parse_ip(s: &str) -> (r: Option<Ipv4Addr>)
    ensures
        r == spec_parse_ip(s@),
{
    let v: Vec<char> = chars_of(s);
    parse_ip_chars(&v)
}

/// Why a text is no network in CIDR notation.
#[derive(Clone, Copy, Debug, PartialEq, Eq, Structural)]
pub enum CidrError {
    /// It has no slash, or more than one.
    Format,
    /// What stands before the slash is no IPv4 address.
    Address,
    /// What stands after the slash is no number up to 255.
    Prefix,
}

/// Whether the slash at `i` is the only one in `s`.
pub open spec fn only_slash(s: Seq<char>, i: int) -> bool {
    &&& 0 <= i < s.len()
    &&& s[i] == '/'
    &&& forall|j: int| 0 <= j < s.len() && j != i ==> s[j] != '/'
}

/// The number up to 255 that `s` stands for: one digit or more, and perhaps a plus sign in front.
pub open spec fn spec_parse_u8(s: Seq<char>) -> Option<u8> {
    let digits = if s.len() > 0 && s[0] == '+' {
        s.skip(1)
    } else {
        s
    };
    if digits.len() > 0 && all_digits(digits) && digits_value(digits) <= 255 {
        Some(digits_value(digits) as u8)
    } else {
        None
    }
}

/// The network that `s` names: an address, a slash and a prefix length.
pub open spec fn spec_parse_cidr(s: Seq<char>) -> Result<(Ipv4Addr, u8), CidrError> {
    if exists|i: int| only_slash(s, i) {
        let i = choose|i: int| only_slash(s, i);
        match (spec_parse_ip(s.take(i)), spec_parse_u8(s.skip(i + 1))) {
            (None, _) => Err(CidrError::Address),
            (Some(_), None) => Err(CidrError::Prefix),
            (Some(ip), Some(prefix)) => Ok((ip, prefix)),
        }
    } else {
        Err(CidrError::Format)
    }
}

/// A run of digits stands for at least what its beginning stands for.
proof fn lemma_value_grows(s: Seq<char>, n: int)
    requires
        0 <= n <= s.len(),
    ensures
        digits_value(s.take(n)) <= digits_value(s),
    decreases s.len() - n,
{
    if n == s.len() {
        assert(s.take(n) =~= s);
    } else {
        lemma_value_grows(s, n + 1);
        assert(s.take(n + 1).drop_last() =~= s.take(n));
    }
}

/// Reads the number up to 255 that the characters from `from` on stand for.
fn parse_u8_chars(v: &Vec<char>, from: usize) -> (r: Option<u8>)
    requires
        from <= v@.len(),
    ensures
        r == spec_parse_u8(v@.skip(from as int)),
{
    let ghost s = v@.skip(from as int);
    let first: usize = if from < v.len() && v[from] == '+' {
        from + 1
    } else {
        from
    };
    let ghost digits = v@.skip(first as int);
    proof {
        assert(first == from + 1 ==> digits =~= s.skip(1));
    }
    if first == v.len() {
        return None;
    }
    let mut value: u32 = 0;
    let mut i: usize = first;
    while i < v.len()
        invariant
            first <= i <= v@.len(),
            s == v@.skip(from as int),
            digits == v@.skip(first as int),
            all_digits(digits.take(i - first)),
            value == digits_value(digits.take(i - first)),
            value <= 255,
            spec_parse_u8(s) == (if digits.len() > 0 && all_digits(digits) && digits_value(digits)
                <= 255 {
                Some(digits_value(digits) as u8)
            } else {
                None
            }),
        decreases v@.len() - i,
    {
        let c: char = v[i];
        let ghost before = digits.take(i - first);
        let ghost after = digits.take(i + 1 - first);
        proof {
            assert(c == digits[i - first]);
            assert(after.drop_last() =~= before);
            assert(after =~= before.push(c));
        }
        if c < '0' || c > '9' {
            return None;
        }
        value = value * 10 + (c as u32 - '0' as u32);
        if value > 255 {
            proof {
                lemma_value_grows(digits, i + 1 - first);
            }
            return None;
        }
        i = i + 1;
    }
    proof {
        assert(digits.take(i - first) =~= digits);
    }
    Some(value as u8)
}

/// The address and the prefix length of a network in CIDR notation, such as `10.10.0.0/24`.
pub fn parse_cidr(cidr: &str) -> (r: Result<(Ipv4Addr, u8), CidrError>)
    ensures
        r == spec_parse_cidr(cidr@),
{
    let v: Vec<char> = chars_of(cidr);
    let mut slash: usize = 0;
    while slash < v.len() && v[slash] != '/'
        invariant
            slash <= v@.len(),
            forall|j: int| 0 <= j < slash ==> v@[j] != '/',
        decreases v@.len() - slash,
    {
        slash = slash + 1;
    }
    if slash == v.len() {
        return Err(CidrError::Format);
    }
    let mut i: usize = slash + 1;
    while i < v.len()
        invariant
            slash < i <= v@.len(),
            v@ == cidr@,
            v@[slash as int] == '/',
            forall|j: int| 0 <= j < i && j != slash ==> v@[j] != '/',
        decreases v@.len() - i,
    {
        if v[i] == '/' {
            return Err(CidrError::Format);
        }
        i = i + 1;
    }
    proof {
        assert(only_slash(cidr@, slash as int));
    }
    let mut front: Vec<char> = Vec::new();
    let mut k: usize = 0;
    while k < slash
        invariant
            k <= slash <= v@.len(),
            front@ == v@.take(k as int),
        decreases slash - k,
    {
        front.push(v[k]);
        k = k + 1;
        assert(front@ =~= v@.take(k as int));
    }
    match parse_ip_chars(&front) {
        None => Err(CidrError::Address),
        Some(ip) => match parse_u8_chars(&v, slash + 1) {
            None => Err(CidrError::Prefix),
            Some(prefix) => Ok((ip, prefix)),
        },
    }
}

proof fn lemma_only_slash(s: Seq<char>, i: int)
    requires
        only_slash(s, i),
    ensures
        forall|j: int| only_slash(s, j) ==> j == i,
{
}

/// A network is written as an address, a slash and a number up to 255 in decimal, and is read
/// as that address and that number.
pub proof fn law_cidr_is_read(ip: Ipv4Addr, prefix: u8)
    ensures
        spec_parse_cidr(ip_text(ip).push('/') + decimal(prefix as nat)) == Ok::<
            (Ipv4Addr, u8),
            CidrError,
        >((ip, prefix)),
{
    let front = ip_text(ip);
    let back = decimal(prefix as nat);
    let s = front.push('/') + back;
    let i: int = front.len() as int;
    lemma_decimal(ip.a as nat);
    lemma_decimal(ip.b as nat);
    lemma_decimal(ip.c as nat);
    lemma_decimal(ip.d as nat);
    lemma_decimal(prefix as nat);
    lemma_no_slash(decimal(ip.a as nat));
    lemma_no_slash(decimal(ip.b as nat));
    lemma_no_slash(decimal(ip.c as nat));
    lemma_no_slash(decimal(ip.d as nat));
    lemma_no_slash(back);
    assert(forall|j: int| 0 <= j < front.len() ==> front[j] != '/');
    assert(s[i] == '/');
    assert forall|j: int| 0 <= j < s.len() && j != i implies s[j] != '/' by {
        if j < i {
            assert(s[j] == front[j]);
        } else {
            assert(s[j] == back[j - i - 1]);
        }
    }
    assert(only_slash(s, i));
    lemma_only_slash(s, i);
    assert(s.take(i) =~= front);
    assert(s.skip(i + 1) =~= back);
    assert(back[0] != '+') by {
        assert(is_digit(back[0]));
    }
    law_ip_text_roundtrip(ip);
}

proof fn lemma_no_slash(s: Seq<char>)
    requires
        all_digits(s),
    ensures
        forall|j: int| 0 <= j < s.len() ==> s[j] != '/',
{
    assert forall|j: int| 0 <= j < s.len() implies s[j] != '/' by {
        assert(is_digit(s[j]));
    }
}

/// A text without a slash or with two of them is no network, whatever else it holds.
pub proof fn law_cidr_has_one_slash(s: Seq<char>, i: int, j: int)
    ensures
        (forall|k: int| 0 <= k < s.len() ==> s[k] != '/') ==> spec_parse_cidr(s) == Err::<
            (Ipv4Addr, u8),
            CidrError,
        >(CidrError::Format),
        0 <= i < j < s.len() && s[i] == '/' && s[j] == '/' ==> spec_parse_cidr(s) == Err::<
            (Ipv4Addr, u8),
            CidrError,
        >(CidrError::Format),
{
}

/// What stands before the slash decides first: where it is no address, that is the fault; where it
/// is one, what stands after the slash is the prefix length, or the fault.
pub proof fn law_cidr_parts(s: Seq<char>, i: int)
    requires
        0 <= i < s.len(),
        s[i] == '/',
        forall|j: int| 0 <= j < s.len() && j != i ==> s[j] != '/',
    ensures
        spec_parse_ip(s.take(i)) is None ==> spec_parse_cidr(s) == Err::<(Ipv4Addr, u8), CidrError>(
            CidrError::Address,
        ),
        spec_parse_ip(s.take(i)) matches Some(ip) ==> match spec_parse_u8(s.skip(i + 1)) {
            Some(prefix) => spec_parse_cidr(s) == Ok::<(Ipv4Addr, u8), CidrError>((ip, prefix)),
            None => spec_parse_cidr(s) == Err::<(Ipv4Addr, u8), CidrError>(CidrError::Prefix),
        },
{
    assert(only_slash(s, i));
    lemma_only_slash(s, i);
}

/// A prefix length is one digit or more, with or without a plus sign in front, that stand for a
/// number up to 255. Anything else is none.
pub proof fn law_prefix_length_is_read(digits: Seq<char>, s: Seq<char>, i: int)
    ensures
        digits.len() > 0 && (forall|k: int|
            0 <= k < digits.len() ==> '0' <= #[trigger] digits[k] && digits[k] <= '9') ==> {
            let value = digits_value(digits);
            let read = if value <= 255 {
                Some(value as u8)
            } else {
                None
            };
            &&& spec_parse_u8(digits) == read
            &&& spec_parse_u8(seq!['+'] + digits) == read
        },
        spec_parse_u8(Seq::empty()) is None,
        spec_parse_u8(seq!['+']) is None,
        0 <= i < s.len() && !('0' <= s[i] <= '9') && !(i == 0 && s[0] == '+') ==> spec_parse_u8(
            s,
        ) is None,
{
    if digits.len() > 0 && (forall|k: int|
        0 <= k < digits.len() ==> '0' <= #[trigger] digits[k] && digits[k] <= '9') {
        assert(all_digits(digits));
        assert((seq!['+'] + digits).skip(1) =~= digits);
        assert(digits[0] != '+');
    }
    assert(seq!['+'].skip(1).len() == 0);
    if 0 <= i < s.len() && !('0' <= s[i] <= '9') && !(i == 0 && s[0] == '+') {
        if s[0] == '+' {
            assert(s.skip(1)[i - 1] == s[i]);
            assert(!is_digit(s.skip(1)[i - 1]));
        } else {
            assert(!is_digit(s[i]));
        }
    }
}

} // verus!
