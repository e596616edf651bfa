//! IPv4 addresses and endpoints.
use crate::error::Error;
use crate::number::{is_digit, leading_digits, lemma_leading_digits, lemma_leading_digits_are, value};
use crate::text::{decimal, push_decimal, same_text, to_chars};
use vstd::prelude::*;

verus! {

/// An IPv4 address, by its four octets.
#[derive(Debug, Clone, Copy, PartialEq, Eq, Structural)]
pub struct Ipv4Addr {
    pub a: u8,
    pub b: u8,
    pub c: u8,
    pub d: u8,
}

/// An IPv4 address with a port.
#[derive(Debug, Clone, Copy, PartialEq, Eq, Structural)]
pub struct SocketAddrV4 {
    pub ip: Ipv4Addr,
    pub port: u16,
}

impl Ipv4Addr {
    /// The dotted-decimal notation of this address.
    pub open spec fn text(self) -> Seq<char> {
        decimal(self.a as nat) + "."@ + decimal(self.b as nat) + "."@ + decimal(self.c as nat) + "."@
            + decimal(self.d as nat)
    }

    /// Write the dotted-decimal notation of this address.
    pub fn to_text(&self) -> (s: String)
        ensures
            s@ == self.text(),
    {
        let mut s = String::new();
        push_decimal(&mut s, self.a as u32);
        s.append(".");
        push_decimal(&mut s, self.b as u32);
        s.append(".");
        push_decimal(&mut s, self.c as u32);
        s.append(".");
        push_decimal(&mut s, self.d as u32);
        assert(s@ =~= self.text());
        s
    }

    /// Read an address; only its own notation is accepted, so there are no
    /// leading zeros, missing octets or surrounding characters.
    pub fn parse(s: &str) -> (result: Result<Ipv4Addr, Error>)
        ensures
            result == parsed(s@),
            result matches Ok(ip) ==> s@ == ip.text(),
            result matches Err(e) ==> e == Error::AddressSyntax && forall|ip: Ipv4Addr|
                #[trigger] ip.text() != s@,
    {
        proof {
            assert forall|ip: Ipv4Addr| #[trigger] ip.text() == s@ implies scanned(s@) == Some(
                ip,
            ) by {
                lemma_scan_text(ip);
            }
        }
        proof {
            assert forall|x: Ipv4Addr, y: Ipv4Addr| #[trigger] x.text() == s@ && #[trigger] y.text() == s@
                implies x == y by {
                law_notation_is_unique(x, y);
            }
        }
        match scan(s) {
            Some(ip) => if same_text(ip.to_text().as_str(), s) {
                Ok(ip)
            } else {
                Err(Error::AddressSyntax)
            },
            None => Err(Error::AddressSyntax),
        }
    }

    /// 127.0.0.0/8.
    pub open spec fn loopback(self) -> bool {
        self.a == 127
    }

    /// 224.0.0.0/4.
    pub open spec fn multicast(self) -> bool {
        224 <= self.a <= 239
    }

    /// 0.0.0.0.
    pub open spec fn unspecified(self) -> bool {
        self.a == 0 && self.b == 0 && self.c == 0 && self.d == 0
    }

    /// Whether two addresses share their first three octets.
    pub open spec fn same_subnet(self, other: Ipv4Addr) -> bool {
        self.a == other.a && self.b == other.b && self.c == other.c
    }
}

/// The address that `s` is the notation of.
pub open spec fn parsed(s: Seq<char>) -> Result<Ipv4Addr, Error> {
    if exists|ip: Ipv4Addr| #[trigger] ip.text() == s {
        Ok(choose|ip: Ipv4Addr| #[trigger] ip.text() == s)
    } else {
        Err(Error::AddressSyntax)
    }
}

/// The octet whose digits stand in `s` from `at` on, and where they end.
spec fn octet_at(s: Seq<char>, at: int) -> Option<(u8, int)> {
    let rest = s.skip(at);
    let n = leading_digits(rest);
    if 1 <= n <= 3 && value(rest.take(n as int)) <= 255 {
        Some((value(rest.take(n as int)) as u8, at + n))
    } else {
        None
    }
}

/// The octet that follows a full stop at `at`.
spec fn dotted_octet_at(s: Seq<char>, at: int) -> Option<(u8, int)> {
    if at < s.len() && s[at] == '.' {
        octet_at(s, at + 1)
    } else {
        None
    }
}

/// Four octets separated by full stops; an octet may have leading zeros here.
spec fn scanned(s: Seq<char>) -> Option<Ipv4Addr> {
    match octet_at(s, 0) {
        Some((a, i)) => match dotted_octet_at(s, i) {
            Some((b, j)) => match dotted_octet_at(s, j) {
                Some((c, k)) => match dotted_octet_at(s, k) {
                    Some((d, end)) => if end == s.len() {
                        Some(Ipv4Addr { a, b, c, d })
                    } else {
                        None
                    },
                    None => None,
                },
                None => None,
            },
            None => None,
        },
        None => None,
    }
}

fn read_octet(chars: &Vec<char>, at: usize) -> (result: Option<(u8, usize)>)
    requires
        at <= chars@.len(),
    ensures
        result matches Some((octet, end)) ==> end <= chars@.len() && octet_at(chars@, at as int)
            == Some((octet, end as int)),
        result is None ==> octet_at(chars@, at as int) is None,
{
    let ghost rest = chars@.skip(at as int);
    let mut n: u32 = 0;
    let mut i: usize = at;
    proof {
        lemma_leading_digits(rest);
        assert(rest.take(0) =~= seq![]);
    }
    while i < chars.len() && i - at < 4 && '0' <= chars[i] && chars[i] <= '9'
        invariant
            at <= i <= chars@.len(),
            i - at <= 4,
            rest == chars@.skip(at as int),
            forall|k: int| 0 <= k < i - at ==> is_digit(#[trigger] rest[k]),
            n == value(rest.take(i - at)),
            i - at == 0 ==> n == 0,
            i - at == 1 ==> n < 10,
            i - at == 2 ==> n < 100,
            i - at == 3 ==> n < 1000,
            i - at == 4 ==> n < 10000,
        decreases chars@.len() - i,
    {
        let d: u32 = chars[i] as u32 - 48;
        proof {
            assert(rest.take(i - at + 1).drop_last() =~= rest.take(i - at));
            assert(rest.take(i - at + 1).last() == chars@[i as int]);
        }
        n = n * 10 + d;
        i = i + 1;
    }
    if i - at == 4 {
        proof {
            if leading_digits(rest) < 4 {
                assert(is_digit(rest[leading_digits(rest) as int]));
            }
        }
        return None;
    }
    proof {
        lemma_leading_digits_are(rest, i - at);
    }
    if i == at || n > 255 {
        return None;
    }
    Some((n as u8, i))
}

fn read_dotted_octet(chars: &Vec<char>, at: usize) -> (result: Option<(u8, usize)>)
    requires
        at <= chars@.len(),
    ensures
        result matches Some((octet, end)) ==> end <= chars@.len() && dotted_octet_at(
            chars@,
            at as int,
        ) == Some((octet, end as int)),
        result is None ==> dotted_octet_at(chars@, at as int) is None,
{
    if at < chars.len() && chars[at] == '.' {
        read_octet(chars, at + 1)
    } else {
        None
    }
}

fn scan(s: &str) -> (result: Option<Ipv4Addr>)
    ensures
        result == scanned(s@),
{
    let chars = to_chars(s);
    let (a, i) = match read_octet(&chars, 0) {
        Some(octet) => octet,
        None => return None,
    };
    let (b, j) = match read_dotted_octet(&chars, i) {
        Some(octet) => octet,
        None => return None,
    };
    let (c, k) = match read_dotted_octet(&chars, j) {
        Some(octet) => octet,
        None => return None,
    };
    let (d, end) = match read_dotted_octet(&chars, k) {
        Some(octet) => octet,
        None => return None,
    };
    if end == chars.len() {
        Some(Ipv4Addr { a, b, c, d })
    } else {
        None
    }
}

/// A numeral denotes the number that it was written for.
pub proof fn lemma_decimal_value(n: nat)
    ensures
        decimal(n).len() > 0,
        value(decimal(n)) == n,
        forall|i: int| 0 <= i < decimal(n).len() ==> is_digit(#[trigger] decimal(n)[i]),
    decreases n,
{
    if n >= 10 {
        lemma_decimal_value(n / 10);
        assert(decimal(n).drop_last() =~= decimal(n / 10));
    } else {
        reveal_with_fuel(value, 2);
        assert(decimal(n).drop_last() =~= seq![]);
    }
}

proof fn lemma_octet_text(s: Seq<char>, at: int, octet: u8, tail: Seq<char>)
    requires
        0 <= at <= s.len(),
        s.skip(at) == decimal(octet as nat) + tail,
        tail.len() == 0 || tail[0] == '.',
    ensures
        octet_at(s, at) == Some((octet, at + decimal(octet as nat).len())),
        s.skip(at + decimal(octet as nat).len()) == tail,
{
    let digits = decimal(octet as nat);
    let rest = s.skip(at);
    lemma_decimal_value(octet as nat);
    assert(digits.len() <= 3) by {
        reveal_with_fuel(decimal, 3);
    }
    assert forall|i: int| 0 <= i < digits.len() implies is_digit(#[trigger] rest[i]) by {
        assert(rest[i] == digits[i]);
    }
    assert(tail.len() > 0 ==> rest[digits.len() as int] == tail[0]);
    lemma_leading_digits_are(rest, digits.len() as int);
    assert(rest.take(digits.len() as int) =~= digits);
    assert(rest.len() == digits.len() + tail.len());
    assert forall|i: int| 0 <= i < tail.len() implies s.skip(at + digits.len())[i] == tail[i] by {
        assert(rest[digits.len() + i] == tail[i]);
    }
    assert(s.skip(at + digits.len()) =~= tail);
}

proof fn lemma_scan_text(ip: Ipv4Addr)
    ensures
        scanned(ip.text()) == Some(ip),
{
    reveal_strlit(".");
    let s = ip.text();
    let a = decimal(ip.a as nat);
    let b = decimal(ip.b as nat);
    let c = decimal(ip.c as nat);
    let d = decimal(ip.d as nat);
    let dot = seq!['.'];
    assert("."@ =~= dot);
    let tail_c = dot + d;
    let tail_b = dot + (c + tail_c);
    let tail_a = dot + (b + tail_b);
    assert(s.skip(0) =~= a + tail_a);
    lemma_octet_text(s, 0, ip.a, tail_a);
    let i = a.len() as int;
    assert(s[i] == tail_a[0]);
    assert(s.skip(i + 1) =~= b + tail_b);
    lemma_octet_text(s, i + 1, ip.b, tail_b);
    let j = i + 1 + b.len();
    assert(s[j] == tail_b[0]);
    assert(s.skip(j + 1) =~= c + tail_c);
    lemma_octet_text(s, j + 1, ip.c, tail_c);
    let k = j + 1 + c.len();
    assert(s[k] == tail_c[0]);
    assert(s.skip(k + 1) =~= d + seq![]);
    lemma_octet_text(s, k + 1, ip.d, seq![]);
}

/// Two addresses with the same notation are the same address.
pub proof fn law_notation_is_unique(x: Ipv4Addr, y: Ipv4Addr)
    requires
        x.text() == y.text(),
    ensures
        x == y,
{
    lemma_scan_text(x);
    lemma_scan_text(y);
}

/// A socket address of any family, as the socket library holds it.
#[verifier::external_type_specification]
#[verifier::external_body]
pub struct ExSockAddr(socket2::SockAddr);

/// The octets and the port of an address of the IPv4 family; `None` for one of another family.
pub uninterp spec fn ipv4_part(address: socket2::SockAddr) -> Option<(u8, u8, u8, u8, u16)>;

/// `socket2::SockAddr::as_socket_ipv4`: the octets and the port of an address of
/// the IPv4 family, and nothing for any other family.
#[verifier::external_body]
fn as_socket_ipv4(address: &socket2::SockAddr) -> (result: Option<SocketAddrV4>)
    ensures
        result matches Some(v4) ==> ipv4_part(*address) == Some(
            (v4.ip.a, v4.ip.b, v4.ip.c, v4.ip.d, v4.port),
        ),
        result is None ==> ipv4_part(*address) is None,
{
    address.as_socket_ipv4().map(|v4| {
        let [a, b, c, d] = v4.ip().octets();
        SocketAddrV4 { ip: Ipv4Addr { a, b, c, d }, port: v4.port() }
    })
}

/// The endpoint that an address denotes; only the IPv4 family is supported.
pub fn ipv4(address: &socket2::SockAddr) -> (result: Result<SocketAddrV4, Error>)
    ensures
        result == ipv4_verdict(ipv4_part(*address)),
{
    require_ipv4(as_socket_ipv4(address))
}

/// What [`ipv4`] answers for what is known of an address.
pub open spec fn ipv4_verdict(part: Option<(u8, u8, u8, u8, u16)>) -> Result<SocketAddrV4, Error> {
    match part {
        Some((a, b, c, d, port)) => Ok(SocketAddrV4 { ip: Ipv4Addr { a, b, c, d }, port }),
        None => Err(Error::NotIpv4),
    }
}

/// Insist on an IPv4 endpoint.
pub fn require_ipv4(endpoint: Option<SocketAddrV4>) -> (result: Result<SocketAddrV4, Error>)
    ensures
        endpoint matches Some(v4) ==> result == Ok::<SocketAddrV4, Error>(v4),
        endpoint is None ==> result == Err::<SocketAddrV4, Error>(Error::NotIpv4),
{
    match endpoint {
        Some(v4) => Ok(v4),
        None => Err(Error::NotIpv4),
    }
}

} // verus!
