//! IPv4 addresses and socket addresses as plain values, with their text
//! forms.

use crate::text::{
    all_digits, chars_of, decimal_text, decimal_value, digit_char, is_numeral_up_to,
    lemma_decimal_text, parse_decimal, push_decimal, string_of,
};
use vstd::prelude::*;

verus! {

/// An IPv4 address: its four octets, most significant first.
#[derive(Clone, Copy, Debug, PartialEq, Eq)]
pub struct Ipv4Address(pub u8, pub u8, pub u8, pub u8);

/// An IPv4 address and a port.
#[derive(Clone, Copy, Debug, PartialEq, Eq)]
pub struct SocketAddress {
    /// The host's address.
    pub ip: Ipv4Address,
    /// The port.
    pub port: u16,
}

/// The dotted-quad form of `ip`: four decimal numerals joined by `.`.
pub open spec fn dotted_quad(ip: Ipv4Address) -> Seq<char> {
    decimal_text(ip.0 as nat) + seq!['.'] + decimal_text(ip.1 as nat) + seq!['.'] + decimal_text(
        ip.2 as nat,
    ) + seq!['.'] + decimal_text(ip.3 as nat)
}

/// The text form of `address`: the dotted quad, `:` and the port's numeral.
pub open spec fn socket_address_text(address: SocketAddress) -> Seq<char> {
    dotted_quad(address.ip) + seq![':'] + decimal_text(address.port as nat)
}

/// Index of the first `c` in `s`; the length of `s` when there is none.
pub open spec fn first_index(s: Seq<char>, c: char) -> int
    decreases s.len(),
{
    if s.len() == 0 || s[0] == c {
        0
    } else {
        1 + first_index(s.drop_first(), c)
    }
}

/// The text before the first `sep` in `s` and the text after it; `None` when
/// `s` holds no `sep`.
pub open spec fn split_first(s: Seq<char>, sep: char) -> Option<(Seq<char>, Seq<char>)> {
    let i = first_index(s, sep);
    if i < s.len() {
        Some((s.take(i), s.skip(i + 1)))
    } else {
        None
    }
}

/// The octet that `s` denotes: one to three digits, no leading zero before
/// another digit, at most 255.
pub open spec fn octet_of(s: Seq<char>) -> Option<u8> {
    if 1 <= s.len() <= 3 && all_digits(s) && (s.len() == 1 || s[0] != '0') && decimal_value(s)
        <= 255 {
        Some(decimal_value(s) as u8)
    } else {
        None
    }
}

/// The port that `s` denotes: one or more digits, leading zeros allowed, at
/// most 65535.
pub open spec fn port_of(s: Seq<char>) -> Option<u16> {
    if is_numeral_up_to(s, 65535) {
        Some(decimal_value(s) as u16)
    } else {
        None
    }
}

/// The socket address that `s` denotes, if it is of the form
/// `octet.octet.octet.octet:port` and nothing else.
pub open spec fn socket_address_of(s: Seq<char>) -> Option<SocketAddress> {
    match split_first(s, '.') {
        None => None,
        Some((t1, r1)) => match split_first(r1, '.') {
            None => None,
            Some((t2, r2)) => match split_first(r2, '.') {
                None => None,
                Some((t3, r3)) => match split_first(r3, ':') {
                    None => None,
                    Some((t4, r4)) => match (
                        octet_of(t1),
                        octet_of(t2),
                        octet_of(t3),
                        octet_of(t4),
                        port_of(r4),
                    ) {
                        (Some(a), Some(b), Some(c), Some(d), Some(port)) => Some(
                            SocketAddress { ip: Ipv4Address(a, b, c, d), port },
                        ),
                        _ => None,
                    },
                },
            },
        },
    }
}

/// `first_index` is the one position at or before which `c` first occurs.
pub proof fn lemma_first_index(s: Seq<char>, c: char, p: int)
    requires
        0 <= p <= s.len(),
        forall|j: int| 0 <= j < p ==> s[j] != c,
        p < s.len() ==> s[p] == c,
    ensures
        first_index(s, c) == p,
    decreases s.len(),
{
    if s.len() == 0 || s[0] == c {
    } else {
        let rest = s.drop_first();
        assert forall|j: int| 0 <= j < p - 1 implies rest[j] != c by {
            assert(rest[j] == s[j + 1]);
        }
        lemma_first_index(rest, c, p - 1);
    }
}

/// Text that holds no `sep`, then `sep`, then any text splits at that `sep`.
pub proof fn lemma_split_first_joined(head: Seq<char>, sep: char, tail: Seq<char>)
    requires
        forall|i: int| 0 <= i < head.len() ==> head[i] != sep,
    ensures
        split_first(head + seq![sep] + tail, sep) == Some((head, tail)),
{
    let s = head + seq![sep] + tail;
    lemma_first_index(s, sep, head.len() as int);
    assert(s.take(head.len() as int) =~= head);
    assert(s.skip(head.len() as int + 1) =~= tail);
}

/// The numeral of an octet is read back as that octet.
pub proof fn lemma_octet_of_numeral(octet: u8)
    ensures
        octet_of(decimal_text(octet as nat)) == Some(octet),
        all_digits(decimal_text(octet as nat)),
{
    let n = octet as nat;
    lemma_decimal_text(n);
    if n >= 10 {
        lemma_decimal_text(n / 10);
        if n >= 100 {
            lemma_decimal_text(n / 100);
            assert(decimal_text(n / 10) == decimal_text(n / 100).push(digit_char((n / 10) % 10)));
            assert(decimal_text(n / 100).len() == 1);
        }
    }
}

/// Reading the text form of a socket address gives that address back.
pub proof fn lemma_text_reads_back(address: SocketAddress)
    ensures
        socket_address_of(socket_address_text(address)) == Some(address),
{
    let ip = address.ip;
    let a = decimal_text(ip.0 as nat);
    let b = decimal_text(ip.1 as nat);
    let c = decimal_text(ip.2 as nat);
    let d = decimal_text(ip.3 as nat);
    let p = decimal_text(address.port as nat);
    lemma_octet_of_numeral(ip.0);
    lemma_octet_of_numeral(ip.1);
    lemma_octet_of_numeral(ip.2);
    lemma_octet_of_numeral(ip.3);
    lemma_decimal_text(address.port as nat);
    let r3 = d + seq![':'] + p;
    let r2 = c + seq!['.'] + r3;
    let r1 = b + seq!['.'] + r2;
    let s = a + seq!['.'] + r1;
    assert(s =~= socket_address_text(address));
    lemma_split_first_joined(a, '.', r1);
    lemma_split_first_joined(b, '.', r2);
    lemma_split_first_joined(c, '.', r3);
    lemma_split_first_joined(d, ':', p);
}

/// Position of the first `c` in `chars[start..]`, or the length of `chars`.
fn find_from(chars: &Vec<char>, start: usize, c: char) -> (pos: usize)
    requires
        start <= chars.len(),
    ensures
        start <= pos <= chars.len(),
        pos - start == first_index(chars@.skip(start as int), c),
{
    let mut pos: usize = start;
    while pos < chars.len() && chars[pos] != c
        invariant
            start <= pos <= chars.len(),
            forall|j: int| start <= j < pos ==> chars@[j] != c,
        decreases chars.len() - pos,
    {
        pos = pos + 1;
    }
    proof {
        lemma_first_index(chars@.skip(start as int), c, pos - start);
    }
    pos
}

/// Reads `chars[from..to]` as an octet.
fn parse_octet(chars: &Vec<char>, from: usize, to: usize) -> (octet: Option<u8>)
    requires
        from <= to <= chars.len(),
    ensures
        octet == octet_of(chars@.subrange(from as int, to as int)),
{
    let ghost text = chars@.subrange(from as int, to as int);
    if to - from > 3 {
        return None;
    }
    if to - from > 1 && chars[from] == '0' {
        proof {
            assert(text[0] == chars@[from as int]);
        }
        return None;
    }
    match parse_decimal(chars, from, to, 255) {
        None => None,
        Some(v) => {
            proof {
                if text.len() > 1 {
                    assert(text[0] == chars@[from as int]);
                }
            }
            Some(v as u8)
        },
    }
}

/// Reads `input` as an IPv4 socket address, `a.b.c.d:port`.
pub fn parse_socket_address(input: &str) -> (address: Option<SocketAddress>)
    ensures
        address == socket_address_of(input@),
{
    let chars = chars_of(input);
    let n = chars.len();
    let ghost s = chars@;
    let d1 = find_from(&chars, 0, '.');
    proof {
        assert(s.skip(0) =~= s);
    }
    if d1 >= n {
        return None;
    }
    let ghost r1 = s.skip(d1 + 1);
    let d2 = find_from(&chars, d1 + 1, '.');
    if d2 >= n {
        return None;
    }
    let ghost r2 = r1.skip(d2 - d1);
    proof {
        assert(r2 =~= s.skip(d2 + 1));
    }
    let d3 = find_from(&chars, d2 + 1, '.');
    if d3 >= n {
        return None;
    }
    let ghost r3 = r2.skip(d3 - d2);
    proof {
        assert(r3 =~= s.skip(d3 + 1));
    }
    let colon = find_from(&chars, d3 + 1, ':');
    if colon >= n {
        return None;
    }
    let ghost r4 = r3.skip(colon - d3);
    proof {
        assert(r4 =~= s.subrange(colon + 1, n as int));
        assert(s.take(d1 as int) =~= s.subrange(0, d1 as int));
        assert(r1.take(d2 - d1 - 1) =~= s.subrange(d1 + 1, d2 as int));
        assert(r2.take(d3 - d2 - 1) =~= s.subrange(d2 + 1, d3 as int));
        assert(r3.take(colon - d3 - 1) =~= s.subrange(d3 + 1, colon as int));
        assert(split_first(s, '.') == Some((s.take(d1 as int), r1)));
        assert(split_first(r1, '.') == Some((r1.take(d2 - d1 - 1), r2)));
        assert(split_first(r2, '.') == Some((r2.take(d3 - d2 - 1), r3)));
        assert(split_first(r3, ':') == Some((r3.take(colon - d3 - 1), r4)));
    }
    let a = parse_octet(&chars, 0, d1);
    let b = parse_octet(&chars, d1 + 1, d2);
    let c = parse_octet(&chars, d2 + 1, d3);
    let d = parse_octet(&chars, d3 + 1, colon);
    let port = parse_decimal(&chars, colon + 1, n, 65535);
    match (a, b, c, d, port) {
        (Some(a), Some(b), Some(c), Some(d), Some(port)) => Some(
            SocketAddress { ip: Ipv4Address(a, b, c, d), port: port as u16 },
        ),
        _ => None,
    }
}

/// Appends the dotted-quad form of `ip` to `out`.
pub fn push_dotted_quad(out: &mut Vec<char>, ip: Ipv4Address)
    ensures
        final(out)@ == old(out)@ + dotted_quad(ip),
{
    push_decimal(out, ip.0 as u32);
    out.push('.');
    push_decimal(out, ip.1 as u32);
    out.push('.');
    push_decimal(out, ip.2 as u32);
    out.push('.');
    push_decimal(out, ip.3 as u32);
    proof {
        assert(out@ =~= old(out)@ + dotted_quad(ip));
    }
}

/// Appends the text form of `address` to `out`.
pub fn push_socket_address(out: &mut Vec<char>, address: SocketAddress)
    ensures
        final(out)@ == old(out)@ + socket_address_text(address),
{
    push_dotted_quad(out, address.ip);
    out.push(':');
    push_decimal(out, address.port as u32);
    proof {
        assert(out@ =~= old(out)@ + socket_address_text(address));
    }
}

impl Ipv4Address {
    /// The dotted-quad form of this address.
    pub fn to_text(&self) -> (text: String)
        ensures
            text@ == dotted_quad(*self),
    {
        let mut out: Vec<char> = Vec::new();
        push_dotted_quad(&mut out, *self);
        proof {
            assert(out@ =~= dotted_quad(*self));
        }
        string_of(&out)
    }
}

impl SocketAddress {
    /// The text form of this address, `a.b.c.d:port`.
    pub fn to_text(&self) -> (text: String)
        ensures
            text@ == socket_address_text(*self),
    {
        let mut out: Vec<char> = Vec::new();
        push_socket_address(&mut out, *self);
        proof {
            assert(out@ =~= socket_address_text(*self));
        }
        string_of(&out)
    }
}

} // verus!
