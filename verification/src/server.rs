//! The server's side of the wire: the port it listens on and the filler
//! bytes it streams until it is shut down.

use crate::text::{chars_of, decimal_value, is_numeral_up_to, parse_decimal};
use vstd::prelude::*;

verus! {

/// The port on which a server listens unless told otherwise.
pub const DEFAULT_PORT: u16 = 30000;

/// Bytes in one chunk of the stream: 64 KiB.
pub const CHUNK_BYTES: usize = 65536;

/// Largest request body, in bytes, that the server accepts: 64 KiB.
pub const REQUEST_BODY_LIMIT: u64 = 65536;

/// The digits of a port's text: the text without a leading `+`.
pub open spec fn unsigned_digits(s: Seq<char>) -> Seq<char> {
    if s.len() > 0 && s[0] == '+' {
        s.skip(1)
    } else {
        s
    }
}

/// The port that `s` denotes: an optional `+`, then one or more digits that
/// make a number of at most 65535.
pub open spec fn port_number_of(s: Seq<char>) -> Option<u16> {
    let digits = unsigned_digits(s);
    if is_numeral_up_to(digits, 65535) {
        Some(decimal_value(digits) as u16)
    } else {
        None
    }
}

/// The port that a server given the argument `argument` listens on: the
/// default without an argument, else what the argument denotes, if anything.
pub open spec fn listening_port_of(argument: Option<Seq<char>>) -> Option<u16> {
    match argument {
        None => Some(DEFAULT_PORT),
        Some(text) => port_number_of(text),
    }
}

/// The characters of the argument, if there is one.
pub open spec fn argument_text(argument: Option<&str>) -> Option<Seq<char>> {
    match argument {
        Some(text) => Some(text@),
        None => None,
    }
}

/// Reads `text` as a port number.
pub fn parse_port(text: &str) -> (port: Option<u16>)
    ensures
        port == port_number_of(text@),
{
    let chars = chars_of(text);
    let start: usize = if chars.len() > 0 && chars[0] == '+' {
        1
    } else {
        0
    };
    proof {
        assert(unsigned_digits(text@) =~= chars@.subrange(start as int, chars.len() as int));
    }
    match parse_decimal(&chars, start, chars.len(), 65535) {
        Some(value) => Some(value as u16),
        None => None,
    }
}

/// The port to listen on: the default when no argument was given, else the
/// number that the argument denotes; `None` when it denotes none.
pub fn listening_port(argument: Option<&str>) -> (port: Option<u16>)
    ensures
        port == listening_port_of(argument_text(argument)),
{
    match argument {
        None => Some(DEFAULT_PORT),
        Some(text) => parse_port(text),
    }
}

/// One chunk of filler: `CHUNK_BYTES` zero bytes.
pub fn filler_chunk() -> (chunk: Vec<u8>)
    ensures
        chunk@ == Seq::new(CHUNK_BYTES as nat, |i: int| 0u8),
{
    let mut chunk: Vec<u8> = Vec::with_capacity(CHUNK_BYTES);
    let mut i: usize = 0;
    while i < CHUNK_BYTES
        invariant
            i <= CHUNK_BYTES,
            chunk@ == Seq::new(i as nat, |j: int| 0u8),
        decreases CHUNK_BYTES - i,
    {
        chunk.push(0);
        i = i + 1;
        proof {
            assert(chunk@ =~= Seq::new(i as nat, |j: int| 0u8));
        }
    }
    chunk
}

/// The next item of the stream: none once shutdown has been requested, else
/// one more chunk of filler.
pub fn next_chunk(shutdown_requested: bool) -> (item: Option<Vec<u8>>)
    ensures
        shutdown_requested <==> item is None,
        item matches Some(chunk) ==> chunk@ == Seq::new(CHUNK_BYTES as nat, |i: int| 0u8),
{
    if shutdown_requested {
        None
    } else {
        Some(filler_chunk())
    }
}

} // verus!
