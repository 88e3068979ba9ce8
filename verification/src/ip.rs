//! IP addresses as plain integers, with their literal syntax taken from the
//! `domain` crate.

use core::str::FromStr;
use vstd::prelude::*;

verus! {

/// An IPv4 or IPv6 address, held as its big-endian integer value.
#[derive(Clone, Copy, Debug, PartialEq, Eq, Structural)]
pub enum IpAddress {
    V4(u32),
    V6(u128),
}

/// The address that `domain::rdata::A::from_str` reads from `text`, if any.
pub uninterp spec fn ipv4_literal(text: Seq<char>) -> Option<u32>;

/// The address that `domain::rdata::Aaaa::from_str` reads from `text`, if any.
pub uninterp spec fn ipv6_literal(text: Seq<char>) -> Option<u128>;

/// The text that `domain::rdata::A` displays for an address.
pub uninterp spec fn ipv4_text(bits: u32) -> Seq<char>;

/// The text that `domain::rdata::Aaaa` displays for an address.
pub uninterp spec fn ipv6_text(bits: u128) -> Seq<char>;

/// The address a literal denotes: IPv4 syntax is tried first, then IPv6.
pub open spec fn ip_literal(text: Seq<char>) -> Option<IpAddress> {
    match ipv4_literal(text) {
        Some(bits) => Some(IpAddress::V4(bits)),
        None => match ipv6_literal(text) {
            Some(bits) => Some(IpAddress::V6(bits)),
            None => None,
        },
    }
}

/// The textual form of an address.
pub open spec fn ip_text(ip: IpAddress) -> Seq<char> {
    match ip {
        IpAddress::V4(bits) => ipv4_text(bits),
        IpAddress::V6(bits) => ipv6_text(bits),
    }
}

/// Calls `domain::rdata::A::from_str`, which hands the text to the standard
/// IPv4 parser. Trusted: the outcome depends on the text alone, and the
/// integer is the parsed address in network order.
#[verifier::external_body]
fn read_ipv4(text: &str) -> (r: Option<u32>)
    ensures
        r == ipv4_literal(text@),
{
    match domain::rdata::A::from_str(text) {
        Ok(a) => Some(u32::from(a.addr())),
        Err(_) => None,
    }
}

/// Calls `domain::rdata::Aaaa::from_str`, which hands the text to the
/// standard IPv6 parser. Trusted: the outcome depends on the text alone.
#[verifier::external_body]
fn read_ipv6(text: &str) -> (r: Option<u128>)
    ensures
        r == ipv6_literal(text@),
{
    match domain::rdata::Aaaa::from_str(text) {
        Ok(a) => Some(u128::from(a.addr())),
        Err(_) => None,
    }
}

/// Formats through the `Display` impl of `domain::rdata::A`. Trusted: the
/// text depends on the address alone.
#[verifier::external_body]
fn show_ipv4(bits: u32) -> (r: String)
    ensures
        r@ == ipv4_text(bits),
{
    domain::rdata::A::new(bits.into()).to_string()
}

/// Formats through the `Display` impl of `domain::rdata::Aaaa`. Trusted: the
/// text depends on the address alone.
#[verifier::external_body]
fn show_ipv6(bits: u128) -> (r: String)
    ensures
        r@ == ipv6_text(bits),
{
    domain::rdata::Aaaa::new(bits.into()).to_string()
}

impl IpAddress {
    /// Reads an address literal; `None` when the text is no literal.
    pub fn parse(text: &str) -> (r: Option<IpAddress>)
        ensures
            r == ip_literal(text@),
    {
        match read_ipv4(text) {
            Some(bits) => Some(IpAddress::V4(bits)),
            None => match read_ipv6(text) {
                Some(bits) => Some(IpAddress::V6(bits)),
                None => None,
            },
        }
    }

    /// The textual form of the address.
    pub fn to_text(&self) -> (r: String)
        ensures
            r@ == ip_text(*self),
    {
        match *self {
            IpAddress::V4(bits) => show_ipv4(bits),
            IpAddress::V6(bits) => show_ipv6(bits),
        }
    }
}

} // verus!
