//! Reduction of decoded address-resolution fields to typed events.
//!
//! Frame and packet decoding proper happens outside the library; what arrives
//! here are the plain fields of an ARP packet — the operation code, the
//! sender's hardware address, and the sender's protocol address — and what
//! leaves is the typed event in its textual form.

use vstd::prelude::*;

use crate::models::{NetworkEvent, NetworkEventView};
use crate::text::{mac_label, mac_string, push_char};

verus! {

/// The decimal digit of a value below ten.
pub open spec fn dec_digit(n: u8) -> char
    recommends
        n < 10,
{
    (('0' as u8) + n) as char
}

/// The decimal rendering of one byte, without leading zeros.
pub open spec fn u8_decimal(n: u8) -> Seq<char> {
    if n < 10 {
        seq![dec_digit(n)]
    } else if n < 100 {
        seq![dec_digit(n / 10), dec_digit(n % 10)]
    } else {
        seq![dec_digit(n / 100), dec_digit((n / 10) % 10), dec_digit(n % 10)]
    }
}

/// The dotted-quad rendering of an IPv4 address.
pub open spec fn ipv4_label(b: Seq<u8>) -> Seq<char>
    recommends
        b.len() == 4,
{
    u8_decimal(b[0]) + seq!['.'] + u8_decimal(b[1]) + seq!['.'] + u8_decimal(b[2]) + seq!['.']
        + u8_decimal(b[3])
}

fn push_u8_decimal(s: &mut String, n: u8)
    ensures
        final(s)@ == old(s)@ + u8_decimal(n),
{
    if n >= 100 {
        push_char(s, (('0' as u8) + n / 100) as char);
    }
    if n >= 10 {
        push_char(s, (('0' as u8) + (n / 10) % 10) as char);
    }
    push_char(s, (('0' as u8) + n % 10) as char);
    assert(s@ =~= old(s)@ + u8_decimal(n));
}

/// Renders an IPv4 address as a dotted quad.
pub fn ipv4_string(b: &[u8; 4]) -> (r: String)
    ensures
        r@ == ipv4_label(b@),
{
    let mut s = String::new();
    push_u8_decimal(&mut s, b[0]);
    push_char(&mut s, '.');
    push_u8_decimal(&mut s, b[1]);
    push_char(&mut s, '.');
    push_u8_decimal(&mut s, b[2]);
    push_char(&mut s, '.');
    push_u8_decimal(&mut s, b[3]);
    assert(s@ =~= ipv4_label(b@));
    s
}

/// The typed event of one decoded ARP packet: a request or a reply carrying
/// the sender's addresses, and nothing for any other operation code.
pub fn arp_event(operation: u16, sender_mac: &[u8; 6], sender_ip: &[u8; 4]) -> (r: Option<
    NetworkEvent,
>)
    ensures
        operation == 1 ==> (r matches Some(e) && e@ == (NetworkEventView::ArpRequest {
            source_mac: mac_label(sender_mac@),
            source_ip: ipv4_label(sender_ip@),
        })),
        operation == 2 ==> (r matches Some(e) && e@ == (NetworkEventView::ArpReply {
            source_mac: mac_label(sender_mac@),
            source_ip: ipv4_label(sender_ip@),
        })),
        operation != 1 && operation != 2 ==> r is None,
{
    if operation == 1 {
        Some(
            NetworkEvent::ArpRequest {
                source_mac: mac_string(sender_mac),
                source_ip: ipv4_string(sender_ip),
            },
        )
    } else if operation == 2 {
        Some(
            NetworkEvent::ArpReply {
                source_mac: mac_string(sender_mac),
                source_ip: ipv4_string(sender_ip),
            },
        )
    } else {
        None
    }
}

} // verus!
