//! Client-side connection rules: the opening handshake and what the
//! client does with each packet the server streams.

use vstd::prelude::*;

use crate::event::KvmEvent;
use crate::net::{Packet, PacketView, ScreenInfo, PROTOCOL_VERSION};
use crate::server::spec_opt_str_view;

verus! {

/// The one packet a client opens with: the protocol version, the secret
/// it presents, and the screen it advertises.
pub fn make_handshake(secret: Option<String>, screen_info: Option<ScreenInfo>) -> (p: Packet)
    ensures
        p@ == (PacketView::Handshake {
            version: PROTOCOL_VERSION,
            secret: spec_opt_str_view(secret),
            screen_info: match screen_info {
                Some(si) => Some(si@),
                None => None,
            },
        }),
{
    Packet::Handshake { version: PROTOCOL_VERSION, secret, screen_info }
}

/// What a client does with a received packet: events are injected into
/// the local OS, every other packet kind is ignored.
pub fn event_of_packet(p: &Packet) -> (r: Option<KvmEvent>)
    ensures
        (p@ matches PacketView::Event(e) ==> r == Some(e)),
        !(p@ matches PacketView::Event(_)) ==> r is None,
{
    match p {
        Packet::Event(e) => Some(*e),
        _ => None,
    }
}

/// Wraps one routed event for the wire.
pub fn event_packet(e: KvmEvent) -> (p: Packet)
    ensures
        p@ == PacketView::Event(e),
{
    Packet::Event(e)
}

} // verus!
