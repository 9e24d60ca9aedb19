//! Server-side connection rules: what the first packet of a connection
//! must look like before the client is admitted.

use vstd::prelude::*;

use crate::net::{Packet, PacketView, ScreenInfo, PROTOCOL_VERSION};

verus! {

/// Why a connection attempt was turned away.
#[derive(Clone, Copy, Debug, PartialEq, Eq, Structural)]
pub enum HandshakeError {
    /// The first packet was not a handshake.
    NotHandshake,
    /// The client speaks another protocol version.
    VersionMismatch,
    /// The server requires a shared secret and the client did not
    /// present it.
    SecretMismatch,
}

/// The mathematical image of an optional string.
pub open spec fn spec_opt_str_view(o: Option<String>) -> Option<Seq<char>> {
    match o {
        Some(s) => Some(s@),
        None => None,
    }
}

/// The secret rule: a server without a secret admits anyone; one with a
/// secret admits exactly the clients that present the same secret.
pub open spec fn spec_secret_ok(expected: Option<Seq<char>>, presented: Option<Seq<char>>) -> bool {
    match expected {
        None => true,
        Some(e) => match presented {
            Some(p) => p == e,
            None => false,
        },
    }
}

/// With a secret configured, admission is exactly presenting that
/// secret: no other presentation passes.
pub proof fn lemma_secret_required(e: Seq<char>, presented: Option<Seq<char>>)
    ensures
        spec_secret_ok(Some(e), presented) <==> presented == Some(e),
{
}

/// Judges the first packet of a connection: admits it exactly when it is
/// a handshake with the server's protocol version whose secret satisfies
/// the secret rule, and hands back the screen the client advertised.
/// Each refusal names the first rule the packet broke, in the order:
/// packet kind, version, secret.
pub fn validate_handshake<'a>(expected_secret: &Option<String>, p: &'a Packet) -> (r: Result<
    Option<&'a ScreenInfo>,
    HandshakeError,
>)
    ensures
        (p@ matches PacketView::Handshake { version, secret, screen_info } ==> ({
            &&& version != PROTOCOL_VERSION ==> r == Err::<
                Option<&'a ScreenInfo>,
                HandshakeError,
            >(HandshakeError::VersionMismatch)
            &&& version == PROTOCOL_VERSION && !spec_secret_ok(
                spec_opt_str_view(*expected_secret),
                secret,
            ) ==> r == Err::<Option<&'a ScreenInfo>, HandshakeError>(HandshakeError::SecretMismatch)
            &&& version == PROTOCOL_VERSION && spec_secret_ok(
                spec_opt_str_view(*expected_secret),
                secret,
            ) ==> (r matches Ok(osi) && (match osi {
                Some(si) => screen_info matches Some(v) && si@ == v,
                None => screen_info is None,
            }))
        })),
        !(p@ matches PacketView::Handshake { .. }) ==> r == Err::<
            Option<&'a ScreenInfo>,
            HandshakeError,
        >(HandshakeError::NotHandshake),
{
    match p {
        Packet::Handshake { version, secret, screen_info } => {
            if *version != PROTOCOL_VERSION {
                return Err(HandshakeError::VersionMismatch);
            }
            let ok = match expected_secret {
                None => true,
                Some(e) => match secret {
                    Some(pr) => *pr == *e,
                    None => false,
                },
            };
            if !ok {
                return Err(HandshakeError::SecretMismatch);
            }
            match screen_info {
                Some(si) => Ok(Some(si)),
                None => Ok(None),
            }
        },
        _ => Err(HandshakeError::NotHandshake),
    }
}

} // verus!
