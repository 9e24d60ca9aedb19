//! The wire protocol: packets, their binary form, and length-prefixed
//! framing over a reliable byte stream.
//!
//! Each frame is a four-byte big-endian payload length, capped at
//! [`MAX_FRAME_SIZE`], followed by the payload: one encoded [`Packet`].

use vstd::prelude::*;

use crate::codec::{
    dec_event_at, dec_i32_at, dec_opt_str_at, dec_str_at, dec_u32_at, enc_event_into,
    enc_i32_into, enc_opt_str_into, enc_str_into, enc_u32_into,
};
use crate::codec::{
    lemma_dec_enc_event, lemma_dec_enc_i32, lemma_dec_enc_opt_str, lemma_dec_enc_str,
    lemma_dec_enc_u32, lemma_window,
};
use crate::codec::{
    spec_dec_event, spec_dec_i32, spec_dec_opt_str, spec_dec_str, spec_dec_u32, spec_enc_event,
    spec_enc_i32, spec_enc_opt_str, spec_enc_str, spec_enc_u32,
};
use crate::event::KvmEvent;

verus! {

use vstd::utf8::encode_utf8;

/// Protocol version carried in every handshake.
pub const PROTOCOL_VERSION: u32 = 1;

/// Largest frame payload the protocol allows, in bytes (one mebibyte).
pub const MAX_FRAME_SIZE: u32 = 1048576;

/// Why a frame or a payload was refused.
#[derive(Clone, Copy, Debug, PartialEq, Eq, Structural)]
pub enum CodecError {
    /// The frame header announced a payload longer than [`MAX_FRAME_SIZE`].
    FrameTooLarge,
    /// The payload bytes do not spell a packet.
    Malformed,
}

/// A screen a client advertises during the handshake: its size, its
/// position, and the client's name.
#[derive(Clone, Debug, PartialEq)]
pub struct ScreenInfo {
    pub width: u32,
    pub height: u32,
    pub x: i32,
    pub y: i32,
    pub name: String,
}

/// The mathematical image of a [`ScreenInfo`]: the same fields with the
/// name as a character sequence.
pub struct ScreenInfoView {
    pub width: u32,
    pub height: u32,
    pub x: i32,
    pub y: i32,
    pub name: Seq<char>,
}

impl View for ScreenInfo {
    type V = ScreenInfoView;

    open spec fn view(&self) -> ScreenInfoView {
        ScreenInfoView {
            width: self.width,
            height: self.height,
            x: self.x,
            y: self.y,
            name: self.name@,
        }
    }
}

/// One unit of the wire protocol. A client opens with exactly one
/// `Handshake`; the server then streams `Event`s; `Heartbeat` is reserved.
#[derive(Clone, Debug, PartialEq)]
pub enum Packet {
    Handshake { version: u32, secret: Option<String>, screen_info: Option<ScreenInfo> },
    Event(KvmEvent),
    Heartbeat,
}

/// The mathematical image of a [`Packet`].
pub enum PacketView {
    Handshake { version: u32, secret: Option<Seq<char>>, screen_info: Option<ScreenInfoView> },
    Event(KvmEvent),
    Heartbeat,
}

impl View for Packet {
    type V = PacketView;

    open spec fn view(&self) -> PacketView {
        match *self {
            Packet::Handshake { version, secret, screen_info } => PacketView::Handshake {
                version,
                secret: match secret {
                    Some(s) => Some(s@),
                    None => None,
                },
                screen_info: match screen_info {
                    Some(si) => Some(si@),
                    None => None,
                },
            },
            Packet::Event(e) => PacketView::Event(e),
            Packet::Heartbeat => PacketView::Heartbeat,
        }
    }
}

// ---------------------------------------------------------------------
// Wire form of screen descriptions.
// ---------------------------------------------------------------------

/// The wire form of a screen description.
pub open spec fn spec_enc_screen_info(si: ScreenInfoView) -> Seq<u8> {
    spec_enc_u32(si.width) + spec_enc_u32(si.height) + spec_enc_i32(si.x) + spec_enc_i32(si.y)
        + spec_enc_str(si.name)
}

/// Reads a screen description at `i`.
pub open spec fn spec_dec_screen_info(s: Seq<u8>, i: int) -> Option<(ScreenInfoView, int)> {
    match spec_dec_u32(s, i) {
        Some((width, j1)) => match spec_dec_u32(s, j1) {
            Some((height, j2)) => match spec_dec_i32(s, j2) {
                Some((x, j3)) => match spec_dec_i32(s, j3) {
                    Some((y, j4)) => match spec_dec_str(s, j4) {
                        Some((name, j5)) => Some(
                            (ScreenInfoView { width, height, x, y, name }, j5),
                        ),
                        None => None,
                    },
                    None => None,
                },
                None => None,
            },
            None => None,
        },
        None => None,
    }
}

/// True when the name's UTF-8 form fits the 64-bit length field; every
/// string held in memory satisfies this.
pub open spec fn screen_info_encodable(si: ScreenInfoView) -> bool {
    encode_utf8(si.name).len() < 0x1_0000_0000_0000_0000
}

/// Reading a screen description where an encoding of `si` was written
/// yields `si`.
pub proof fn lemma_dec_enc_screen_info(s: Seq<u8>, i: int, si: ScreenInfoView)
    requires
        0 <= i,
        screen_info_encodable(si),
        i + spec_enc_screen_info(si).len() <= s.len(),
        s.subrange(i, i + spec_enc_screen_info(si).len()) == spec_enc_screen_info(si),
    ensures
        spec_dec_screen_info(s, i) == Some((si, i + spec_enc_screen_info(si).len())),
{
    let enc = spec_enc_screen_info(si);
    let len = enc.len() as int;
    lemma_window(s, i, enc, 0, 4);
    assert(enc.subrange(0, 4) =~= spec_enc_u32(si.width));
    lemma_dec_enc_u32(s, i, si.width);
    lemma_window(s, i, enc, 4, 8);
    assert(enc.subrange(4, 8) =~= spec_enc_u32(si.height));
    lemma_dec_enc_u32(s, i + 4, si.height);
    lemma_window(s, i, enc, 8, 12);
    assert(enc.subrange(8, 12) =~= spec_enc_i32(si.x));
    lemma_dec_enc_i32(s, i + 8, si.x);
    lemma_window(s, i, enc, 12, 16);
    assert(enc.subrange(12, 16) =~= spec_enc_i32(si.y));
    lemma_dec_enc_i32(s, i + 12, si.y);
    lemma_window(s, i, enc, 16, len);
    assert(enc.subrange(16, len) =~= spec_enc_str(si.name));
    lemma_dec_enc_str(s, i + 16, si.name);
}

/// Appends the wire form of `si`.
pub fn enc_screen_info_into(out: &mut Vec<u8>, si: &ScreenInfo)
    ensures
        final(out)@ == old(out)@ + spec_enc_screen_info(si@),
{
    enc_u32_into(out, si.width);
    enc_u32_into(out, si.height);
    enc_i32_into(out, si.x);
    enc_i32_into(out, si.y);
    enc_str_into(out, &si.name);
    proof {
        assert(out@ =~= old(out)@ + spec_enc_screen_info(si@));
    }
}

/// Reads a screen description at `i`.
pub fn dec_screen_info_at(b: &[u8], i: usize) -> (r: Option<(ScreenInfo, usize)>)
    ensures
        r matches Some((si, j)) ==> (spec_dec_screen_info(b@, i as int) matches Some((v, j2))
            && si@ == v && j as int == j2),
        r is None ==> spec_dec_screen_info(b@, i as int) is None,
{
    match dec_u32_at(b, i) {
        Some((width, j1)) => match dec_u32_at(b, j1) {
            Some((height, j2)) => match dec_i32_at(b, j2) {
                Some((x, j3)) => match dec_i32_at(b, j3) {
                    Some((y, j4)) => match dec_str_at(b, j4) {
                        Some((name, j5)) => Some((ScreenInfo { width, height, x, y, name }, j5)),
                        None => None,
                    },
                    None => None,
                },
                None => None,
            },
            None => None,
        },
        None => None,
    }
}

// ---------------------------------------------------------------------
// Wire form of optional screen descriptions: a presence byte first.
// ---------------------------------------------------------------------

/// The wire form of an optional screen description.
pub open spec fn spec_enc_opt_screen_info(o: Option<ScreenInfoView>) -> Seq<u8> {
    match o {
        None => seq![0u8],
        Some(si) => seq![1u8] + spec_enc_screen_info(si),
    }
}

/// Reads an optional screen description at `i`; a presence byte other
/// than `0` or `1` is malformed.
pub open spec fn spec_dec_opt_screen_info(s: Seq<u8>, i: int) -> Option<
    (Option<ScreenInfoView>, int),
> {
    if 0 <= i && i + 1 <= s.len() {
        if s[i] == 0u8 {
            Some((None, i + 1))
        } else if s[i] == 1u8 {
            match spec_dec_screen_info(s, i + 1) {
                Some((si, j)) => Some((Some(si), j)),
                None => None,
            }
        } else {
            None
        }
    } else {
        None
    }
}

/// Reading an optional screen description where an encoding of `o` was
/// written yields `o`.
pub proof fn lemma_dec_enc_opt_screen_info(s: Seq<u8>, i: int, o: Option<ScreenInfoView>)
    requires
        0 <= i,
        (o matches Some(si) ==> screen_info_encodable(si)),
        i + spec_enc_opt_screen_info(o).len() <= s.len(),
        s.subrange(i, i + spec_enc_opt_screen_info(o).len()) == spec_enc_opt_screen_info(o),
    ensures
        spec_dec_opt_screen_info(s, i) == Some((o, i + spec_enc_opt_screen_info(o).len())),
{
    let enc = spec_enc_opt_screen_info(o);
    let len = enc.len() as int;
    assert(s.subrange(i, i + len)[0] == s[i]);
    match o {
        None => {
            assert(s[i] == 0u8);
        },
        Some(si) => {
            assert(enc[0] == 1u8);
            assert(s[i] == 1u8);
            lemma_window(s, i, enc, 1, len);
            assert(enc.subrange(1, len) =~= spec_enc_screen_info(si));
            lemma_dec_enc_screen_info(s, i + 1, si);
        },
    }
}

/// Appends the wire form of `o`.
pub fn enc_opt_screen_info_into(out: &mut Vec<u8>, o: &Option<ScreenInfo>)
    ensures
        final(out)@ == old(out)@ + spec_enc_opt_screen_info(match *o {
            Some(si) => Some(si@),
            None => None,
        }),
{
    match o {
        None => {
            out.push(0u8);
            proof {
                assert(out@ =~= old(out)@ + spec_enc_opt_screen_info(None));
            }
        },
        Some(si) => {
            out.push(1u8);
            enc_screen_info_into(out, si);
            proof {
                assert(out@ =~= old(out)@ + spec_enc_opt_screen_info(Some(si@)));
            }
        },
    }
}

/// Reads an optional screen description at `i`.
pub fn dec_opt_screen_info_at(b: &[u8], i: usize) -> (r: Option<(Option<ScreenInfo>, usize)>)
    ensures
        r matches Some((o, j)) ==> (spec_dec_opt_screen_info(b@, i as int) matches Some((ov, j2))
            && (match o {
            Some(si) => ov matches Some(v) && si@ == v,
            None => ov is None,
        }) && j as int == j2),
        r is None ==> spec_dec_opt_screen_info(b@, i as int) is None,
{
    if i < b.len() {
        if b[i] == 0 {
            Some((None, i + 1))
        } else if b[i] == 1 {
            match dec_screen_info_at(b, i + 1) {
                Some((si, j)) => Some((Some(si), j)),
                None => None,
            }
        } else {
            None
        }
    } else {
        None
    }
}

// ---------------------------------------------------------------------
// Wire form of packets: a tag byte, then the fields of the variant.
// ---------------------------------------------------------------------

/// The wire form of a packet.
pub open spec fn spec_enc_packet(p: PacketView) -> Seq<u8> {
    match p {
        PacketView::Handshake { version, secret, screen_info } => seq![0u8] + spec_enc_u32(version)
            + spec_enc_opt_str(secret) + spec_enc_opt_screen_info(screen_info),
        PacketView::Event(e) => seq![1u8] + spec_enc_event(e),
        PacketView::Heartbeat => seq![2u8],
    }
}

/// Reads a packet at `i`; tags above `2` are malformed.
pub open spec fn spec_dec_packet(s: Seq<u8>, i: int) -> Option<(PacketView, int)> {
    if 0 <= i && i + 1 <= s.len() {
        if s[i] == 0u8 {
            match spec_dec_u32(s, i + 1) {
                Some((version, j1)) => match spec_dec_opt_str(s, j1) {
                    Some((secret, j2)) => match spec_dec_opt_screen_info(s, j2) {
                        Some((screen_info, j3)) => Some(
                            (PacketView::Handshake { version, secret, screen_info }, j3),
                        ),
                        None => None,
                    },
                    None => None,
                },
                None => None,
            }
        } else if s[i] == 1u8 {
            match spec_dec_event(s, i + 1) {
                Some((e, j)) => Some((PacketView::Event(e), j)),
                None => None,
            }
        } else if s[i] == 2u8 {
            Some((PacketView::Heartbeat, i + 1))
        } else {
            None
        }
    } else {
        None
    }
}

/// True when every string in the packet fits its 64-bit length field;
/// every packet held in memory satisfies this.
pub open spec fn packet_encodable(p: PacketView) -> bool {
    match p {
        PacketView::Handshake { version, secret, screen_info } => {
            &&& (secret matches Some(cs) ==> encode_utf8(cs).len() < 0x1_0000_0000_0000_0000)
            &&& (screen_info matches Some(si) ==> screen_info_encodable(si))
        },
        _ => true,
    }
}

/// Reading a packet where an encoding of `p` was written yields `p`.
pub proof fn lemma_dec_enc_packet(s: Seq<u8>, i: int, p: PacketView)
    requires
        0 <= i,
        packet_encodable(p),
        i + spec_enc_packet(p).len() <= s.len(),
        s.subrange(i, i + spec_enc_packet(p).len()) == spec_enc_packet(p),
    ensures
        spec_dec_packet(s, i) == Some((p, i + spec_enc_packet(p).len())),
{
    let enc = spec_enc_packet(p);
    let len = enc.len() as int;
    assert(s.subrange(i, i + len)[0] == s[i]);
    match p {
        PacketView::Handshake { version, secret, screen_info } => {
            assert(enc[0] == 0u8);
            assert(s[i] == 0u8);
            let slen = spec_enc_opt_str(secret).len() as int;
            lemma_window(s, i, enc, 1, 5);
            assert(enc.subrange(1, 5) =~= spec_enc_u32(version));
            lemma_dec_enc_u32(s, i + 1, version);
            lemma_window(s, i, enc, 5, 5 + slen);
            assert(enc.subrange(5, 5 + slen) =~= spec_enc_opt_str(secret));
            lemma_dec_enc_opt_str(s, i + 5, secret);
            lemma_window(s, i, enc, 5 + slen, len);
            assert(enc.subrange(5 + slen, len) =~= spec_enc_opt_screen_info(screen_info));
            lemma_dec_enc_opt_screen_info(s, i + 5 + slen, screen_info);
        },
        PacketView::Event(e) => {
            assert(enc[0] == 1u8);
            assert(s[i] == 1u8);
            lemma_window(s, i, enc, 1, len);
            assert(enc.subrange(1, len) =~= spec_enc_event(e));
            lemma_dec_enc_event(s, i + 1, e);
        },
        PacketView::Heartbeat => {
            assert(s[i] == 2u8);
        },
    }
}

/// The packet a byte string spells, when it spells exactly one: the
/// decoder must consume every byte of the payload.
pub open spec fn spec_packet_of_bytes(s: Seq<u8>) -> Option<PacketView> {
    match spec_dec_packet(s, 0) {
        Some((p, j)) => if j == s.len() {
            Some(p)
        } else {
            None
        },
        None => None,
    }
}

/// Decoding an encoding gives the packet back: the codec round-trips on
/// every packet.
pub proof fn lemma_packet_round_trip(p: PacketView)
    requires
        packet_encodable(p),
    ensures
        spec_packet_of_bytes(spec_enc_packet(p)) == Some(p),
{
    let s = spec_enc_packet(p);
    assert(s.subrange(0, s.len() as int) =~= s);
    lemma_dec_enc_packet(s, 0, p);
}

/// Encodes `p` into its wire form.
pub fn encode_packet(p: &Packet) -> (r: Vec<u8>)
    ensures
        r@ == spec_enc_packet(p@),
{
    let mut out: Vec<u8> = Vec::new();
    match p {
        Packet::Handshake { version, secret, screen_info } => {
            out.push(0u8);
            enc_u32_into(&mut out, *version);
            enc_opt_str_into(&mut out, secret);
            enc_opt_screen_info_into(&mut out, screen_info);
        },
        Packet::Event(e) => {
            out.push(1u8);
            enc_event_into(&mut out, e);
        },
        Packet::Heartbeat => {
            out.push(2u8);
        },
    }
    proof {
        assert(out@ =~= spec_enc_packet(p@));
    }
    out
}

/// Decodes one packet from a whole payload; payloads with trailing bytes,
/// an unknown tag or malformed fields are refused as malformed.
pub fn decode_packet(b: &[u8]) -> (r: Result<Packet, CodecError>)
    ensures
        r matches Ok(p) ==> (spec_packet_of_bytes(b@) matches Some(pv) && p@ == pv),
        r matches Err(e) ==> e == CodecError::Malformed && spec_packet_of_bytes(b@) is None,
{
    let parsed: Option<(Packet, usize)> = if b.len() >= 1 {
        if b[0] == 0 {
            match dec_u32_at(b, 1) {
                Some((version, j1)) => match dec_opt_str_at(b, j1) {
                    Some((secret, j2)) => match dec_opt_screen_info_at(b, j2) {
                        Some((screen_info, j3)) => Some(
                            (Packet::Handshake { version, secret, screen_info }, j3),
                        ),
                        None => None,
                    },
                    None => None,
                },
                None => None,
            }
        } else if b[0] == 1 {
            match dec_event_at(b, 1) {
                Some((e, j)) => Some((Packet::Event(e), j)),
                None => None,
            }
        } else if b[0] == 2 {
            Some((Packet::Heartbeat, 1))
        } else {
            None
        }
    } else {
        None
    };
    match parsed {
        Some((p, j)) => {
            if j == b.len() {
                Ok(p)
            } else {
                Err(CodecError::Malformed)
            }
        },
        None => Err(CodecError::Malformed),
    }
}

// ---------------------------------------------------------------------
// Framing.
// ---------------------------------------------------------------------

/// Reads the four-byte big-endian frame header: the payload length that
/// follows. Lengths above [`MAX_FRAME_SIZE`] are refused before any
/// payload byte is touched.
pub fn parse_frame_len(b: &[u8]) -> (r: Result<u32, CodecError>)
    requires
        b@.len() == 4,
    ensures
        match r {
            Ok(v) => spec_dec_u32(b@, 0) == Some((v, 4int)) && v <= MAX_FRAME_SIZE,
            Err(e) => e == CodecError::FrameTooLarge && (spec_dec_u32(b@, 0) matches Some((v, j))
                && v > MAX_FRAME_SIZE),
        },
{
    match dec_u32_at(b, 0) {
        Some((v, _j)) => {
            if v > MAX_FRAME_SIZE {
                Err(CodecError::FrameTooLarge)
            } else {
                Ok(v)
            }
        },
        None => {
            proof {
                assert(false);
            }
            Err(CodecError::FrameTooLarge)
        },
    }
}

/// Builds a whole frame: the payload length as four big-endian bytes,
/// then the encoded packet. A packet whose encoding would exceed
/// [`MAX_FRAME_SIZE`] is refused, so every frame written passes the
/// reader's length check.
pub fn encode_frame(p: &Packet) -> (r: Result<Vec<u8>, CodecError>)
    ensures
        match r {
            Ok(v) => spec_enc_packet(p@).len() <= MAX_FRAME_SIZE && v@ == spec_enc_u32(
                spec_enc_packet(p@).len() as u32,
            ) + spec_enc_packet(p@),
            Err(e) => e == CodecError::FrameTooLarge && spec_enc_packet(p@).len()
                > MAX_FRAME_SIZE,
        },
{
    let mut payload = encode_packet(p);
    if payload.len() > MAX_FRAME_SIZE as usize {
        Err(CodecError::FrameTooLarge)
    } else {
        let mut out: Vec<u8> = Vec::new();
        enc_u32_into(&mut out, payload.len() as u32);
        out.append(&mut payload);
        Ok(out)
    }
}

} // verus!
