//! Service discovery: the server's periodic announcement, its wire form,
//! and the client-side filter that keeps only announcements from private
//! sources, one per source address.

use vstd::prelude::*;

use crate::codec::{
    dec_str_at, dec_u16_at, dec_u32_at, enc_str_into, enc_u16_into, enc_u32_into,
    lemma_dec_enc_str, lemma_dec_enc_u16, lemma_dec_enc_u32, lemma_window, spec_dec_str,
    spec_dec_u16, spec_dec_u32, spec_enc_str, spec_enc_u16, spec_enc_u32,
};

verus! {

use vstd::utf8::encode_utf8;

/// What the server broadcasts: its display name, the TCP port it serves
/// on, and the protocol version.
#[derive(Clone, Debug, PartialEq)]
pub struct ServerAnnouncement {
    pub name: String,
    pub port: u16,
    pub version: u32,
}

/// The mathematical image of a [`ServerAnnouncement`].
pub struct ServerAnnouncementView {
    pub name: Seq<char>,
    pub port: u16,
    pub version: u32,
}

impl View for ServerAnnouncement {
    type V = ServerAnnouncementView;

    open spec fn view(&self) -> ServerAnnouncementView {
        ServerAnnouncementView { name: self.name@, port: self.port, version: self.version }
    }
}

// ---------------------------------------------------------------------
// Wire form of announcements.
// ---------------------------------------------------------------------

/// The wire form of an announcement.
pub open spec fn spec_enc_announcement(a: ServerAnnouncementView) -> Seq<u8> {
    spec_enc_str(a.name) + spec_enc_u16(a.port) + spec_enc_u32(a.version)
}

/// Reads an announcement at `i`.
pub open spec fn spec_dec_announcement(s: Seq<u8>, i: int) -> Option<(ServerAnnouncementView, int)> {
    match spec_dec_str(s, i) {
        Some((name, j1)) => match spec_dec_u16(s, j1) {
            Some((port, j2)) => match spec_dec_u32(s, j2) {
                Some((version, j3)) => Some((ServerAnnouncementView { name, port, version }, j3)),
                None => None,
            },
            None => None,
        },
        None => None,
    }
}

/// True when the name's UTF-8 form fits the 64-bit length field; every
/// string held in memory satisfies this.
pub open spec fn announcement_encodable(a: ServerAnnouncementView) -> bool {
    encode_utf8(a.name).len() < 0x1_0000_0000_0000_0000
}

/// Reading an announcement where an encoding of `a` was written yields
/// `a`.
pub proof fn lemma_dec_enc_announcement(s: Seq<u8>, i: int, a: ServerAnnouncementView)
    requires
        0 <= i,
        announcement_encodable(a),
        i + spec_enc_announcement(a).len() <= s.len(),
        s.subrange(i, i + spec_enc_announcement(a).len()) == spec_enc_announcement(a),
    ensures
        spec_dec_announcement(s, i) == Some((a, i + spec_enc_announcement(a).len())),
{
    let enc = spec_enc_announcement(a);
    let len = enc.len() as int;
    let nlen = spec_enc_str(a.name).len() as int;
    lemma_window(s, i, enc, 0, nlen);
    assert(enc.subrange(0, nlen) =~= spec_enc_str(a.name));
    lemma_dec_enc_str(s, i, a.name);
    lemma_window(s, i, enc, nlen, nlen + 2);
    assert(enc.subrange(nlen, nlen + 2) =~= spec_enc_u16(a.port));
    lemma_dec_enc_u16(s, i + nlen, a.port);
    lemma_window(s, i, enc, nlen + 2, len);
    assert(enc.subrange(nlen + 2, len) =~= spec_enc_u32(a.version));
    lemma_dec_enc_u32(s, i + nlen + 2, a.version);
}

/// The announcement a datagram spells, when it spells exactly one.
pub open spec fn spec_announcement_of_bytes(s: Seq<u8>) -> Option<ServerAnnouncementView> {
    match spec_dec_announcement(s, 0) {
        Some((a, j)) => if j == s.len() {
            Some(a)
        } else {
            None
        },
        None => None,
    }
}

/// Decoding an encoding gives the announcement back.
pub proof fn lemma_announcement_round_trip(a: ServerAnnouncementView)
    requires
        announcement_encodable(a),
    ensures
        spec_announcement_of_bytes(spec_enc_announcement(a)) == Some(a),
{
    let s = spec_enc_announcement(a);
    assert(s.subrange(0, s.len() as int) =~= s);
    lemma_dec_enc_announcement(s, 0, a);
}

/// Encodes `a` into its wire form.
pub fn encode_announcement(a: &ServerAnnouncement) -> (r: Vec<u8>)
    ensures
        r@ == spec_enc_announcement(a@),
{
    let mut out: Vec<u8> = Vec::new();
    enc_str_into(&mut out, &a.name);
    enc_u16_into(&mut out, a.port);
    enc_u32_into(&mut out, a.version);
    proof {
        assert(out@ =~= spec_enc_announcement(a@));
    }
    out
}

/// Decodes one announcement from a whole datagram; datagrams with
/// trailing bytes or malformed fields are refused.
pub fn decode_announcement(b: &[u8]) -> (r: Option<ServerAnnouncement>)
    ensures
        r matches Some(a) ==> (spec_announcement_of_bytes(b@) matches Some(av) && a@ == av),
        r is None ==> spec_announcement_of_bytes(b@) is None,
{
    match dec_str_at(b, 0) {
        Some((name, j1)) => match dec_u16_at(b, j1) {
            Some((port, j2)) => match dec_u32_at(b, j2) {
                Some((version, j3)) => {
                    if j3 == b.len() {
                        Some(ServerAnnouncement { name, port, version })
                    } else {
                        None
                    }
                },
                None => None,
            },
            None => None,
        },
        None => None,
    }
}

// ---------------------------------------------------------------------
// The client-side filter.
// ---------------------------------------------------------------------

/// The source address of a datagram, reduced to what the filter reads:
/// the four octets of a version-4 address, or a version-6 source, which
/// the filter never accepts.
#[derive(Clone, Copy, Debug, PartialEq, Eq, Structural)]
pub enum SourceIp {
    V4(u8, u8, u8, u8),
    V6,
}

/// True for sources on the local network: the private ranges
/// `10/8`, `172.16/12` and `192.168/16`, and loopback `127/8`.
pub open spec fn spec_is_local_network(ip: SourceIp) -> bool {
    match ip {
        SourceIp::V4(a, b, _c, _d) => (a == 192 && b == 168) || a == 10 || (a == 172 && 16 <= b
            <= 31) || a == 127,
        SourceIp::V6 => false,
    }
}

/// True for sources on the local network.
pub fn is_local_network(ip: &SourceIp) -> (r: bool)
    ensures
        r == spec_is_local_network(*ip),
{
    match ip {
        SourceIp::V4(a, b, _c, _d) => (*a == 192 && *b == 168) || *a == 10 || (*a == 172 && 16
            <= *b && *b <= 31) || *a == 127,
        SourceIp::V6 => false,
    }
}

/// True when some collected entry came from `ip`.
pub open spec fn spec_has_ip(entries: Seq<(ServerAnnouncement, SourceIp)>, ip: SourceIp) -> bool {
    exists|k: int| 0 <= k < entries.len() && entries[k].1 == ip
}

/// The collection after one datagram: the announcement is kept exactly
/// when its source is on the local network and no entry from that source
/// was kept before.
pub open spec fn spec_offer(
    entries: Seq<(ServerAnnouncement, SourceIp)>,
    ann: ServerAnnouncement,
    ip: SourceIp,
) -> Seq<(ServerAnnouncement, SourceIp)> {
    if spec_is_local_network(ip) && !spec_has_ip(entries, ip) {
        entries.push((ann, ip))
    } else {
        entries
    }
}

/// Offers one received announcement to the collection; says whether it
/// was kept.
pub fn consider_announcement(
    found: &mut Vec<(ServerAnnouncement, SourceIp)>,
    ann: ServerAnnouncement,
    ip: SourceIp,
) -> (added: bool)
    ensures
        final(found)@ == spec_offer(old(found)@, ann, ip),
        added == (spec_is_local_network(ip) && !spec_has_ip(old(found)@, ip)),
{
    if !is_local_network(&ip) {
        return false;
    }
    let n = found.len();
    let mut k: usize = 0;
    while k < n
        invariant
            k <= n,
            n == found@.len(),
            forall|j: int| 0 <= j < k ==> found@[j].1 != ip,
        decreases n - k,
    {
        if found[k].1 == ip {
            return false;
        }
        k = k + 1;
    }
    found.push((ann, ip));
    true
}

/// True when every collected entry came from the local network.
pub open spec fn all_sources_local(entries: Seq<(ServerAnnouncement, SourceIp)>) -> bool {
    forall|k: int| 0 <= k < entries.len() ==> spec_is_local_network(#[trigger] entries[k].1)
}

/// True when no two collected entries share a source.
pub open spec fn sources_distinct(entries: Seq<(ServerAnnouncement, SourceIp)>) -> bool {
    forall|k1: int, k2: int|
        0 <= k1 < k2 < entries.len() ==> #[trigger] entries[k1].1 != #[trigger] entries[k2].1
}

/// The collection after a whole sequence of received datagrams.
pub open spec fn spec_run_offers(
    entries: Seq<(ServerAnnouncement, SourceIp)>,
    offers: Seq<(ServerAnnouncement, SourceIp)>,
) -> Seq<(ServerAnnouncement, SourceIp)>
    decreases offers.len(),
{
    if offers.len() == 0 {
        entries
    } else {
        spec_run_offers(spec_offer(entries, offers[0].0, offers[0].1), offers.drop_first())
    }
}

/// Whatever arrives, the collection only ever holds announcements from
/// local-network sources, one per source: datagrams from other sources
/// are never returned.
pub proof fn lemma_discovery_filter(
    entries: Seq<(ServerAnnouncement, SourceIp)>,
    offers: Seq<(ServerAnnouncement, SourceIp)>,
)
    requires
        all_sources_local(entries),
        sources_distinct(entries),
    ensures
        all_sources_local(spec_run_offers(entries, offers)),
        sources_distinct(spec_run_offers(entries, offers)),
    decreases offers.len(),
{
    if offers.len() > 0 {
        let next = spec_offer(entries, offers[0].0, offers[0].1);
        assert(all_sources_local(next) && sources_distinct(next)) by {
            let ip = offers[0].1;
            if spec_is_local_network(ip) && !spec_has_ip(entries, ip) {
                assert(forall|k: int|
                    0 <= k < entries.len() ==> next[k] == entries[k]);
                assert(next[entries.len() as int].1 == ip);
            }
        }
        lemma_discovery_filter(next, offers.drop_first());
    }
}

} // verus!
