//! Extraction of audio payloads from RTP packets.
//!
//! A lightweight RTP header parser that finds the audio payload of a packet
//! and routes it, by its SSRC, to a (session, endpoint) pair.
use crate::table::KeyedTable;
use std::collections::HashMap;
use vstd::prelude::*;

verus! {

broadcast use vstd::std_specs::hash::group_hash_axioms;

// ---------------------------------------------------------------------------
// The RTP header, read off a byte sequence
// ---------------------------------------------------------------------------

/// The big-endian 16-bit number made of `hi` and `lo`.
pub open spec fn be16(hi: u8, lo: u8) -> int {
    hi * 256 + lo
}

/// The big-endian 32-bit number stored at `d[i..i + 4]`.
pub open spec fn be32(d: Seq<u8>, i: int) -> int {
    d[i] * 16777216 + d[i + 1] * 65536 + d[i + 2] * 256 + d[i + 3]
}

/// Version field: the two top bits of the first byte.
pub open spec fn rtp_version(d: Seq<u8>) -> int {
    d[0] as int / 64
}

/// Padding bit (P).
pub open spec fn rtp_padding(d: Seq<u8>) -> bool {
    (d[0] / 32) % 2 == 1
}

/// Extension bit (X).
pub open spec fn rtp_extension(d: Seq<u8>) -> bool {
    (d[0] / 16) % 2 == 1
}

/// CSRC count (CC): the four low bits of the first byte.
pub open spec fn rtp_csrc_count(d: Seq<u8>) -> int {
    d[0] as int % 16
}

/// Payload type: the seven low bits of the second byte.
pub open spec fn rtp_payload_type(d: Seq<u8>) -> u8 {
    (d[1] % 128) as u8
}

/// RTP timestamp (bytes 4..8).
pub open spec fn rtp_timestamp(d: Seq<u8>) -> u32 {
    be32(d, 4) as u32
}

/// Synchronization source identifier (bytes 8..12).
pub open spec fn rtp_ssrc(d: Seq<u8>) -> u32 {
    be32(d, 8) as u32
}

/// Where the payload begins: after the fixed header and the CSRC list, and
/// after the header extension when the X bit is set and the packet is long
/// enough to hold the extension's own header.
pub open spec fn rtp_payload_offset(d: Seq<u8>) -> int {
    let base = 12 + rtp_csrc_count(d) * 4;
    if rtp_extension(d) && d.len() > base + 4 {
        base + 4 + be16(d[base + 2], d[base + 3]) * 4
    } else {
        base
    }
}

/// Where the payload ends: the last byte counts padding bytes when the P bit
/// is set (the subtraction stops at zero).
pub open spec fn rtp_payload_end(d: Seq<u8>) -> int {
    if rtp_padding(d) {
        if d.len() >= d[d.len() - 1] {
            d.len() - d[d.len() - 1]
        } else {
            0
        }
    } else {
        d.len() as int
    }
}

/// The packet is long enough, is RTP version 2, and carries one of the audio
/// payload types.
pub open spec fn is_audio_rtp(d: Seq<u8>, audio_types: Seq<u8>) -> bool {
    &&& d.len() >= 12
    &&& rtp_version(d) == 2
    &&& audio_types.contains(rtp_payload_type(d))
}

/// The (session, endpoint) an SSRC is routed to: the registered one, else the
/// default when auto-learning is on.
pub open spec fn route_for(
    routes: Map<u32, (u64, u64)>,
    auto_learn: bool,
    default_session: Option<(u64, u64)>,
    ssrc: u32,
) -> Option<(u64, u64)> {
    if routes.contains_key(ssrc) {
        Some(routes[ssrc])
    } else if auto_learn && default_session is Some {
        default_session
    } else {
        None
    }
}

/// The SSRC routes after a packet has been looked at: an audio packet from an
/// unknown SSRC is learned for the default session when auto-learning is on,
/// whether or not a payload is then found.
pub open spec fn routes_after(
    routes: Map<u32, (u64, u64)>,
    auto_learn: bool,
    default_session: Option<(u64, u64)>,
    audio_types: Seq<u8>,
    d: Seq<u8>,
) -> Map<u32, (u64, u64)> {
    if is_audio_rtp(d, audio_types) && !routes.contains_key(rtp_ssrc(d)) && auto_learn
        && default_session is Some {
        routes.insert(rtp_ssrc(d), default_session.unwrap())
    } else {
        routes
    }
}

/// What extraction yields: the route and the payload bytes, when the packet
/// is audio, routed, and has a non-empty payload.
pub open spec fn extraction(
    routes: Map<u32, (u64, u64)>,
    auto_learn: bool,
    default_session: Option<(u64, u64)>,
    audio_types: Seq<u8>,
    d: Seq<u8>,
) -> Option<((u64, u64), Seq<u8>)> {
    if !is_audio_rtp(d, audio_types) {
        None
    } else {
        match route_for(routes, auto_learn, default_session, rtp_ssrc(d)) {
            None => None,
            Some(ids) => {
                let start = rtp_payload_offset(d);
                let end = rtp_payload_end(d);
                if start < end {
                    Some((ids, d.subrange(start, end)))
                } else {
                    None
                }
            },
        }
    }
}

// ---------------------------------------------------------------------------
// Packets and commands
// ---------------------------------------------------------------------------

/// Audio data to be sent to the transcription worker thread.
#[derive(Debug)]
pub struct AudioPacket {
    pub session_id: u64,
    pub endpoint_id: u64,
    pub opus_data: Vec<u8>,
    pub timestamp: u32,
    pub ssrc: u32,
}

/// Command to control the transcription worker.
#[derive(Debug)]
pub enum TranscriptionCommand {
    /// Start transcription for a session/endpoint
    StartSession { session_id: u64, endpoint_id: u64 },
    /// Stop transcription for a session/endpoint
    StopSession { session_id: u64, endpoint_id: u64 },
    /// Process audio packet
    Audio(AudioPacket),
    /// Shutdown the worker
    Shutdown,
}

/// What the transcription worker does next, given what it received.
#[derive(Debug)]
pub enum WorkerStep {
    /// Start the manager's session and give the key a fresh decoder.
    Start { session_id: u64, endpoint_id: u64 },
    /// Stop the manager's session and drop the key's decoder.
    Stop { session_id: u64, endpoint_id: u64 },
    /// Decode the packet and hand it to the manager.
    Process(AudioPacket),
    /// Leave the loop.
    Exit,
}

/// The worker's decision for one receive: a closed channel or a shutdown
/// command ends the loop; every other command is carried out.
pub fn next_worker_step(received: Option<TranscriptionCommand>) -> (step: WorkerStep)
    ensures
        match received {
            None => step is Exit,
            Some(TranscriptionCommand::Shutdown) => step is Exit,
            Some(TranscriptionCommand::StartSession { session_id, endpoint_id }) => step
                == (WorkerStep::Start { session_id, endpoint_id }),
            Some(TranscriptionCommand::StopSession { session_id, endpoint_id }) => step
                == (WorkerStep::Stop { session_id, endpoint_id }),
            Some(TranscriptionCommand::Audio(p)) => step == WorkerStep::Process(p),
        },
{
    match received {
        None => WorkerStep::Exit,
        Some(TranscriptionCommand::Shutdown) => WorkerStep::Exit,
        Some(TranscriptionCommand::StartSession { session_id, endpoint_id }) => {
            WorkerStep::Start { session_id, endpoint_id }
        },
        Some(TranscriptionCommand::StopSession { session_id, endpoint_id }) => {
            WorkerStep::Stop { session_id, endpoint_id }
        },
        Some(TranscriptionCommand::Audio(p)) => WorkerStep::Process(p),
    }
}

// ---------------------------------------------------------------------------
// The extractor
// ---------------------------------------------------------------------------

/// RTP packet parser for extracting audio.
///
/// Routes audio packets by SSRC to a (session, endpoint) pair, optionally
/// learning unknown SSRCs for a default pair, and keeps the set of pairs that
/// have transcription enabled.
pub struct RtpAudioExtractor {
    /// SSRC to (session_id, endpoint_id) mapping
    pub ssrc_map: HashMap<u32, (u64, u64)>,
    /// Default session/endpoint for auto-learning (if set)
    pub default_session: Option<(u64, u64)>,
    /// Auto-learn SSRCs from the first audio packets
    auto_learn: bool,
    /// Sessions that have transcription enabled
    transcription_sessions: KeyedTable<bool>,
}

/// The payload types taken for audio: the common OPUS types of WebRTC.
pub open spec fn default_audio_types() -> Seq<u8> {
    seq![111u8, 109u8]
}

/// Every extractor takes exactly the payload types 111 and 109 for audio (so
/// video types such as 96 are never extracted).
pub proof fn lemma_audio_payload_types(pt: u8)
    ensures
        default_audio_types().contains(pt) <==> (pt == 111 || pt == 109),
{
    if pt == 111 {
        assert(default_audio_types()[0] == pt);
    }
    if pt == 109 {
        assert(default_audio_types()[1] == pt);
    }
}

impl RtpAudioExtractor {
    /// The SSRC routes.
    pub closed spec fn routes(&self) -> Map<u32, (u64, u64)> {
        self.ssrc_map@
    }

    /// The (session, endpoint) unknown SSRCs are learned for.
    pub closed spec fn default_route(&self) -> Option<(u64, u64)> {
        self.default_session
    }

    /// Whether unknown SSRCs are learned for the default session.
    pub closed spec fn learns(&self) -> bool {
        self.auto_learn
    }

    /// The (session, endpoint) pairs with transcription enabled.
    pub closed spec fn enabled(&self) -> Set<(u64, u64)> {
        Set::new(
            |k: (u64, u64)|
                self.transcription_sessions.view_map().contains_key(k)
                    && self.transcription_sessions.view_map()[k],
        )
    }

    /// Create a new RTP audio extractor.
    pub fn new() -> (r: Self)
        ensures
            r.routes() == Map::<u32, (u64, u64)>::empty(),
            r.default_route() is None,
            !r.learns(),
            r.enabled() == Set::<(u64, u64)>::empty(),
    {
        let r = RtpAudioExtractor {
            ssrc_map: HashMap::new(),
            default_session: None,
            auto_learn: false,
            transcription_sessions: KeyedTable::new(),
        };
        proof {
            assert(r.enabled() =~= Set::empty());
        }
        r
    }

    /// Create an extractor that auto-learns SSRCs.
    ///
    /// SSRCs seen in audio packets are assigned to the default session if not
    /// already registered.
    pub fn with_auto_learn(default_session_id: u64, default_endpoint_id: u64) -> (r: Self)
        ensures
            r.routes() == Map::<u32, (u64, u64)>::empty(),
            r.default_route() == Some((default_session_id, default_endpoint_id)),
            r.learns(),
            r.enabled() == Set::<(u64, u64)>::empty(),
    {
        let r = RtpAudioExtractor {
            ssrc_map: HashMap::new(),
            default_session: Some((default_session_id, default_endpoint_id)),
            auto_learn: true,
            transcription_sessions: KeyedTable::new(),
        };
        proof {
            assert(r.enabled() =~= Set::empty());
        }
        r
    }

    /// Enable auto-learning with a default session.
    pub fn set_auto_learn(&mut self, session_id: u64, endpoint_id: u64)
        ensures
            final(self).default_route() == Some((session_id, endpoint_id)),
            final(self).learns(),
            final(self).routes() == old(self).routes(),
            final(self).enabled() == old(self).enabled(),
    {
        self.default_session = Some((session_id, endpoint_id));
        self.auto_learn = true;
    }

    /// Mark a session as having transcription enabled; it also becomes the
    /// default session for auto-learning, and auto-learning is switched on.
    pub fn enable_transcription_for_session(&mut self, session_id: u64, endpoint_id: u64)
        ensures
            final(self).enabled() == old(self).enabled().insert((session_id, endpoint_id)),
            final(self).default_route() == Some((session_id, endpoint_id)),
            final(self).learns(),
            final(self).routes() == old(self).routes(),
    {
        self.transcription_sessions.insert((session_id, endpoint_id), true);
        proof {
            assert(self.enabled() =~= old(self).enabled().insert((session_id, endpoint_id)));
        }
        // Also set as default for auto-learning
        self.default_session = Some((session_id, endpoint_id));
        self.auto_learn = true;
    }

    /// Disable transcription for a session.
    pub fn disable_transcription_for_session(&mut self, session_id: u64, endpoint_id: u64)
        ensures
            final(self).enabled() == old(self).enabled().remove((session_id, endpoint_id)),
            final(self).default_route() == old(self).default_route(),
            final(self).learns() == old(self).learns(),
            final(self).routes() == old(self).routes(),
    {
        self.transcription_sessions.remove((session_id, endpoint_id));
        proof {
            assert(self.enabled() =~= old(self).enabled().remove((session_id, endpoint_id)));
        }
    }

    /// Check if a session has transcription enabled.
    pub fn is_transcription_enabled(&self, session_id: u64, endpoint_id: u64) -> (r: bool)
        ensures
            r == self.enabled().contains((session_id, endpoint_id)),
    {
        match self.transcription_sessions.get((session_id, endpoint_id)) {
            Some(enabled) => *enabled,
            None => false,
        }
    }

    /// Register an SSRC for a session/endpoint.
    pub fn register_ssrc(&mut self, ssrc: u32, session_id: u64, endpoint_id: u64)
        ensures
            final(self).routes() == old(self).routes().insert(ssrc, (session_id, endpoint_id)),
            final(self).default_route() == old(self).default_route(),
            final(self).learns() == old(self).learns(),
            final(self).enabled() == old(self).enabled(),
    {
        self.ssrc_map.insert(ssrc, (session_id, endpoint_id));
    }

    /// Unregister an SSRC.
    pub fn unregister_ssrc(&mut self, ssrc: u32)
        ensures
            final(self).routes() == old(self).routes().remove(ssrc),
            final(self).default_route() == old(self).default_route(),
            final(self).learns() == old(self).learns(),
            final(self).enabled() == old(self).enabled(),
    {
        self.ssrc_map.remove(&ssrc);
    }

    /// Check if a payload type is audio: one of the OPUS types 111 and 109.
    fn is_audio_payload_type(&self, pt: u8) -> (r: bool)
        ensures
            r == default_audio_types().contains(pt),
            r == (pt == 111 || pt == 109),
    {
        proof {
            lemma_audio_payload_types(pt);
        }
        pt == 111 || pt == 109
    }

    /// Try to extract audio from an RTP packet.
    ///
    /// Returns the audio payload with its route when the packet is RTP version
    /// 2 with an audio payload type, its SSRC is registered (or learned, when
    /// auto-learning is on), and a non-empty payload lies between the header
    /// and the padding.
    pub fn extract_audio(&mut self, rtp_data: &[u8]) -> (r: Option<AudioPacket>)
        ensures
            final(self).routes() == routes_after(
                old(self).routes(),
                old(self).learns(),
                old(self).default_route(),
                default_audio_types(),
                rtp_data@,
            ),
            final(self).default_route() == old(self).default_route(),
            final(self).learns() == old(self).learns(),
            final(self).enabled() == old(self).enabled(),
            match extraction(
                old(self).routes(),
                old(self).learns(),
                old(self).default_route(),
                default_audio_types(),
                rtp_data@,
            ) {
                None => r is None,
                Some((ids, payload)) => r matches Some(p) && p.session_id == ids.0
                    && p.endpoint_id == ids.1 && p.opus_data@ == payload && p.timestamp
                    == rtp_timestamp(rtp_data@) && p.ssrc == rtp_ssrc(rtp_data@),
            },
    {
        // RTP header is at least 12 bytes
        if rtp_data.len() < 12 {
            return None;
        }
        let b0 = rtp_data[0];
        let b1 = rtp_data[1];
        let version = (b0 >> 6) & 0x03;
        proof {
            assert((b0 >> 6) & 0x03 == b0 / 64) by (bit_vector);
        }
        if version != 2 {
            return None;
        }
        let padding = (b0 >> 5) & 0x01;
        let extension = (b0 >> 4) & 0x01;
        let csrc_count = b0 & 0x0F;
        let payload_type = b1 & 0x7F;
        proof {
            assert((b0 >> 5) & 0x01 == (b0 / 32) % 2) by (bit_vector);
            assert((b0 >> 4) & 0x01 == (b0 / 16) % 2) by (bit_vector);
            assert(b0 & 0x0F == b0 % 16) by (bit_vector);
            assert(b1 & 0x7F == b1 % 128) by (bit_vector);
        }
        let timestamp: u32 = (rtp_data[4] as u32) * 16777216 + (rtp_data[5] as u32) * 65536
            + (rtp_data[6] as u32) * 256 + (rtp_data[7] as u32);
        let ssrc: u32 = (rtp_data[8] as u32) * 16777216 + (rtp_data[9] as u32) * 65536
            + (rtp_data[10] as u32) * 256 + (rtp_data[11] as u32);
        // Check if this is audio
        if !self.is_audio_payload_type(payload_type) {
            return None;
        }
        // Look up session/endpoint for this SSRC, or auto-learn
        let ids: (u64, u64) = match self.ssrc_map.get(&ssrc) {
            Some(found) => *found,
            None => {
                if self.auto_learn {
                    match self.default_session {
                        Some(default) => {
                            self.ssrc_map.insert(ssrc, default);
                            default
                        },
                        None => {
                            return None;
                        },
                    }
                } else {
                    return None;
                }
            },
        };
        // Calculate payload offset
        let mut offset: usize = 12 + (csrc_count as usize) * 4;
        // Handle extension
        if extension == 1 && rtp_data.len() > offset + 4 {
            let ext_length: usize = (rtp_data[offset + 2] as usize) * 256 + (rtp_data[offset
                + 3] as usize);
            offset = offset + 4 + ext_length * 4;
        }
        if offset >= rtp_data.len() {
            return None;
        }
        // Handle padding
        let payload_end: usize = if padding == 1 {
            let padding_len = rtp_data[rtp_data.len() - 1] as usize;
            if rtp_data.len() >= padding_len {
                rtp_data.len() - padding_len
            } else {
                0
            }
        } else {
            rtp_data.len()
        };
        if offset >= payload_end {
            return None;
        }
        let mut opus_data: Vec<u8> = Vec::new();
        let mut i = offset;
        while i < payload_end
            invariant
                offset <= i <= payload_end <= rtp_data@.len(),
                opus_data@ == rtp_data@.subrange(offset as int, i as int),
            decreases payload_end - i,
        {
            opus_data.push(rtp_data[i]);
            proof {
                assert(opus_data@ =~= rtp_data@.subrange(offset as int, i + 1));
            }
            i = i + 1;
        }
        Some(AudioPacket { session_id: ids.0, endpoint_id: ids.1, opus_data, timestamp, ssrc })
    }
}

impl Default for RtpAudioExtractor {
    fn default() -> (r: Self)
        ensures
            r.routes() == Map::<u32, (u64, u64)>::empty(),
            r.default_route() is None,
            !r.learns(),
            r.enabled() == Set::<(u64, u64)>::empty(),
    {
        Self::new()
    }
}

// ---------------------------------------------------------------------------
// Laws
// ---------------------------------------------------------------------------

/// Enabling transcription for a pair makes it reported as enabled, disabling
/// it makes it reported as disabled, and neither changes what is reported for
/// any other pair.
pub proof fn lemma_enable_disable_read_back(
    enabled: Set<(u64, u64)>,
    key: (u64, u64),
    other: (u64, u64),
)
    requires
        other != key,
    ensures
        enabled.insert(key).contains(key),
        !enabled.remove(key).contains(key),
        enabled.insert(key).contains(other) == enabled.contains(other),
        enabled.remove(key).contains(other) == enabled.contains(other),
{
}

/// The enabled pairs after a sequence of calls, starting from `start`: each
/// call is `(true, k)` for `enable_transcription_for_session` of `k`, and
/// `(false, k)` for `disable_transcription_for_session` of `k` (every other
/// method leaves the enabled pairs as they are).
pub open spec fn enabled_after(start: Set<(u64, u64)>, calls: Seq<(bool, (u64, u64))>) -> Set<
    (u64, u64),
>
    decreases calls.len(),
{
    if calls.len() == 0 {
        start
    } else {
        let prev = enabled_after(start, calls.drop_last());
        if calls.last().0 {
            prev.insert(calls.last().1)
        } else {
            prev.remove(calls.last().1)
        }
    }
}

/// Whether the last of `calls` made on `k` is an enable (`Some(true)`), a
/// disable (`Some(false)`), or there is none (`None`).
pub open spec fn last_call_on(calls: Seq<(bool, (u64, u64))>, k: (u64, u64)) -> Option<bool>
    decreases calls.len(),
{
    if calls.len() == 0 {
        None
    } else if calls.last().1 == k {
        Some(calls.last().0)
    } else {
        last_call_on(calls.drop_last(), k)
    }
}

/// After any sequence of enables and disables, a pair is reported enabled
/// exactly when the last of those calls made on it is an enable; a pair on
/// which none was made keeps what it had (nothing, for a new extractor).
pub proof fn lemma_enabled_follows_last_call(
    start: Set<(u64, u64)>,
    calls: Seq<(bool, (u64, u64))>,
    k: (u64, u64),
)
    ensures
        enabled_after(start, calls).contains(k) == match last_call_on(calls, k) {
            Some(enable) => enable,
            None => start.contains(k),
        },
        enabled_after(Set::empty(), calls).contains(k) == (last_call_on(calls, k) == Some(
            true,
        )),
    decreases calls.len(),
{
    if calls.len() > 0 {
        lemma_enabled_follows_last_call(start, calls.drop_last(), k);
        lemma_enabled_follows_last_call(Set::empty(), calls.drop_last(), k);
    }
}

/// Extraction read straight off the packet's bytes (RFC 3550, 5.1 and 5.3.1).
///
/// A packet of at least 12 bytes yields its audio exactly when it is version
/// 2 (top two bits of byte 0), its payload type (low seven bits of byte 1) is
/// an audio type, its SSRC (bytes 8..12, big-endian) is routed, and the
/// payload is not empty. The payload starts after the CSRC list (12 bytes
/// plus 4 per CSRC, the count being the low four bits of byte 0); when the X
/// bit (bit 4 of byte 0) is set and the extension header fits, it starts a
/// further 4 + 4 * L bytes on, where L is the big-endian 16-bit length field
/// in bytes 2..4 of the extension header. It ends at the packet's end, less
/// the padding count in the last byte when the P bit (bit 5) is set.
pub proof fn lemma_extraction_from_bytes(
    routes: Map<u32, (u64, u64)>,
    auto_learn: bool,
    default_session: Option<(u64, u64)>,
    audio_types: Seq<u8>,
    d: Seq<u8>,
)
    requires
        d.len() >= 12,
    ensures
        ({
            let csrc_end = 12 + 4 * (d[0] % 16);
            let start = if (d[0] / 16) % 2 == 1 && d.len() > csrc_end + 4 {
                csrc_end + 4 + 4 * (256 * d[csrc_end + 2] + d[csrc_end + 3])
            } else {
                csrc_end
            };
            let last = d[d.len() - 1];
            let end = if (d[0] / 32) % 2 == 1 {
                if last <= d.len() {
                    d.len() - last
                } else {
                    0
                }
            } else {
                d.len() as int
            };
            let ssrc = (((d[8] * 256 + d[9]) * 256 + d[10]) * 256 + d[11]) as u32;
            let ids = if routes.contains_key(ssrc) {
                Some(routes[ssrc])
            } else if auto_learn {
                default_session
            } else {
                None
            };
            let audio = d[0] / 64 == 2 && audio_types.contains((d[1] % 128) as u8);
            extraction(routes, auto_learn, default_session, audio_types, d) == if audio
                && ids is Some && start < end {
                Some((ids.unwrap(), d.subrange(start, end)))
            } else {
                None
            }
        }),
{
}

/// The timestamp and SSRC an extracted packet carries are the big-endian
/// numbers in bytes 4..8 and 8..12 of the packet.
pub proof fn lemma_header_numbers(d: Seq<u8>)
    requires
        d.len() >= 12,
    ensures
        rtp_timestamp(d) == ((d[4] * 256 + d[5]) * 256 + d[6]) * 256 + d[7],
        rtp_ssrc(d) == ((d[8] * 256 + d[9]) * 256 + d[10]) * 256 + d[11],
{
}

/// A registered SSRC is routed to the pair it was registered for: whatever
/// the default session and auto-learning say, extraction of a packet from
/// that SSRC yields that pair, and the route stays as it was.
pub proof fn lemma_registered_ssrc_routes_to_its_pair(
    routes: Map<u32, (u64, u64)>,
    auto_learn: bool,
    default_session: Option<(u64, u64)>,
    audio_types: Seq<u8>,
    d: Seq<u8>,
    session_id: u64,
    endpoint_id: u64,
)
    requires
        d.len() >= 12,
    ensures
        ({
            let registered = routes.insert(rtp_ssrc(d), (session_id, endpoint_id));
            &&& extraction(registered, auto_learn, default_session, audio_types, d) matches Some(
                (ids, _),
            ) ==> ids == (session_id, endpoint_id)
            &&& routes_after(registered, auto_learn, default_session, audio_types, d)
                == registered
        }),
{
}

/// Once an SSRC is unregistered and auto-learning is off, packets from it
/// yield nothing and leave the routes alone.
pub proof fn lemma_unregistered_ssrc_is_dropped(
    routes: Map<u32, (u64, u64)>,
    default_session: Option<(u64, u64)>,
    audio_types: Seq<u8>,
    d: Seq<u8>,
)
    requires
        d.len() >= 12,
    ensures
        extraction(routes.remove(rtp_ssrc(d)), false, default_session, audio_types, d) is None,
        routes_after(routes.remove(rtp_ssrc(d)), false, default_session, audio_types, d)
            == routes.remove(rtp_ssrc(d)),
{
}

/// An SSRC learned for the default session keeps that route: later changes of
/// the default session do not move it.
pub proof fn lemma_learned_ssrc_keeps_its_route(
    routes: Map<u32, (u64, u64)>,
    default_session: Option<(u64, u64)>,
    audio_types: Seq<u8>,
    d: Seq<u8>,
    later_auto_learn: bool,
    later_default: Option<(u64, u64)>,
)
    requires
        is_audio_rtp(d, audio_types),
        default_session is Some,
    ensures
        route_for(
            routes_after(routes, true, default_session, audio_types, d),
            later_auto_learn,
            later_default,
            rtp_ssrc(d),
        ) == route_for(routes, true, default_session, rtp_ssrc(d)),
{
}

/// Extraction only ever adds the packet's own SSRC to the routes; every
/// other route is kept.
pub proof fn lemma_extraction_keeps_other_routes(
    routes: Map<u32, (u64, u64)>,
    auto_learn: bool,
    default_session: Option<(u64, u64)>,
    audio_types: Seq<u8>,
    d: Seq<u8>,
    other: u32,
)
    requires
        d.len() >= 12,
        other != rtp_ssrc(d),
    ensures
        routes_after(routes, auto_learn, default_session, audio_types, d).contains_key(other)
            == routes.contains_key(other),
        routes.contains_key(other) ==> routes_after(
            routes,
            auto_learn,
            default_session,
            audio_types,
            d,
        )[other] == routes[other],
{
}

/// A payload that is extracted is a contiguous, non-empty part of the packet
/// that lies after the 12-byte fixed header.
pub proof fn lemma_payload_within_packet(
    routes: Map<u32, (u64, u64)>,
    auto_learn: bool,
    default_session: Option<(u64, u64)>,
    audio_types: Seq<u8>,
    d: Seq<u8>,
)
    ensures
        extraction(routes, auto_learn, default_session, audio_types, d) matches Some((_, payload))
            ==> {
            &&& 0 < payload.len()
            &&& 12 <= rtp_payload_offset(d)
            &&& rtp_payload_offset(d) + payload.len() <= d.len()
            &&& payload == d.subrange(
                rtp_payload_offset(d),
                rtp_payload_offset(d) + payload.len(),
            )
        },
{
}

} // verus!
