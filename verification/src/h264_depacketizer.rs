use vstd::prelude::*;

verus! {

/// One H.264 access unit in AVCC form: every NAL unit is preceded by its
/// length as a four-byte big-endian integer.
pub struct AccessUnit {
    pub data: Vec<u8>,
    pub timestamp: u32,
    pub keyframe: bool,
}

/// The mathematical content of an [`AccessUnit`].
pub struct AccessUnitModel {
    pub data: Seq<u8>,
    pub timestamp: u32,
    pub keyframe: bool,
}

impl View for AccessUnit {
    type V = AccessUnitModel;

    open spec fn view(&self) -> AccessUnitModel {
        AccessUnitModel { data: self.data@, timestamp: self.timestamp, keyframe: self.keyframe }
    }
}

/// The state of an [`H264Depacketizer`] as plain values.
pub struct DepacketizerModel {
    pub current_data: Seq<u8>,
    pub current_ts: u32,
    pub current_keyframe: bool,
    pub fua_buf: Seq<u8>,
    pub fua_active: bool,
    pub sps: Option<Seq<u8>>,
    pub pps: Option<Seq<u8>>,
}

/// Reassembles RTP payloads (RFC 6184: single NAL unit, STAP-A and FU-A
/// packets) into AVCC access units.
pub struct H264Depacketizer {
    current_data: Vec<u8>,
    current_ts: u32,
    current_keyframe: bool,
    fua_buf: Vec<u8>,
    fua_active: bool,
    pub sps: Option<Vec<u8>>,
    pub pps: Option<Vec<u8>>,
}

/// The content of an optional byte vector.
pub open spec fn option_bytes_view(o: Option<Vec<u8>>) -> Option<Seq<u8>> {
    match o {
        Some(v) => Some(v@),
        None => None,
    }
}

impl View for H264Depacketizer {
    type V = DepacketizerModel;

    closed spec fn view(&self) -> DepacketizerModel {
        DepacketizerModel {
            current_data: self.current_data@,
            current_ts: self.current_ts,
            current_keyframe: self.current_keyframe,
            fua_buf: self.fua_buf@,
            fua_active: self.fua_active,
            sps: option_bytes_view(self.sps),
            pps: option_bytes_view(self.pps),
        }
    }
}

/// The depacketizer's invariant: a keyframe flag only stands beside gathered
/// data, and a fragment in progress always holds its header byte.
pub open spec fn consistent(st: DepacketizerModel) -> bool {
    &&& st.current_keyframe ==> st.current_data.len() > 0
    &&& st.fua_active ==> st.fua_buf.len() > 0
}

/// NAL unit type: the low five bits of a NAL header byte.
pub open spec fn nal_type_of(header: u8) -> u8 {
    header & 0x1F
}

/// NAL unit type of an IDR picture slice.
pub const NAL_TYPE_IDR: u8 = 5;

/// NAL unit type of a sequence parameter set.
pub const NAL_TYPE_SPS: u8 = 7;

/// NAL unit type of a picture parameter set.
pub const NAL_TYPE_PPS: u8 = 8;

/// RTP payload type of a single-time aggregation packet.
pub const NAL_TYPE_STAP_A: u8 = 24;

/// RTP payload type of a fragmentation unit.
pub const NAL_TYPE_FU_A: u8 = 28;

/// `n` as four big-endian bytes.
pub open spec fn be32_bytes(n: u32) -> Seq<u8> {
    seq![(n >> 24u32) as u8, (n >> 16u32) as u8, (n >> 8u32) as u8, n as u8]
}

/// A NAL unit with its AVCC length prefix.
pub open spec fn avcc_frame(nal: Seq<u8>) -> Seq<u8> {
    be32_bytes(nal.len() as u32) + nal
}

/// The model after one complete NAL unit has been added to the current
/// access unit: framed data is appended, an IDR slice marks a keyframe, and a
/// parameter set replaces the one stored.
pub open spec fn with_nal(st: DepacketizerModel, nal: Seq<u8>) -> DepacketizerModel {
    let t = nal_type_of(nal[0]);
    DepacketizerModel {
        current_data: st.current_data + avcc_frame(nal),
        current_keyframe: st.current_keyframe || t == NAL_TYPE_IDR,
        sps: if t == NAL_TYPE_SPS { Some(nal) } else { st.sps },
        pps: if t == NAL_TYPE_PPS { Some(nal) } else { st.pps },
        ..st
    }
}

/// The model after adding each NAL unit of `nals` in order.
pub open spec fn with_nals(st: DepacketizerModel, nals: Seq<Seq<u8>>) -> DepacketizerModel
    decreases nals.len(),
{
    if nals.len() == 0 {
        st
    } else {
        with_nals(with_nal(st, nals[0]), nals.drop_first())
    }
}

/// Big-endian 16-bit value of `p[i]`, `p[i + 1]`.
pub open spec fn be16_at(p: Seq<u8>, i: int) -> int {
    p[i] as int * 256 + p[i + 1] as int
}

/// The non-empty NAL units of a STAP-A payload from byte `offset` on: each is
/// preceded by a 16-bit big-endian size; a unit that runs past the end stops
/// the walk.
pub open spec fn stap_a_units(p: Seq<u8>, offset: int) -> Seq<Seq<u8>>
    decreases p.len() - offset,
{
    if offset < 0 || offset + 2 > p.len() {
        Seq::empty()
    } else {
        let size = be16_at(p, offset);
        let start = offset + 2;
        if start + size > p.len() {
            Seq::empty()
        } else {
            let nal = p.subrange(start, start + size);
            let rest = stap_a_units(p, start + size);
            if nal.len() > 0 {
                seq![nal] + rest
            } else {
                rest
            }
        }
    }
}

/// The model after one FU-A packet. A start fragment begins a new NAL unit
/// whose header is rebuilt from the indicator's top three bits and the
/// fragment header's type; a middle fragment extends a NAL unit in progress
/// (and is dropped otherwise); an end fragment completes the unit.
pub open spec fn after_fu_a(st: DepacketizerModel, p: Seq<u8>) -> DepacketizerModel {
    if p.len() < 2 {
        st
    } else {
        let indicator = p[0];
        let header = p[1];
        let start = header & 0x80 != 0;
        let end = header & 0x40 != 0;
        let rest = p.subrange(2, p.len() as int);
        let st1 = if start {
            DepacketizerModel {
                fua_buf: seq![(indicator & 0xE0) | (header & 0x1F)] + rest,
                fua_active: true,
                ..st
            }
        } else if st.fua_active {
            DepacketizerModel { fua_buf: st.fua_buf + rest, ..st }
        } else {
            st
        };
        if end && st1.fua_active {
            with_nal(
                DepacketizerModel { fua_buf: Seq::empty(), fua_active: false, ..st1 },
                st1.fua_buf,
            )
        } else {
            st1
        }
    }
}

/// The model after the payload's NAL units have been taken in, by packet type.
pub open spec fn after_payload(st: DepacketizerModel, p: Seq<u8>) -> DepacketizerModel {
    let t = nal_type_of(p[0]);
    if 1 <= t <= 23 {
        with_nal(st, p)
    } else if t == NAL_TYPE_STAP_A {
        with_nals(st, stap_a_units(p, 1))
    } else if t == NAL_TYPE_FU_A {
        after_fu_a(st, p)
    } else {
        st
    }
}

/// What one `push` does: an empty payload changes nothing; a new timestamp
/// drops an unfinished access unit; the marker bit ends the access unit and
/// hands it out if it holds any data.
pub open spec fn after_push(st: DepacketizerModel, p: Seq<u8>, ts: u32, marker: bool) -> (
    DepacketizerModel,
    Option<AccessUnitModel>,
) {
    if p.len() == 0 {
        (st, None)
    } else {
        let st1 = if st.current_data.len() > 0 && st.current_ts != ts {
            DepacketizerModel { current_data: Seq::empty(), current_keyframe: false, ..st }
        } else {
            st
        };
        let st2 = after_payload(DepacketizerModel { current_ts: ts, ..st1 }, p);
        if marker && st2.current_data.len() > 0 {
            (
                DepacketizerModel { current_data: Seq::empty(), current_keyframe: false, ..st2 },
                Some(
                    AccessUnitModel {
                        data: st2.current_data,
                        timestamp: ts,
                        keyframe: st2.current_keyframe,
                    },
                ),
            )
        } else {
            (st2, None)
        }
    }
}

proof fn lemma_with_nals_consistent(st: DepacketizerModel, nals: Seq<Seq<u8>>)
    requires
        consistent(st),
    ensures
        consistent(with_nals(st, nals)),
    decreases nals.len(),
{
    if nals.len() > 0 {
        lemma_with_nals_consistent(with_nal(st, nals[0]), nals.drop_first());
    }
}

/// Taking in one payload keeps the depacketizer's invariant.
proof fn lemma_after_payload_consistent(st: DepacketizerModel, p: Seq<u8>)
    requires
        consistent(st),
        p.len() > 0,
    ensures
        consistent(after_payload(st, p)),
{
    lemma_with_nals_consistent(st, stap_a_units(p, 1));
}

/// Appends `s` to `v`.
fn extend_bytes(v: &mut Vec<u8>, s: &[u8])
    ensures
        final(v)@ == old(v)@ + s@,
{
    v.extend_from_slice(s);
    assert(v@ =~= old(v)@ + s@);
}

/// A fresh vector holding a copy of `s`.
fn bytes_to_vec(s: &[u8]) -> (r: Vec<u8>)
    ensures
        r@ == s@,
{
    let mut v: Vec<u8> = Vec::new();
    extend_bytes(&mut v, s);
    v
}

impl H264Depacketizer {
    /// The invariant of the depacketizer, over its model.
    pub open spec fn wf(&self) -> bool {
        consistent(self@)
    }

    /// A depacketizer with nothing gathered and no parameter sets seen.
    pub fn new() -> (r: Self)
        ensures
            r.wf(),
            parameter_sets_typed(r@),
            r@ == (DepacketizerModel {
                current_data: Seq::empty(),
                current_ts: 0,
                current_keyframe: false,
                fua_buf: Seq::empty(),
                fua_active: false,
                sps: None,
                pps: None,
            }),
    {
        H264Depacketizer {
            current_data: Vec::new(),
            current_ts: 0,
            current_keyframe: false,
            fua_buf: Vec::new(),
            fua_active: false,
            sps: None,
            pps: None,
        }
    }

    /// The last SPS seen, as the public `sps` field holds it.
    pub fn sps(&self) -> (r: &Option<Vec<u8>>)
        ensures
            option_bytes_view(*r) == self@.sps,
    {
        &self.sps
    }

    /// The last PPS seen, as the public `pps` field holds it.
    pub fn pps(&self) -> (r: &Option<Vec<u8>>)
        ensures
            option_bytes_view(*r) == self@.pps,
    {
        &self.pps
    }

    /// Takes one RTP payload with its timestamp and marker bit; returns the
    /// completed access unit when the marker ends one that holds data.
    pub fn push(&mut self, payload: &[u8], timestamp: u32, marker: bool) -> (r: Option<AccessUnit>)
        requires
            old(self).wf(),
        ensures
            final(self).wf(),
            (final(self)@, match r {
                Some(au) => Some(au@),
                None => None,
            }) == after_push(old(self)@, payload@, timestamp, marker),
    {
        if payload.len() == 0 {
            return None;
        }
        if self.current_data.len() > 0 && self.current_ts != timestamp {
            self.current_data.clear();
            self.current_keyframe = false;
        }
        self.current_ts = timestamp;

        let nal_type = payload[0] & 0x1F;
        if 1 <= nal_type && nal_type <= 23 {
            self.process_single_nal(payload);
        } else if nal_type == NAL_TYPE_STAP_A {
            self.process_stap_a(payload);
        } else if nal_type == NAL_TYPE_FU_A {
            self.process_fua(payload);
        }

        proof {
            let st = old(self)@;
            let st1 = if st.current_data.len() > 0 && st.current_ts != timestamp {
                DepacketizerModel { current_data: Seq::empty(), current_keyframe: false, ..st }
            } else {
                st
            };
            lemma_after_payload_consistent(DepacketizerModel { current_ts: timestamp, ..st1 }, payload@);
        }
        if marker && self.current_data.len() > 0 {
            let mut data: Vec<u8> = Vec::new();
            std::mem::swap(&mut data, &mut self.current_data);
            let au = AccessUnit { data, timestamp, keyframe: self.current_keyframe };
            self.current_keyframe = false;
            Some(au)
        } else {
            None
        }
    }

    fn process_single_nal(&mut self, nal: &[u8])
        requires
            nal@.len() > 0,
        ensures
            final(self)@ == with_nal(old(self)@, nal@),
            final(self).fua_buf == old(self).fua_buf,
            final(self).fua_active == old(self).fua_active,
    {
        let nal_type = nal[0] & 0x1F;
        self.check_parameter_set(nal_type, nal);
        self.check_keyframe(nal_type);
        self.append_avcc(nal);
    }

    fn process_stap_a(&mut self, payload: &[u8])
        requires
            payload@.len() > 0,
        ensures
            final(self)@ == with_nals(old(self)@, stap_a_units(payload@, 1)),
            final(self).fua_buf == old(self).fua_buf,
            final(self).fua_active == old(self).fua_active,
    {
        let ghost target = with_nals(old(self)@, stap_a_units(payload@, 1));
        let mut offset: usize = 1;
        while payload.len() - offset >= 2
            invariant
                1 <= offset <= payload@.len(),
                with_nals(self@, stap_a_units(payload@, offset as int)) == target,
                self.fua_buf == old(self).fua_buf,
                self.fua_active == old(self).fua_active,
            ensures
                self@ == target,
                self.fua_buf == old(self).fua_buf,
                self.fua_active == old(self).fua_active,
            decreases payload@.len() - offset,
        {
            let size: usize = (payload[offset] as usize) * 256 + (payload[offset + 1] as usize);
            let start: usize = offset + 2;
            if size > payload.len() - start {
                break;
            }
            let nal = &payload[start..start + size];
            let ghost rest = stap_a_units(payload@, (start + size) as int);
            if nal.len() > 0 {
                assert((seq![nal@] + rest)[0] == nal@);
                assert((seq![nal@] + rest).drop_first() =~= rest);
                let nal_type = nal[0] & 0x1F;
                self.check_parameter_set(nal_type, nal);
                self.check_keyframe(nal_type);
                self.append_avcc(nal);
            }
            offset = start + size;
        }
    }

    fn process_fua(&mut self, payload: &[u8])
        requires
            old(self).wf(),
        ensures
            final(self).wf(),
            final(self)@ == after_fu_a(old(self)@, payload@),
    {
        if payload.len() < 2 {
            return;
        }
        let fu_indicator = payload[0];
        let fu_header = payload[1];
        let start = (fu_header & 0x80) != 0;
        let end = (fu_header & 0x40) != 0;
        let nal_type = fu_header & 0x1F;
        let rest = &payload[2..payload.len()];

        if start {
            let nal_header = (fu_indicator & 0xE0) | nal_type;
            self.fua_buf.clear();
            self.fua_buf.push(nal_header);
            extend_bytes(&mut self.fua_buf, rest);
            self.fua_active = true;
        } else if self.fua_active {
            extend_bytes(&mut self.fua_buf, rest);
        }

        if end && self.fua_active {
            self.fua_active = false;
            let mut buf: Vec<u8> = Vec::new();
            std::mem::swap(&mut buf, &mut self.fua_buf);
            let nal_type_inner = buf[0] & 0x1F;
            self.check_parameter_set(nal_type_inner, buf.as_slice());
            self.check_keyframe(nal_type_inner);
            self.append_avcc(buf.as_slice());
        }
    }

    fn append_avcc(&mut self, nal: &[u8])
        ensures
            final(self)@ == (DepacketizerModel {
                current_data: old(self)@.current_data + avcc_frame(nal@),
                ..old(self)@
            }),
            final(self).fua_buf == old(self).fua_buf,
            final(self).fua_active == old(self).fua_active,
    {
        let len = nal.len() as u32;
        let header: [u8; 4] = [(len >> 24u32) as u8, (len >> 16u32) as u8, (len >> 8u32) as u8, len as u8];
        extend_bytes(&mut self.current_data, &header);
        extend_bytes(&mut self.current_data, nal);
        assert(header@ =~= be32_bytes(nal@.len() as u32));
        assert(self.current_data@ =~= old(self)@.current_data + avcc_frame(nal@));
    }

    fn check_parameter_set(&mut self, nal_type: u8, nal: &[u8])
        ensures
            final(self)@ == (DepacketizerModel {
                sps: if nal_type == NAL_TYPE_SPS { Some(nal@) } else { old(self)@.sps },
                pps: if nal_type == NAL_TYPE_PPS { Some(nal@) } else { old(self)@.pps },
                ..old(self)@
            }),
            final(self).fua_buf == old(self).fua_buf,
            final(self).fua_active == old(self).fua_active,
    {
        if nal_type == NAL_TYPE_SPS {
            self.sps = Some(bytes_to_vec(nal));
        } else if nal_type == NAL_TYPE_PPS {
            self.pps = Some(bytes_to_vec(nal));
        }
    }

    fn check_keyframe(&mut self, nal_type: u8)
        ensures
            final(self)@ == (DepacketizerModel {
                current_keyframe: old(self)@.current_keyframe || nal_type == NAL_TYPE_IDR,
                ..old(self)@
            }),
            final(self).fua_buf == old(self).fua_buf,
            final(self).fua_active == old(self).fua_active,
    {
        if nal_type == NAL_TYPE_IDR {
            self.current_keyframe = true;
        }
    }
}


/// One RTP packet as the depacketizer sees it.
pub struct RtpPacketModel {
    pub payload: Seq<u8>,
    pub timestamp: u32,
    pub marker: bool,
}

/// Pushes `packets` in order; returns the final state and every access unit
/// handed out, in order.
pub open spec fn push_all(st: DepacketizerModel, packets: Seq<RtpPacketModel>) -> (
    DepacketizerModel,
    Seq<AccessUnitModel>,
)
    decreases packets.len(),
{
    if packets.len() == 0 {
        (st, Seq::empty())
    } else {
        let prev = push_all(st, packets.drop_last());
        let pkt = packets.last();
        let step = after_push(prev.0, pkt.payload, pkt.timestamp, pkt.marker);
        (
            step.0,
            match step.1 {
                Some(au) => prev.1.push(au),
                None => prev.1,
            },
        )
    }
}

/// The concatenation of `parts`.
pub open spec fn flatten_bytes(parts: Seq<Seq<u8>>) -> Seq<u8>
    decreases parts.len(),
{
    if parts.len() == 0 {
        Seq::empty()
    } else {
        flatten_bytes(parts.drop_last()) + parts.last()
    }
}

/// The FU-A packet that carries `part` of a NAL unit whose header byte is `h`.
pub open spec fn fu_a_payload(h: u8, part: Seq<u8>, first: bool, last: bool) -> Seq<u8> {
    seq![
        (h & 0xE0) | NAL_TYPE_FU_A,
        (if first { 0x80u8 } else { 0u8 }) | (if last { 0x40u8 } else { 0u8 }) | (h & 0x1F),
    ] + part
}

/// The RTP packets that carry `nal` as FU-A fragments: the body after the
/// header byte is split into `parts`; the last packet has the marker bit.
pub open spec fn fu_a_packets(nal: Seq<u8>, parts: Seq<Seq<u8>>, ts: u32) -> Seq<RtpPacketModel> {
    Seq::new(
        parts.len(),
        |i: int|
            RtpPacketModel {
                payload: fu_a_payload(nal[0], parts[i], i == 0, i == parts.len() - 1),
                timestamp: ts,
                marker: i == parts.len() - 1,
            },
    )
}

/// A depacketizer between access units: nothing gathered.
pub open spec fn is_idle(st: DepacketizerModel) -> bool {
    st.current_data.len() == 0
}

/// The FU-A indicator and header bytes built from `h`: the indicator's type
/// is FU-A, the flags read back as given, and the rebuilt header is `h`.
proof fn lemma_fu_a_header_bits(h: u8, first: bool, last: bool)
    by (bit_vector)
    ensures
        ((h & 0xE0) | 28u8) & 0x1F == 28u8,
        ((if first { 0x80u8 } else { 0u8 }) | (if last { 0x40u8 } else { 0u8 }) | (h & 0x1F))
            & 0x80 != 0 <==> first,
        ((if first { 0x80u8 } else { 0u8 }) | (if last { 0x40u8 } else { 0u8 }) | (h & 0x1F))
            & 0x40 != 0 <==> last,
        (((h & 0xE0) | 28u8) & 0xE0) | (((if first { 0x80u8 } else { 0u8 }) | (if last {
            0x40u8
        } else {
            0u8
        }) | (h & 0x1F)) & 0x1F) == h,
{
}

/// While the fragments before the last are pushed, nothing is handed out and
/// the fragment buffer holds the header byte and the body so far.
proof fn lemma_fu_a_prefix(st: DepacketizerModel, nal: Seq<u8>, parts: Seq<Seq<u8>>, ts: u32, k: int)
    requires
        consistent(st),
        is_idle(st) || st.current_ts == ts,
        nal.len() >= 1,
        1 <= k < parts.len(),
    ensures
        ({
            let r = push_all(st, fu_a_packets(nal, parts, ts).take(k));
            &&& r.1 == Seq::<AccessUnitModel>::empty()
            &&& r.0 == (DepacketizerModel {
                current_ts: ts,
                fua_active: true,
                fua_buf: seq![nal[0]] + flatten_bytes(parts.take(k)),
                ..st
            })
        }),
    decreases k,
{
    let pkts = fu_a_packets(nal, parts, ts);
    assert(pkts.take(k).drop_last() =~= pkts.take(k - 1));
    assert(pkts.take(k).last() == pkts[k - 1]);
    assert(parts.take(k).drop_last() =~= parts.take(k - 1));
    assert(parts.take(k).last() == parts[k - 1]);
    lemma_fu_a_header_bits(nal[0], k - 1 == 0, false);
    let p = pkts[k - 1].payload;
    assert(p.subrange(2, p.len() as int) =~= parts[k - 1]);
    if k == 1 {
        assert(pkts.take(0) =~= Seq::<RtpPacketModel>::empty());
        assert(parts.take(0) =~= Seq::<Seq<u8>>::empty());
        let r = push_all(st, pkts.take(k));
        assert(r.0.fua_buf =~= seq![nal[0]] + flatten_bytes(parts.take(k)));
    } else {
        lemma_fu_a_prefix(st, nal, parts, ts, k - 1);
        let r = push_all(st, pkts.take(k));
        assert(r.0.fua_buf =~= seq![nal[0]] + flatten_bytes(parts.take(k)));
    }
}

/// FU-A reassembly undoes fragmentation: a NAL unit split into one or more
/// FU-A fragments, pushed in order from an idle depacketizer, comes out as
/// exactly one access unit holding that NAL unit in AVCC form, marked as a
/// keyframe exactly when it is an IDR slice.
pub proof fn lemma_fu_a_reassembles_nal(
    st: DepacketizerModel,
    nal: Seq<u8>,
    parts: Seq<Seq<u8>>,
    ts: u32,
)
    requires
        consistent(st),
        is_idle(st),
        nal.len() >= 1,
        parts.len() >= 1,
        flatten_bytes(parts) == nal.drop_first(),
    ensures
        push_all(st, fu_a_packets(nal, parts, ts)).1 == seq![
            AccessUnitModel {
                data: avcc_frame(nal),
                timestamp: ts,
                keyframe: nal_type_of(nal[0]) == NAL_TYPE_IDR,
            },
        ],
        is_idle(push_all(st, fu_a_packets(nal, parts, ts)).0),
{
    let pkts = fu_a_packets(nal, parts, ts);
    let n = parts.len() as int;
    assert(pkts.drop_last() =~= pkts.take(n - 1));
    assert(parts.drop_last() =~= parts.take(n - 1));
    lemma_fu_a_header_bits(nal[0], n - 1 == 0, true);
    let p = pkts[n - 1].payload;
    assert(p.subrange(2, p.len() as int) =~= parts[n - 1]);
    let prev = if n == 1 {
        assert(pkts.take(0) =~= Seq::<RtpPacketModel>::empty());
        push_all(st, pkts.take(0))
    } else {
        lemma_fu_a_prefix(st, nal, parts, ts, n - 1);
        push_all(st, pkts.take(n - 1))
    };
    assert(prev == push_all(st, pkts.drop_last()));
    assert(prev.1 == Seq::<AccessUnitModel>::empty());
    if n == 1 {
        assert(parts[0] == flatten_bytes(parts)) by {
            assert(parts.drop_last() =~= Seq::<Seq<u8>>::empty());
            assert(flatten_bytes(parts.drop_last()) =~= Seq::<u8>::empty());
            assert(flatten_bytes(parts) =~= parts[0]);
        }
    }
    assert(flatten_bytes(parts) == flatten_bytes(parts.drop_last()) + parts[n - 1]);
    let h = nal[0];
    let rebuilt = ((h & 0xE0) | NAL_TYPE_FU_A) & 0xE0 | ((if n - 1 == 0 { 0x80u8 } else { 0u8 })
        | 0x40u8 | (h & 0x1F)) & 0x1F;
    assert(rebuilt == h);
    let buf = if n == 1 {
        seq![rebuilt] + parts[0]
    } else {
        prev.0.fua_buf + parts[n - 1]
    };
    if n == 1 {
        assert(buf =~= seq![nal[0]] + nal.drop_first());
    } else {
        assert(prev.0.fua_buf == seq![nal[0]] + flatten_bytes(parts.take(n - 1)));
        assert(flatten_bytes(parts.take(n - 1)) == flatten_bytes(parts.drop_last()));
        assert(buf =~= seq![nal[0]] + nal.drop_first());
    }
    assert(buf =~= nal);
    let base = DepacketizerModel { current_ts: ts, ..prev.0 };
    assert(nal_type_of(p[0]) == NAL_TYPE_FU_A);
    let fu = after_fu_a(base, p);
    assert(fu == with_nal(DepacketizerModel { fua_buf: Seq::empty(), fua_active: false, ..base }, buf));
    assert(fu.current_data =~= avcc_frame(nal));
    let r = push_all(st, pkts);
    assert(r.1 =~= seq![
        AccessUnitModel {
            data: avcc_frame(nal),
            timestamp: ts,
            keyframe: nal_type_of(nal[0]) == NAL_TYPE_IDR,
        },
    ]);
}

/// FU-A reassembly appends to what was gathered: a NAL unit split into one
/// or more FU-A fragments, pushed in order with the timestamp of the access
/// unit being gathered, comes out as exactly one access unit holding the data
/// gathered before followed by that NAL unit in AVCC form, a keyframe when
/// the gathered data was one or the NAL unit is an IDR slice.
pub proof fn lemma_fu_a_appends_to_gathered(
    st: DepacketizerModel,
    nal: Seq<u8>,
    parts: Seq<Seq<u8>>,
    ts: u32,
)
    requires
        consistent(st),
        is_idle(st) || st.current_ts == ts,
        nal.len() >= 1,
        parts.len() >= 1,
        flatten_bytes(parts) == nal.drop_first(),
    ensures
        push_all(st, fu_a_packets(nal, parts, ts)).1 == seq![
            AccessUnitModel {
                data: st.current_data + avcc_frame(nal),
                timestamp: ts,
                keyframe: st.current_keyframe || nal_type_of(nal[0]) == NAL_TYPE_IDR,
            },
        ],
        is_idle(push_all(st, fu_a_packets(nal, parts, ts)).0),
{
    let pkts = fu_a_packets(nal, parts, ts);
    let n = parts.len() as int;
    assert(pkts.drop_last() =~= pkts.take(n - 1));
    assert(parts.drop_last() =~= parts.take(n - 1));
    lemma_fu_a_header_bits(nal[0], n - 1 == 0, true);
    let p = pkts[n - 1].payload;
    assert(p.subrange(2, p.len() as int) =~= parts[n - 1]);
    let prev = if n == 1 {
        assert(pkts.take(0) =~= Seq::<RtpPacketModel>::empty());
        push_all(st, pkts.take(0))
    } else {
        lemma_fu_a_prefix(st, nal, parts, ts, n - 1);
        push_all(st, pkts.take(n - 1))
    };
    assert(prev == push_all(st, pkts.drop_last()));
    assert(prev.1 == Seq::<AccessUnitModel>::empty());
    if n == 1 {
        assert(parts[0] == flatten_bytes(parts)) by {
            assert(parts.drop_last() =~= Seq::<Seq<u8>>::empty());
            assert(flatten_bytes(parts.drop_last()) =~= Seq::<u8>::empty());
            assert(flatten_bytes(parts) =~= parts[0]);
        }
    }
    assert(flatten_bytes(parts) == flatten_bytes(parts.drop_last()) + parts[n - 1]);
    let h = nal[0];
    let rebuilt = ((h & 0xE0) | NAL_TYPE_FU_A) & 0xE0 | ((if n - 1 == 0 { 0x80u8 } else { 0u8 })
        | 0x40u8 | (h & 0x1F)) & 0x1F;
    assert(rebuilt == h);
    let buf = if n == 1 {
        seq![rebuilt] + parts[0]
    } else {
        prev.0.fua_buf + parts[n - 1]
    };
    if n == 1 {
        assert(buf =~= seq![nal[0]] + nal.drop_first());
    } else {
        assert(prev.0.fua_buf == seq![nal[0]] + flatten_bytes(parts.take(n - 1)));
        assert(flatten_bytes(parts.take(n - 1)) == flatten_bytes(parts.drop_last()));
        assert(buf =~= seq![nal[0]] + nal.drop_first());
    }
    assert(buf =~= nal);
    let base = DepacketizerModel { current_ts: ts, ..prev.0 };
    assert(nal_type_of(p[0]) == NAL_TYPE_FU_A);
    let fu = after_fu_a(base, p);
    assert(fu == with_nal(DepacketizerModel { fua_buf: Seq::empty(), fua_active: false, ..base }, buf));
    assert(fu.current_data =~= st.current_data + avcc_frame(nal));
    let r = push_all(st, pkts);
    assert(r.1 =~= seq![
        AccessUnitModel {
            data: st.current_data + avcc_frame(nal),
            timestamp: ts,
            keyframe: st.current_keyframe || nal_type_of(nal[0]) == NAL_TYPE_IDR,
        },
    ]);
}

/// `n` as two big-endian bytes.
pub open spec fn be16_bytes(n: nat) -> Seq<u8> {
    seq![(n / 256) as u8, (n % 256) as u8]
}

/// The body of a STAP-A payload after its header byte: each NAL unit preceded
/// by its 16-bit big-endian size.
pub open spec fn stap_a_body(nals: Seq<Seq<u8>>) -> Seq<u8>
    decreases nals.len(),
{
    if nals.len() == 0 {
        Seq::empty()
    } else {
        be16_bytes(nals[0].len()) + nals[0] + stap_a_body(nals.drop_first())
    }
}

/// The NAL units of `nals`, each in AVCC form, concatenated.
pub open spec fn avcc_stream(nals: Seq<Seq<u8>>) -> Seq<u8>
    decreases nals.len(),
{
    if nals.len() == 0 {
        Seq::empty()
    } else {
        avcc_frame(nals[0]) + avcc_stream(nals.drop_first())
    }
}

/// Some NAL unit of `nals` is an IDR slice.
pub open spec fn has_idr(nals: Seq<Seq<u8>>) -> bool {
    exists|i: int| 0 <= i < nals.len() && nal_type_of(#[trigger] nals[i][0]) == NAL_TYPE_IDR
}

/// Every NAL unit is non-empty and short enough for a STAP-A size field.
pub open spec fn aggregatable(nals: Seq<Seq<u8>>) -> bool {
    forall|i: int| 0 <= i < nals.len() ==> 0 < (#[trigger] nals[i]).len() < 0x10000
}

proof fn lemma_stap_a_units_of_body(p: Seq<u8>, offset: int, nals: Seq<Seq<u8>>)
    requires
        0 <= offset <= p.len(),
        p.subrange(offset, p.len() as int) == stap_a_body(nals),
        aggregatable(nals),
    ensures
        stap_a_units(p, offset) == nals,
    decreases nals.len(),
{
    let q = p.subrange(offset, p.len() as int);
    if nals.len() == 0 {
        assert(stap_a_body(nals) =~= Seq::<u8>::empty());
        assert(q.len() == 0);
        assert(stap_a_units(p, offset) =~= nals);
    } else {
        let n: int = nals[0].len() as int;
        let rest = nals.drop_first();
        assert(q == be16_bytes(n as nat) + nals[0] + stap_a_body(rest));
        assert(q.len() >= 2 + n);
        assert(p[offset] == q[0]);
        assert(p[offset + 1] == q[1]);
        assert(be16_at(p, offset) == n) by {
            assert(n < 0x10000);
            assert((n / 256) as u8 == n / 256);
            assert((n % 256) as u8 == n % 256);
        }
        let start = offset + 2;
        assert(p.subrange(start, start + n) =~= q.subrange(2, 2 + n));
        assert(q.subrange(2, 2 + n) =~= nals[0]);
        assert(p.subrange(start + n, p.len() as int) =~= q.subrange(2 + n, q.len() as int));
        assert(q.subrange(2 + n, q.len() as int) =~= stap_a_body(rest));
        assert forall|i: int| 0 <= i < rest.len() implies 0 < (#[trigger] rest[i]).len() < 0x10000 by {
            assert(rest[i] == nals[i + 1]);
        }
        lemma_stap_a_units_of_body(p, start + n, rest);
        assert(stap_a_units(p, offset) =~= seq![nals[0]] + rest);
        assert(seq![nals[0]] + rest =~= nals);
    }
}

proof fn lemma_with_nals_appends(st: DepacketizerModel, nals: Seq<Seq<u8>>)
    requires
        aggregatable(nals),
    ensures
        with_nals(st, nals).current_data == st.current_data + avcc_stream(nals),
        with_nals(st, nals).current_keyframe == (st.current_keyframe || has_idr(nals)),
        with_nals(st, nals).current_ts == st.current_ts,
    decreases nals.len(),
{
    if nals.len() == 0 {
        assert(st.current_data + avcc_stream(nals) =~= st.current_data);
    } else {
        let rest = nals.drop_first();
        assert forall|i: int| 0 <= i < rest.len() implies 0 < (#[trigger] rest[i]).len() < 0x10000 by {
            assert(rest[i] == nals[i + 1]);
        }
        lemma_with_nals_appends(with_nal(st, nals[0]), rest);
        assert(st.current_data + avcc_frame(nals[0]) + avcc_stream(rest) =~= st.current_data
            + avcc_stream(nals));
        if has_idr(nals) && nal_type_of(nals[0][0]) != NAL_TYPE_IDR {
            let i = choose|i: int| 0 <= i < nals.len() && nal_type_of(#[trigger] nals[i][0]) == NAL_TYPE_IDR;
            assert(rest[i - 1] == nals[i]);
        }
        if has_idr(rest) {
            let i = choose|i: int| 0 <= i < rest.len() && nal_type_of(#[trigger] rest[i][0]) == NAL_TYPE_IDR;
            assert(nals[i + 1] == rest[i]);
        }
    }
}

/// STAP-A de-aggregation undoes aggregation: NAL units packed into one STAP-A
/// packet with the marker bit, pushed into an idle depacketizer, come out as
/// one access unit holding each of them in AVCC form, in order, marked as a
/// keyframe exactly when one of them is an IDR slice.
pub proof fn lemma_stap_a_splits_nals(
    st: DepacketizerModel,
    header: u8,
    nals: Seq<Seq<u8>>,
    ts: u32,
)
    requires
        consistent(st),
        is_idle(st),
        nal_type_of(header) == NAL_TYPE_STAP_A,
        nals.len() >= 1,
        aggregatable(nals),
    ensures
        after_push(st, seq![header] + stap_a_body(nals), ts, true).1 == Some(
            AccessUnitModel { data: avcc_stream(nals), timestamp: ts, keyframe: has_idr(nals) },
        ),
        is_idle(after_push(st, seq![header] + stap_a_body(nals), ts, true).0),
{
    let p = seq![header] + stap_a_body(nals);
    assert(p.subrange(1, p.len() as int) =~= stap_a_body(nals));
    lemma_stap_a_units_of_body(p, 1, nals);
    let base = DepacketizerModel { current_ts: ts, ..st };
    lemma_with_nals_appends(base, nals);
    assert(avcc_stream(nals).len() > 0) by {
        assert(avcc_stream(nals) == avcc_frame(nals[0]) + avcc_stream(nals.drop_first()));
    }
    assert(st.current_data + avcc_stream(nals) =~= avcc_stream(nals));
}

/// A NAL unit sent whole in one packet with the marker bit, pushed into an
/// idle depacketizer, comes out as one access unit holding it in AVCC form.
pub proof fn lemma_single_nal_is_one_access_unit(st: DepacketizerModel, nal: Seq<u8>, ts: u32)
    requires
        consistent(st),
        is_idle(st),
        nal.len() >= 1,
        1 <= nal_type_of(nal[0]) <= 23,
    ensures
        after_push(st, nal, ts, true).1 == Some(
            AccessUnitModel {
                data: avcc_frame(nal),
                timestamp: ts,
                keyframe: nal_type_of(nal[0]) == NAL_TYPE_IDR,
            },
        ),
        is_idle(after_push(st, nal, ts, true).0),
{
    assert(st.current_data + avcc_frame(nal) =~= avcc_frame(nal));
}

/// Data gathered under one timestamp never reaches an access unit of another:
/// a packet with a new timestamp acts as if nothing had been gathered.
pub proof fn lemma_new_timestamp_drops_partial_unit(
    st: DepacketizerModel,
    p: Seq<u8>,
    ts: u32,
    marker: bool,
)
    requires
        consistent(st),
        st.current_ts != ts,
        p.len() > 0,
    ensures
        after_push(st, p, ts, marker) == after_push(
            DepacketizerModel { current_data: Seq::empty(), current_keyframe: false, ..st },
            p,
            ts,
            marker,
        ),
{
    if st.current_data.len() == 0 {
        assert(st.current_data =~= Seq::<u8>::empty());
        assert(st == DepacketizerModel { current_data: Seq::empty(), current_keyframe: false, ..st });
    }
}


/// The stored parameter sets are of their kinds: the SPS a non-empty NAL
/// unit of type 7, the PPS one of type 8.
pub open spec fn parameter_sets_typed(st: DepacketizerModel) -> bool {
    &&& st.sps matches Some(s) ==> s.len() > 0 && nal_type_of(s[0]) == NAL_TYPE_SPS
    &&& st.pps matches Some(s) ==> s.len() > 0 && nal_type_of(s[0]) == NAL_TYPE_PPS
}

proof fn lemma_with_nals_typed(st: DepacketizerModel, nals: Seq<Seq<u8>>)
    requires
        parameter_sets_typed(st),
        aggregatable(nals),
    ensures
        parameter_sets_typed(with_nals(st, nals)),
        st.sps is Some ==> with_nals(st, nals).sps is Some,
        st.pps is Some ==> with_nals(st, nals).pps is Some,
    decreases nals.len(),
{
    if nals.len() > 0 {
        let rest = nals.drop_first();
        assert forall|i: int| 0 <= i < rest.len() implies 0 < (#[trigger] rest[i]).len() < 0x10000 by {
            assert(rest[i] == nals[i + 1]);
        }
        lemma_with_nals_typed(with_nal(st, nals[0]), rest);
    }
}

/// The depacketizer only ever stores an SPS as its SPS and a PPS as its
/// PPS, and never clears them: every push keeps the stored parameter sets of
/// their kinds, and one stored stays stored (it may be replaced by a newer
/// one).
pub proof fn lemma_push_keeps_parameter_sets_typed(st: DepacketizerModel, p: Seq<u8>, ts: u32, marker: bool)
    requires
        consistent(st),
        parameter_sets_typed(st),
    ensures
        parameter_sets_typed(after_push(st, p, ts, marker).0),
        st.sps is Some ==> after_push(st, p, ts, marker).0.sps is Some,
        st.pps is Some ==> after_push(st, p, ts, marker).0.pps is Some,
{
    if p.len() > 0 {
        let st1 = if st.current_data.len() > 0 && st.current_ts != ts {
            DepacketizerModel { current_data: Seq::empty(), current_keyframe: false, ..st }
        } else {
            st
        };
        let st2 = DepacketizerModel { current_ts: ts, ..st1 };
        let t = nal_type_of(p[0]);
        if t == NAL_TYPE_STAP_A {
            lemma_stap_a_units_aggregatable(p, 1);
            lemma_with_nals_typed(st2, stap_a_units(p, 1));
        }
    }
}

/// The big-endian value of the four bytes at the start of `b`.
pub open spec fn be32_value(b: Seq<u8>) -> int {
    b[0] as int * 0x1000000 + b[1] as int * 0x10000 + b[2] as int * 0x100 + b[3] as int
}

/// `data` is a sequence of AVCC frames: each a four-byte big-endian length
/// followed by that many bytes, none of them empty.
pub open spec fn is_avcc_stream(data: Seq<u8>) -> bool
    decreases data.len(),
{
    if data.len() == 0 {
        true
    } else if data.len() < 4 {
        false
    } else {
        let n = be32_value(data);
        0 < n && 4 + n <= data.len() && is_avcc_stream(data.skip(4 + n))
    }
}

proof fn lemma_be32_round_trip(n: u32)
    ensures
        be32_value(be32_bytes(n)) == n,
{
    let b0 = (n >> 24u32) as u8;
    let b1 = (n >> 16u32) as u8;
    let b2 = (n >> 8u32) as u8;
    let b3 = n as u8;
    assert(b0 as u32 * 0x1000000u32 + b1 as u32 * 0x10000u32 + b2 as u32 * 0x100u32 + b3 as u32 == n)
        by (bit_vector)
        requires
            b0 == (n >> 24u32) as u8,
            b1 == (n >> 16u32) as u8,
            b2 == (n >> 8u32) as u8,
            b3 == n as u8,
    ;
}

proof fn lemma_avcc_append(a: Seq<u8>, nal: Seq<u8>)
    requires
        is_avcc_stream(a),
        0 < nal.len() < 0x1_0000_0000,
    ensures
        is_avcc_stream(a + avcc_frame(nal)),
    decreases a.len(),
{
    let f = avcc_frame(nal);
    let hb = be32_bytes(nal.len() as u32);
    lemma_be32_round_trip(nal.len() as u32);
    assert(f[0] == hb[0] && f[1] == hb[1] && f[2] == hb[2] && f[3] == hb[3]);
    assert(be32_value(f) == nal.len());
    let g = a + f;
    if a.len() == 0 {
        assert(g =~= f);
        assert(f.skip(4 + nal.len() as int) =~= Seq::<u8>::empty());
        assert(is_avcc_stream(Seq::<u8>::empty()));
        assert(is_avcc_stream(f));
    } else {
        assert(a.len() >= 4);
        let n = be32_value(a);
        assert(0 < n && 4 + n <= a.len());
        let rest = a.skip(4 + n);
        assert(is_avcc_stream(rest));
        lemma_avcc_append(rest, nal);
        assert(g.skip(4 + n) =~= rest + f);
        assert(g[0] == a[0] && g[1] == a[1] && g[2] == a[2] && g[3] == a[3]);
        assert(be32_value(g) == n);
        assert(is_avcc_stream(g));
    }
}

proof fn lemma_with_nals_avcc(st: DepacketizerModel, nals: Seq<Seq<u8>>)
    requires
        is_avcc_stream(st.current_data),
        aggregatable(nals),
    ensures
        is_avcc_stream(with_nals(st, nals).current_data),
    decreases nals.len(),
{
    if nals.len() > 0 {
        let rest = nals.drop_first();
        assert forall|i: int| 0 <= i < rest.len() implies 0 < (#[trigger] rest[i]).len() < 0x10000 by {
            assert(rest[i] == nals[i + 1]);
        }
        lemma_avcc_append(st.current_data, nals[0]);
        lemma_with_nals_avcc(with_nal(st, nals[0]), rest);
    }
}

proof fn lemma_stap_a_units_aggregatable(p: Seq<u8>, offset: int)
    ensures
        aggregatable(stap_a_units(p, offset)),
    decreases p.len() - offset,
{
    if !(offset < 0 || offset + 2 > p.len()) {
        let size = be16_at(p, offset);
        let start = offset + 2;
        if start + size <= p.len() {
            lemma_stap_a_units_aggregatable(p, start + size);
            let nal = p.subrange(start, start + size);
            let rest = stap_a_units(p, start + size);
            if nal.len() > 0 {
                let all = seq![nal] + rest;
                assert forall|i: int| 0 <= i < all.len() implies 0 < (#[trigger] all[i]).len() < 0x10000 by {
                    if i > 0 {
                        assert(all[i] == rest[i - 1]);
                    }
                }
            }
        }
    }
}

/// Access units are always well-formed AVCC: as long as no NAL unit
/// reaches 4 GiB (the largest a four-byte length prefix can describe), the
/// gathered data stays a sequence of length-prefixed, non-empty NAL units, and
/// every access unit handed out is such a sequence and not empty.
pub proof fn lemma_access_units_are_avcc(st: DepacketizerModel, p: Seq<u8>, ts: u32, marker: bool)
    requires
        consistent(st),
        is_avcc_stream(st.current_data),
        st.fua_buf.len() + p.len() < 0x1_0000_0000,
    ensures
        is_avcc_stream(after_push(st, p, ts, marker).0.current_data),
        after_push(st, p, ts, marker).1 matches Some(au) ==> au.data.len() > 0 && is_avcc_stream(
            au.data,
        ),
{
    assert(is_avcc_stream(Seq::<u8>::empty()));
    if p.len() > 0 {
        let st1 = if st.current_data.len() > 0 && st.current_ts != ts {
            DepacketizerModel { current_data: Seq::empty(), current_keyframe: false, ..st }
        } else {
            st
        };
        let st2 = DepacketizerModel { current_ts: ts, ..st1 };
        assert(is_avcc_stream(st2.current_data));
        let t = nal_type_of(p[0]);
        let st4 = after_payload(st2, p);
        if 1 <= t <= 23 {
            lemma_avcc_append(st2.current_data, p);
        } else if t == NAL_TYPE_STAP_A {
            lemma_stap_a_units_aggregatable(p, 1);
            lemma_with_nals_avcc(st2, stap_a_units(p, 1));
        } else if t == NAL_TYPE_FU_A && p.len() >= 2 {
            let indicator = p[0];
            let header = p[1];
            let rest = p.subrange(2, p.len() as int);
            let start = header & 0x80 != 0;
            let st3 = if start {
                DepacketizerModel {
                    fua_buf: seq![(indicator & 0xE0) | (header & 0x1F)] + rest,
                    fua_active: true,
                    ..st2
                }
            } else if st2.fua_active {
                DepacketizerModel { fua_buf: st2.fua_buf + rest, ..st2 }
            } else {
                st2
            };
            assert(st3.fua_buf.len() < 0x1_0000_0000);
            assert(st3.fua_active ==> st3.fua_buf.len() > 0);
            if st3.fua_active && st3.fua_buf.len() > 0 {
                lemma_avcc_append(st2.current_data, st3.fua_buf);
            }
            assert(is_avcc_stream(after_fu_a(st2, p).current_data));
        }
        assert(is_avcc_stream(st4.current_data));
    }
}

/// Some NAL unit of an AVCC stream is an IDR slice.
pub open spec fn avcc_has_idr(data: Seq<u8>) -> bool
    decreases data.len(),
{
    if data.len() < 4 {
        false
    } else {
        let n = be32_value(data);
        if 0 < n && 4 + n <= data.len() {
            nal_type_of(data[4]) == NAL_TYPE_IDR || avcc_has_idr(data.skip(4 + n))
        } else {
            false
        }
    }
}

/// The gathered data is a sequence of AVCC frames, and the keyframe flag is
/// raised exactly when one of them is an IDR slice.
pub open spec fn framed(st: DepacketizerModel) -> bool {
    &&& is_avcc_stream(st.current_data)
    &&& st.current_keyframe == avcc_has_idr(st.current_data)
}

proof fn lemma_avcc_append_idr(a: Seq<u8>, nal: Seq<u8>)
    requires
        is_avcc_stream(a),
        0 < nal.len() < 0x1_0000_0000,
    ensures
        avcc_has_idr(a + avcc_frame(nal)) == (avcc_has_idr(a) || nal_type_of(nal[0]) == NAL_TYPE_IDR),
    decreases a.len(),
{
    let f = avcc_frame(nal);
    let hb = be32_bytes(nal.len() as u32);
    lemma_be32_round_trip(nal.len() as u32);
    assert(f[0] == hb[0] && f[1] == hb[1] && f[2] == hb[2] && f[3] == hb[3]);
    assert(be32_value(f) == nal.len());
    let g = a + f;
    if a.len() == 0 {
        assert(g =~= f);
        assert(f[4] == nal[0]);
        assert(f.skip(4 + nal.len() as int) =~= Seq::<u8>::empty());
        assert(!avcc_has_idr(Seq::<u8>::empty()));
    } else {
        let n = be32_value(a);
        let rest = a.skip(4 + n);
        lemma_avcc_append_idr(rest, nal);
        assert(g.skip(4 + n) =~= rest + f);
        assert(g[0] == a[0] && g[1] == a[1] && g[2] == a[2] && g[3] == a[3]);
        assert(g[4] == a[4]);
        assert(be32_value(g) == n);
    }
}

proof fn lemma_with_nal_framed(st: DepacketizerModel, nal: Seq<u8>)
    requires
        framed(st),
        0 < nal.len() < 0x1_0000_0000,
    ensures
        framed(with_nal(st, nal)),
{
    lemma_avcc_append(st.current_data, nal);
    lemma_avcc_append_idr(st.current_data, nal);
}

proof fn lemma_with_nals_framed(st: DepacketizerModel, nals: Seq<Seq<u8>>)
    requires
        framed(st),
        aggregatable(nals),
    ensures
        framed(with_nals(st, nals)),
        with_nals(st, nals).fua_buf == st.fua_buf,
    decreases nals.len(),
{
    if nals.len() > 0 {
        let rest = nals.drop_first();
        assert forall|i: int| 0 <= i < rest.len() implies 0 < (#[trigger] rest[i]).len() < 0x10000 by {
            assert(rest[i] == nals[i + 1]);
        }
        lemma_with_nal_framed(st, nals[0]);
        lemma_with_nals_framed(with_nal(st, nals[0]), rest);
    }
}

/// One push keeps the gathered data framed and the keyframe flag exact, and
/// every access unit it hands out is non-empty AVCC data flagged as a
/// keyframe exactly when it holds an IDR slice; the fragment buffer grows by
/// at most the payload. This holds while no NAL unit reaches 4 GiB, the
/// largest a four-byte length prefix describes.
pub proof fn lemma_push_keeps_framing(st: DepacketizerModel, p: Seq<u8>, ts: u32, marker: bool)
    requires
        consistent(st),
        framed(st),
        st.fua_buf.len() + p.len() < 0x1_0000_0000,
    ensures
        consistent(after_push(st, p, ts, marker).0),
        framed(after_push(st, p, ts, marker).0),
        after_push(st, p, ts, marker).0.fua_buf.len() <= st.fua_buf.len() + p.len(),
        after_push(st, p, ts, marker).1 matches Some(au) ==> au.data.len() > 0 && is_avcc_stream(au.data)
            && au.keyframe == avcc_has_idr(au.data),
{
    assert(is_avcc_stream(Seq::<u8>::empty()));
    assert(!avcc_has_idr(Seq::<u8>::empty()));
    if p.len() > 0 {
        let st1 = if st.current_data.len() > 0 && st.current_ts != ts {
            DepacketizerModel { current_data: Seq::empty(), current_keyframe: false, ..st }
        } else {
            st
        };
        let st2 = DepacketizerModel { current_ts: ts, ..st1 };
        assert(framed(st2));
        lemma_after_payload_consistent(st2, p);
        let t = nal_type_of(p[0]);
        if 1 <= t <= 23 {
            lemma_with_nal_framed(st2, p);
        } else if t == NAL_TYPE_STAP_A {
            lemma_stap_a_units_aggregatable(p, 1);
            lemma_with_nals_framed(st2, stap_a_units(p, 1));
            lemma_with_nals_consistent(st2, stap_a_units(p, 1));
        } else if t == NAL_TYPE_FU_A && p.len() >= 2 {
            let indicator = p[0];
            let header = p[1];
            let rest = p.subrange(2, p.len() as int);
            let start = header & 0x80 != 0;
            let st3 = if start {
                DepacketizerModel {
                    fua_buf: seq![(indicator & 0xE0) | (header & 0x1F)] + rest,
                    fua_active: true,
                    ..st2
                }
            } else if st2.fua_active {
                DepacketizerModel { fua_buf: st2.fua_buf + rest, ..st2 }
            } else {
                st2
            };
            assert(st3.fua_buf.len() < 0x1_0000_0000);
            if st3.fua_active {
                lemma_with_nal_framed(DepacketizerModel { fua_buf: Seq::empty(), fua_active: false, ..st3 }, st3.fua_buf);
            }
            assert(framed(after_fu_a(st2, p)));
        }
    }
}

/// The model of a freshly made depacketizer.
pub open spec fn initial_model() -> DepacketizerModel {
    DepacketizerModel {
        current_data: Seq::empty(),
        current_ts: 0,
        current_keyframe: false,
        fua_buf: Seq::empty(),
        fua_active: false,
        sps: None,
        pps: None,
    }
}

/// The payload bytes of `packets`.
pub open spec fn packets_len(packets: Seq<RtpPacketModel>) -> nat
    decreases packets.len(),
{
    if packets.len() == 0 {
        0
    } else {
        packets_len(packets.drop_last()) + packets.last().payload.len()
    }
}

/// Over every run of a fresh depacketizer, every access unit handed out is
/// non-empty AVCC data (each NAL unit behind its four-byte big-endian
/// length) flagged as a keyframe exactly when it holds an IDR slice, and the
/// stored parameter sets are of their kinds. Runs of 4 GiB of payload or
/// more, where a four-byte length prefix can no longer describe a NAL unit,
/// are left out.
pub proof fn lemma_reachable_units_are_framed(packets: Seq<RtpPacketModel>)
    requires
        packets_len(packets) < 0x1_0000_0000,
    ensures
        ({
            let (st, units) = push_all(initial_model(), packets);
            &&& consistent(st)
            &&& framed(st)
            &&& parameter_sets_typed(st)
            &&& st.fua_buf.len() <= packets_len(packets)
            &&& forall|i: int|
                0 <= i < units.len() ==> (#[trigger] units[i]).data.len() > 0 && is_avcc_stream(units[i].data)
                    && units[i].keyframe == avcc_has_idr(units[i].data)
        }),
    decreases packets.len(),
{
    if packets.len() == 0 {
        assert(is_avcc_stream(Seq::<u8>::empty()));
        assert(!avcc_has_idr(Seq::<u8>::empty()));
    } else {
        let prev = packets.drop_last();
        lemma_reachable_units_are_framed(prev);
        let (st, units) = push_all(initial_model(), prev);
        let pkt = packets.last();
        lemma_push_keeps_framing(st, pkt.payload, pkt.timestamp, pkt.marker);
        lemma_push_keeps_parameter_sets_typed(st, pkt.payload, pkt.timestamp, pkt.marker);
        let (st2, units2) = push_all(initial_model(), packets);
        assert forall|i: int| 0 <= i < units2.len() implies (#[trigger] units2[i]).data.len() > 0
            && is_avcc_stream(units2[i].data) && units2[i].keyframe == avcc_has_idr(units2[i].data) by {
            if i < units.len() {
                assert(units2[i] == units[i]);
            }
        }
    }
}

/// Gathering only ever appends: a packet with the timestamp of the access
/// unit being gathered keeps the data gathered so far in front, whether the
/// access unit stays open or is handed out, and a raised keyframe flag stays
/// raised.
pub proof fn lemma_push_extends_gathered_data(st: DepacketizerModel, p: Seq<u8>, ts: u32, marker: bool)
    requires
        consistent(st),
        st.current_ts == ts,
    ensures
        ({
            let (next, out) = after_push(st, p, ts, marker);
            let data = match out {
                Some(au) => au.data,
                None => next.current_data,
            };
            let keyframe = match out {
                Some(au) => au.keyframe,
                None => next.current_keyframe,
            };
            &&& st.current_data.len() <= data.len()
            &&& data.subrange(0, st.current_data.len() as int) == st.current_data
            &&& st.current_keyframe ==> keyframe
        }),
{
    if p.len() > 0 {
        let st2 = DepacketizerModel { current_ts: ts, ..st };
        let t = nal_type_of(p[0]);
        let after = after_payload(st2, p);
        if 1 <= t <= 23 {
            assert((st.current_data + avcc_frame(p)).subrange(0, st.current_data.len() as int)
                =~= st.current_data);
        } else if t == NAL_TYPE_STAP_A {
            lemma_stap_a_units_aggregatable(p, 1);
            lemma_with_nals_appends(st2, stap_a_units(p, 1));
            assert((st.current_data + avcc_stream(stap_a_units(p, 1))).subrange(0, st.current_data.len() as int)
                =~= st.current_data);
        } else if t == NAL_TYPE_FU_A && p.len() >= 2 {
            let fu = after_fu_a(st2, p);
            assert(fu.current_data.subrange(0, st.current_data.len() as int) =~= st.current_data);
        } else {
            assert(after.current_data.subrange(0, st.current_data.len() as int) =~= st.current_data);
        }
    } else {
        assert(st.current_data.subrange(0, st.current_data.len() as int) =~= st.current_data);
    }
}

} // verus!
