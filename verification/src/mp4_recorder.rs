use shiguredo_mp4::boxes::{Avc1Box, AvccBox, SampleEntry, VisualSampleEntryFields};
use shiguredo_mp4::mux::{Mp4FileMuxer, Mp4FileMuxerOptions, Sample};
use shiguredo_mp4::{TrackKind, Uint};
use std::num::NonZeroU32;
use std::time::Duration;
use vstd::prelude::*;

use crate::error::AppError;
use crate::h264_depacketizer::{nal_type_of, AccessUnit, AccessUnitModel, NAL_TYPE_PPS, NAL_TYPE_SPS};

verus! {

/// Timescale of the video track: 90 kHz, the RTP clock rate of H.264.
pub const VIDEO_TIMESCALE: u32 = 90000;

/// Longest parameter set accepted, in bytes.
pub const MAX_PARAMETER_SET_LEN: usize = 2048;

/// `avcC` length field: NAL units carry four-byte length prefixes, as the
/// depacketizer writes them.
pub const AVCC_LENGTH_SIZE_MINUS_ONE: u8 = 3;

/// Duration given to the last sample, which has no successor to measure by
/// (one thirtieth of a second at 90 kHz).
pub const LAST_SAMPLE_DURATION: u32 = 3000;

/// A parameter set of the expected NAL unit type and of acceptable length.
pub open spec fn valid_parameter_set(nal: Seq<u8>, expected_type: u8) -> bool {
    0 < nal.len() <= MAX_PARAMETER_SET_LEN && nal_type_of(nal[0]) == expected_type
}

/// Whether `nal` is a usable parameter set of type `expected_type`.
pub fn is_valid_parameter_set(nal: &[u8], expected_type: u8) -> (r: bool)
    ensures
        r == valid_parameter_set(nal@, expected_type),
{
    if nal.len() == 0 || nal.len() > MAX_PARAMETER_SET_LEN {
        return false;
    }
    (nal[0] & 0x1F) == expected_type
}

/// The fields of a sequence parameter set that the sample entry needs.
#[derive(Debug, Clone, Copy, PartialEq, Eq)]
pub struct SpsInfo {
    pub profile_idc: u8,
    pub profile_compatibility: u8,
    pub level_idc: u8,
    pub chroma_format_idc: u8,
    pub bit_depth_luma_minus8: u8,
    pub bit_depth_chroma_minus8: u8,
    pub width: u16,
    pub height: u16,
}

/// The `avc1` sample entry of the video track, as plain values.
pub struct AvcSampleEntry {
    pub profile_idc: u8,
    pub profile_compatibility: u8,
    pub level_idc: u8,
    pub length_size_minus_one: u8,
    pub chroma_format: Option<u8>,
    pub bit_depth_luma_minus8: Option<u8>,
    pub bit_depth_chroma_minus8: Option<u8>,
    pub sps: Vec<u8>,
    pub pps: Vec<u8>,
    pub width: u16,
    pub height: u16,
}

/// The content of an [`AvcSampleEntry`].
pub struct AvcEntryModel {
    pub profile_idc: u8,
    pub profile_compatibility: u8,
    pub level_idc: u8,
    pub length_size_minus_one: u8,
    pub chroma_format: Option<u8>,
    pub bit_depth_luma_minus8: Option<u8>,
    pub bit_depth_chroma_minus8: Option<u8>,
    pub sps: Seq<u8>,
    pub pps: Seq<u8>,
    pub width: u16,
    pub height: u16,
}

impl View for AvcSampleEntry {
    type V = AvcEntryModel;

    open spec fn view(&self) -> AvcEntryModel {
        AvcEntryModel {
            profile_idc: self.profile_idc,
            profile_compatibility: self.profile_compatibility,
            level_idc: self.level_idc,
            length_size_minus_one: self.length_size_minus_one,
            chroma_format: self.chroma_format,
            bit_depth_luma_minus8: self.bit_depth_luma_minus8,
            bit_depth_chroma_minus8: self.bit_depth_chroma_minus8,
            sps: self.sps@,
            pps: self.pps@,
            width: self.width,
            height: self.height,
        }
    }
}

/// Baseline (66), Main (77) and Extended (88) profiles carry no chroma and
/// bit-depth fields in `avcC`; every other profile does.
pub open spec fn is_high_profile(profile_idc: u8) -> bool {
    !(profile_idc == 66 || profile_idc == 77 || profile_idc == 88)
}

/// The sample entry built from a parsed SPS and the parameter sets.
pub open spec fn sample_entry_model(info: SpsInfo, sps: Seq<u8>, pps: Seq<u8>) -> AvcEntryModel {
    let high = is_high_profile(info.profile_idc);
    AvcEntryModel {
        profile_idc: info.profile_idc,
        profile_compatibility: info.profile_compatibility,
        level_idc: info.level_idc,
        length_size_minus_one: AVCC_LENGTH_SIZE_MINUS_ONE,
        chroma_format: if high { Some(info.chroma_format_idc) } else { None },
        bit_depth_luma_minus8: if high { Some(info.bit_depth_luma_minus8) } else { None },
        bit_depth_chroma_minus8: if high { Some(info.bit_depth_chroma_minus8) } else { None },
        sps,
        pps,
        width: info.width,
        height: info.height,
    }
}

/// A sample to append to the file and register with the muxer.
pub struct VideoSampleWrite {
    pub data: Vec<u8>,
    pub keyframe: bool,
    pub duration: u32,
    pub data_offset: u64,
    pub sample_entry: Option<AvcSampleEntry>,
}

/// The content of a [`VideoSampleWrite`].
pub struct SampleModel {
    pub data: Seq<u8>,
    pub keyframe: bool,
    pub duration: u32,
    pub data_offset: u64,
    pub sample_entry: Option<AvcEntryModel>,
}

impl View for VideoSampleWrite {
    type V = SampleModel;

    open spec fn view(&self) -> SampleModel {
        SampleModel {
            data: self.data@,
            keyframe: self.keyframe,
            duration: self.duration,
            data_offset: self.data_offset,
            sample_entry: match self.sample_entry {
                Some(e) => Some(e@),
                None => None,
            },
        }
    }
}

/// `shiguredo_mp4::mux::Mp4FileMuxer`, carried as an opaque value.
#[verifier::external_type_specification]
#[verifier::external_body]
pub struct ExMp4FileMuxer(Mp4FileMuxer);

/// `shiguredo_mp4::boxes::AvccBox`, carried as an opaque value.
#[verifier::external_type_specification]
#[verifier::external_body]
pub struct ExAvccBox(AvccBox);

/// `shiguredo_mp4::boxes::SampleEntry`, carried as an opaque value.
#[verifier::external_type_specification]
#[verifier::external_body]
pub struct ExSampleEntry(SampleEntry);

/// The muxer that `Mp4FileMuxer::with_options` makes for a creation time,
/// `None` where it fails.
pub uninterp spec fn muxer_created(creation_timestamp: Duration) -> Option<Mp4FileMuxer>;

/// The file position at which `m` expects the data of the next sample.
pub uninterp spec fn muxer_position(m: Mp4FileMuxer) -> u64;

/// The bytes that `m` asks to be written at the start of the file
/// (`Mp4FileMuxer::initial_boxes_bytes`).
pub uninterp spec fn muxer_initial_bytes(m: Mp4FileMuxer) -> Seq<u8>;

/// The `avcC` box built from the fields of a sample entry.
pub uninterp spec fn avcc_box_of(e: AvcEntryModel) -> AvccBox;

/// The `avc1` sample entry built from an `avcC` box and the picture size.
pub uninterp spec fn avc1_entry_of(avcc: AvccBox, width: u16, height: u16) -> SampleEntry;

/// A byte range that finishing the file writes over: `bytes` at `offset`.
pub struct BoxWrite {
    pub offset: u64,
    pub bytes: Vec<u8>,
}

/// The content of a [`BoxWrite`].
pub struct BoxWriteModel {
    pub offset: u64,
    pub bytes: Seq<u8>,
}

impl View for BoxWrite {
    type V = BoxWriteModel;

    open spec fn view(&self) -> BoxWriteModel {
        BoxWriteModel { offset: self.offset, bytes: self.bytes@ }
    }
}

/// The content of each write.
pub open spec fn box_writes_view(v: Seq<BoxWrite>) -> Seq<BoxWriteModel> {
    v.map_values(|w: BoxWrite| w@)
}

/// What `Mp4FileMuxer::finalize` asks to be written over the file for the
/// samples `m` holds, `None` where it fails.
pub uninterp spec fn muxer_finalized(m: Mp4FileMuxer) -> Option<Seq<BoxWriteModel>>;

/// Calls `Mp4FileMuxer::with_options` with the given creation time and
/// otherwise default options. The source sets the muxer's next sample
/// position to the length of its initial boxes. The error text is not stated.
#[verifier::external_body]
fn create_muxer(creation_timestamp: Duration) -> (r: Result<Mp4FileMuxer, String>)
    ensures
        match r {
            Ok(m) => muxer_created(creation_timestamp) == Some(m) && muxer_position(m)
                == muxer_initial_bytes(m).len(),
            Err(_) => muxer_created(creation_timestamp) is None,
        },
{
    let options = Mp4FileMuxerOptions { creation_timestamp, ..Default::default() };
    Mp4FileMuxer::with_options(options).map_err(|e| e.to_string())
}

/// Calls `Mp4FileMuxer::initial_boxes_bytes`.
#[verifier::external_body]
fn initial_bytes_of(m: &Mp4FileMuxer) -> (r: Vec<u8>)
    ensures
        r@ == muxer_initial_bytes(*m),
{
    m.initial_boxes_bytes().to_vec()
}

/// Builds an `AvccBox` from the fields of a sample entry, field for field.
#[verifier::external_body]
fn avcc_box(e: &AvcSampleEntry) -> (r: AvccBox)
    ensures
        r == avcc_box_of(e@),
{
    AvccBox {
        avc_profile_indication: e.profile_idc,
        profile_compatibility: e.profile_compatibility,
        avc_level_indication: e.level_idc,
        length_size_minus_one: Uint::new(e.length_size_minus_one),
        sps_list: vec![e.sps.clone()],
        pps_list: vec![e.pps.clone()],
        chroma_format: e.chroma_format.map(Uint::new),
        bit_depth_luma_minus8: e.bit_depth_luma_minus8.map(Uint::new),
        bit_depth_chroma_minus8: e.bit_depth_chroma_minus8.map(Uint::new),
        sps_ext_list: vec![],
    }
}

/// Builds a `SampleEntry::Avc1` from an `avcC` box and the picture size, with
/// the crate's default visual sample entry fields.
#[verifier::external_body]
fn avc1_entry(avcc_box: AvccBox, width: u16, height: u16) -> (r: SampleEntry)
    ensures
        r == avc1_entry_of(avcc_box, width, height),
{
    SampleEntry::Avc1(Avc1Box {
        visual: VisualSampleEntryFields {
            data_reference_index: VisualSampleEntryFields::DEFAULT_DATA_REFERENCE_INDEX,
            width,
            height,
            horizresolution: VisualSampleEntryFields::DEFAULT_HORIZRESOLUTION,
            vertresolution: VisualSampleEntryFields::DEFAULT_VERTRESOLUTION,
            frame_count: VisualSampleEntryFields::DEFAULT_FRAME_COUNT,
            compressorname: VisualSampleEntryFields::NULL_COMPRESSORNAME,
            depth: VisualSampleEntryFields::DEFAULT_DEPTH,
        },
        avcc_box,
        unknown_boxes: vec![],
    })
}

/// Whether `Mp4FileMuxer::append_sample` takes a video sample without
/// composition time offset, with or without a sample entry, of the given
/// timescale, file offset and size. Its source refuses exactly: a finalized
/// muxer, an offset other than the next position, a size over `u32::MAX`, a
/// sample without entry that starts a chunk of a track without one, a
/// position that would overflow, and a timescale that differs from the
/// track's.
pub uninterp spec fn muxer_accepts(m: Mp4FileMuxer, has_entry: bool, timescale: u32, data_offset: u64, data_size: nat) -> bool;

/// The muxer after `Mp4FileMuxer::append_sample` has taken such a video
/// sample: track kind video, no composition time offset, and the given entry,
/// keyframe flag, timescale, duration, offset and size.
pub uninterp spec fn muxer_after_append(
    m: Mp4FileMuxer,
    sample_entry: Option<SampleEntry>,
    keyframe: bool,
    timescale: u32,
    duration: u32,
    data_offset: u64,
    data_size: nat,
) -> Mp4FileMuxer;

/// Calls `Mp4FileMuxer::append_sample` for a video sample without
/// composition time offset. The source leaves the muxer unchanged on every
/// error (as its documentation says), refuses a sample whose offset is not
/// the muxer's position, and on success moves the position past the sample's
/// data. The error text is not stated.
#[verifier::external_body]
fn append_video_sample(
    m: &mut Mp4FileMuxer,
    sample_entry: Option<SampleEntry>,
    keyframe: bool,
    timescale: u32,
    duration: u32,
    data_offset: u64,
    data_size: usize,
) -> (r: Result<(), String>)
    requires
        timescale > 0,
    ensures
        r is Ok <==> muxer_accepts(*old(m), sample_entry is Some, timescale, data_offset, data_size as nat),
        r is Ok ==> *final(m) == muxer_after_append(
            *old(m),
            sample_entry,
            keyframe,
            timescale,
            duration,
            data_offset,
            data_size as nat,
        ),
        r is Err ==> *final(m) == *old(m),
        data_offset != muxer_position(*old(m)) ==> r is Err,
        r is Ok ==> muxer_position(*final(m)) == data_offset + data_size,
{
    let sample = Sample {
        track_kind: TrackKind::Video,
        sample_entry,
        keyframe,
        timescale: NonZeroU32::new(timescale).expect("timescale is positive"),
        duration,
        composition_time_offset: None,
        data_offset,
        data_size,
    };
    m.append_sample(&sample).map_err(|e| e.to_string())
}

/// Calls `Mp4FileMuxer::finalize` and lists `offset_and_bytes_pairs` of the
/// result. The error text is not stated.
#[verifier::external_body]
fn finalize_muxer(m: &mut Mp4FileMuxer) -> (r: Result<Vec<BoxWrite>, String>)
    ensures
        match r {
            Ok(v) => muxer_finalized(*old(m)) == Some(box_writes_view(v@)),
            Err(_) => muxer_finalized(*old(m)) is None,
        },
{
    match m.finalize() {
        Ok(f) => Ok(f.offset_and_bytes_pairs().map(|(offset, b)| BoxWrite { offset, bytes: b.to_vec() }).collect()),
        Err(e) => Err(e.to_string()),
    }
}

/// An access unit held back until the next one tells its duration.
pub struct PendingAccessUnit {
    pub data: Vec<u8>,
    pub timestamp: u32,
    pub keyframe: bool,
}

/// The content of a [`PendingAccessUnit`].
pub struct PendingModel {
    pub data: Seq<u8>,
    pub timestamp: u32,
    pub keyframe: bool,
}

/// The decisions of the MP4 recorder, as plain values.
pub struct TrackModel {
    pub muxer: Mp4FileMuxer,
    pub sps: Option<Seq<u8>>,
    pub pps: Option<Seq<u8>>,
    pub sps_info: Option<SpsInfo>,
    pub first_sample: bool,
    pub pending: Option<PendingModel>,
    pub file_position: u64,
}

/// Records an H.264 track into an MP4 file: decides which parameter sets it
/// holds, which access unit waits for its duration, which sample carries the
/// sample entry and where in the file each sample's data goes, and keeps the
/// muxer that builds the file's boxes. Writing the bytes is the caller's part.
pub struct Mp4Recorder {
    muxer: Mp4FileMuxer,
    sps: Option<Vec<u8>>,
    pps: Option<Vec<u8>>,
    sps_info: Option<SpsInfo>,
    video_first_sample: bool,
    pending_au: Option<PendingAccessUnit>,
    file_position: u64,
}

/// The content of an optional byte vector.
pub open spec fn option_bytes(o: Option<Vec<u8>>) -> Option<Seq<u8>> {
    match o {
        Some(v) => Some(v@),
        None => None,
    }
}

impl View for Mp4Recorder {
    type V = TrackModel;

    closed spec fn view(&self) -> TrackModel {
        TrackModel {
            muxer: self.muxer,
            sps: option_bytes(self.sps),
            pps: option_bytes(self.pps),
            sps_info: self.sps_info,
            first_sample: self.video_first_sample,
            pending: match self.pending_au {
                Some(p) => Some(PendingModel { data: p.data@, timestamp: p.timestamp, keyframe: p.keyframe }),
                None => None,
            },
            file_position: self.file_position,
        }
    }
}

/// The recorder writes samples only once it holds an SPS, a PPS and the
/// parsed SPS.
pub open spec fn is_configured(st: TrackModel) -> bool {
    st.sps is Some && st.pps is Some && st.sps_info is Some
}

/// The state after emitting a sample of `data`, and the sample: its data goes
/// at the current file position, and only the first sample carries the
/// sample entry.
pub open spec fn emit_sample(st: TrackModel, data: Seq<u8>, keyframe: bool, duration: u32) -> (
    TrackModel,
    SampleModel,
) {
    (
        TrackModel {
            first_sample: false,
            file_position: (st.file_position + data.len()) as u64,
            ..st
        },
        SampleModel {
            data,
            keyframe,
            duration,
            data_offset: st.file_position,
            sample_entry: if st.first_sample {
                Some(sample_entry_model(st.sps_info->Some_0, st.sps->Some_0, st.pps->Some_0))
            } else {
                None
            },
        },
    )
}

/// There is room in the file position for the pending sample.
pub open spec fn pending_fits(st: TrackModel) -> bool {
    st.pending matches Some(p) ==> st.file_position + p.data.len() <= u64::MAX
}

/// The parameter sets held are valid ones of their types.
pub open spec fn holds_valid_parameter_sets(st: TrackModel) -> bool {
    &&& st.sps matches Some(s) ==> valid_parameter_set(s, NAL_TYPE_SPS)
    &&& st.pps matches Some(p) ==> valid_parameter_set(p, NAL_TYPE_PPS)
}

/// Every sample emitted so far has been registered with the muxer: the
/// muxer expects the next sample where the recorder will put it.
pub open spec fn in_step(st: TrackModel) -> bool {
    muxer_position(st.muxer) == st.file_position
}

/// The `avc1` sample entry the muxer is given for a sample's entry, if the
/// sample carries one.
pub open spec fn mux_entry(e: Option<AvcEntryModel>) -> Option<SampleEntry> {
    match e {
        Some(m) => Some(avc1_entry_of(avcc_box_of(m), m.width, m.height)),
        None => None,
    }
}

/// Whether the muxer takes a sample, registered as a video sample of the
/// 90 kHz timescale.
pub open spec fn muxer_takes(m: Mp4FileMuxer, s: SampleModel) -> bool {
    muxer_accepts(m, s.sample_entry is Some, VIDEO_TIMESCALE, s.data_offset, s.data.len())
}

/// The muxer after it has taken a sample: its entry, keyframe flag, the
/// 90 kHz timescale, its duration, offset and size.
pub open spec fn muxer_with(m: Mp4FileMuxer, s: SampleModel) -> Mp4FileMuxer {
    muxer_after_append(
        m,
        mux_entry(s.sample_entry),
        s.keyframe,
        VIDEO_TIMESCALE,
        s.duration,
        s.data_offset,
        s.data.len(),
    )
}

/// Writing a sample of `data`: the state once the sample (see
/// [`emit_sample`]) is written and registered with the muxer, or `None`
/// when the muxer refuses it.
pub open spec fn register_sample(st: TrackModel, data: Seq<u8>, keyframe: bool, duration: u32) -> Option<
    TrackModel,
> {
    let (next, s) = emit_sample(st, data, keyframe, duration);
    if muxer_takes(st.muxer, s) {
        Some(TrackModel { muxer: muxer_with(st.muxer, s), ..next })
    } else {
        None
    }
}

/// An access unit held back until the next one tells its duration.
pub open spec fn held_unit(au: AccessUnitModel) -> PendingModel {
    PendingModel { data: au.data, timestamp: au.timestamp, keyframe: au.keyframe }
}

/// Taking the next access unit. Before the recorder is configured nothing
/// happens. Otherwise the unit held back so far, if any, is written with the
/// timestamp difference (modulo 2^32) as its duration, and `au` is held back
/// in its place; `None` when the muxer refuses the written sample.
pub open spec fn step_write(st: TrackModel, au: AccessUnitModel) -> Option<TrackModel> {
    if !is_configured(st) {
        Some(st)
    } else {
        match st.pending {
            None => Some(TrackModel { pending: Some(held_unit(au)), ..st }),
            Some(p) => match register_sample(st, p.data, p.keyframe, au.timestamp.wrapping_sub(p.timestamp)) {
                Some(n) => Some(TrackModel { pending: Some(held_unit(au)), ..n }),
                None => None,
            },
        }
    }
}

/// Ending the recording: the unit still held back, if any, is written with
/// the fixed last-sample duration; `None` when the muxer refuses it.
pub open spec fn final_step(st: TrackModel) -> Option<TrackModel> {
    match st.pending {
        None => Some(st),
        Some(p) => match register_sample(st, p.data, p.keyframe, LAST_SAMPLE_DURATION) {
            Some(n) => Some(TrackModel { pending: None, ..n }),
            None => None,
        },
    }
}

impl Mp4Recorder {
    /// A recorder with a fresh muxer made for `creation_timestamp`; the next
    /// sample's data goes right after the muxer's initial boxes. A muxer that
    /// cannot be made is an `Mp4Mux` error.
    pub fn new(creation_timestamp: Duration) -> (r: Result<Self, AppError>)
        ensures
            match r {
                Ok(rec) => {
                    &&& muxer_created(creation_timestamp) == Some(rec@.muxer)
                    &&& rec@ == (TrackModel {
                        muxer: rec@.muxer,
                        sps: None,
                        pps: None,
                        sps_info: None,
                        first_sample: true,
                        pending: None,
                        file_position: muxer_initial_bytes(rec@.muxer).len() as u64,
                    })
                    &&& in_step(rec@)
                    &&& holds_valid_parameter_sets(rec@)
                },
                Err(e) => muxer_created(creation_timestamp) is None && e is Mp4Mux,
            },
    {
        let muxer = match create_muxer(creation_timestamp) {
            Ok(m) => m,
            Err(msg) => return Err(AppError::Mp4Mux(msg)),
        };
        let initial = initial_bytes_of(&muxer);
        let file_position = initial.len() as u64;
        Ok(
            Mp4Recorder {
                muxer,
                sps: None,
                pps: None,
                sps_info: None,
                video_first_sample: true,
                pending_au: None,
                file_position,
            },
        )
    }

    /// The bytes that go at the start of the file, before any sample data.
    pub fn initial_bytes(&self) -> (r: Vec<u8>)
        ensures
            r@ == muxer_initial_bytes(self@.muxer),
    {
        initial_bytes_of(&self.muxer)
    }

    /// Whether an SPS, a PPS and the parsed SPS are all present.
    pub fn is_configured(&self) -> (r: bool)
        ensures
            r == is_configured(self@),
    {
        self.sps.is_some() && self.pps.is_some() && self.sps_info.is_some()
    }

    /// Whether the next sample emitted carries the sample entry.
    pub fn next_sample_needs_entry(&self) -> (r: bool)
        ensures
            r == self@.first_sample,
    {
        self.video_first_sample
    }

    /// Where the next sample's data goes in the file.
    pub fn file_position(&self) -> (r: u64)
        ensures
            r == self@.file_position,
    {
        self.file_position
    }

    /// The length of the access unit waiting for its duration, if any.
    pub fn pending_len(&self) -> (r: Option<usize>)
        ensures
            match self@.pending {
                Some(p) => r == Some(p.data.len() as usize),
                None => r is None,
            },
    {
        match &self.pending_au {
            Some(p) => Some(p.data.len()),
            None => None,
        }
    }

    /// Installs a new SPS and PPS, with `sps_info` parsed from `sps`; nothing
    /// changes unless both are valid parameter sets of their types.
    pub fn set_sps_pps(&mut self, sps: Vec<u8>, pps: Vec<u8>, sps_info: Option<SpsInfo>)
        ensures
            holds_valid_parameter_sets(old(self)@) ==> holds_valid_parameter_sets(final(self)@),
            final(self)@ == if valid_parameter_set(sps@, NAL_TYPE_SPS) && valid_parameter_set(
                pps@,
                NAL_TYPE_PPS,
            ) {
                TrackModel { sps: Some(sps@), pps: Some(pps@), sps_info, ..old(self)@ }
            } else {
                old(self)@
            },
    {
        if !is_valid_parameter_set(sps.as_slice(), NAL_TYPE_SPS) || !is_valid_parameter_set(
            pps.as_slice(),
            NAL_TYPE_PPS,
        ) {
            return;
        }
        self.sps_info = sps_info;
        self.sps = Some(sps);
        self.pps = Some(pps);
    }

    /// Takes up parameter sets that the depacketizer has seen: a valid SPS
    /// that differs from the current one replaces it together with
    /// `sps_info`, parsed from it; a valid PPS that differs replaces the
    /// current PPS.
    pub fn update_sps_pps_if_available(
        &mut self,
        sps: Option<&Vec<u8>>,
        pps: Option<&Vec<u8>>,
        sps_info: Option<SpsInfo>,
    )
        ensures
            holds_valid_parameter_sets(old(self)@) ==> holds_valid_parameter_sets(final(self)@),
            ({
                let s0 = old(self)@;
                let s1 = match sps {
                    Some(v) => if s0.sps != Some(v@) && valid_parameter_set(v@, NAL_TYPE_SPS) {
                        TrackModel { sps: Some(v@), sps_info, ..s0 }
                    } else {
                        s0
                    },
                    None => s0,
                };
                final(self)@ == match pps {
                    Some(v) => if s1.pps != Some(v@) && valid_parameter_set(v@, NAL_TYPE_PPS) {
                        TrackModel { pps: Some(v@), ..s1 }
                    } else {
                        s1
                    },
                    None => s1,
                }
            }),
    {
        if let Some(new_sps) = sps {
            let differs = match &self.sps {
                Some(cur) => !bytes_equal(cur.as_slice(), new_sps.as_slice()),
                None => true,
            };
            if differs && is_valid_parameter_set(new_sps.as_slice(), NAL_TYPE_SPS) {
                self.sps_info = sps_info;
                self.sps = Some(new_sps.clone());
            }
        }
        if let Some(new_pps) = pps {
            let differs = match &self.pps {
                Some(cur) => !bytes_equal(cur.as_slice(), new_pps.as_slice()),
                None => true,
            };
            if differs && is_valid_parameter_set(new_pps.as_slice(), NAL_TYPE_PPS) {
                self.pps = Some(new_pps.clone());
            }
        }
    }

    /// The sample entry for the first sample.
    fn build_video_sample_entry(&self) -> (r: AvcSampleEntry)
        requires
            is_configured(self@),
        ensures
            r@ == sample_entry_model(self@.sps_info->Some_0, self@.sps->Some_0, self@.pps->Some_0),
    {
        let info = match self.sps_info {
            Some(i) => i,
            None => { return unreached() },
        };
        let sps = match &self.sps {
            Some(v) => v.clone(),
            None => { return unreached() },
        };
        let pps = match &self.pps {
            Some(v) => v.clone(),
            None => { return unreached() },
        };
        let high = !(info.profile_idc == 66 || info.profile_idc == 77 || info.profile_idc == 88);
        AvcSampleEntry {
            profile_idc: info.profile_idc,
            profile_compatibility: info.profile_compatibility,
            level_idc: info.level_idc,
            length_size_minus_one: AVCC_LENGTH_SIZE_MINUS_ONE,
            chroma_format: if high { Some(info.chroma_format_idc) } else { None },
            bit_depth_luma_minus8: if high { Some(info.bit_depth_luma_minus8) } else { None },
            bit_depth_chroma_minus8: if high { Some(info.bit_depth_chroma_minus8) } else { None },
            sps,
            pps,
            width: info.width,
            height: info.height,
        }
    }

    /// The sample of `data`: its file offset, and the sample entry when it is
    /// the first sample. Nothing changes.
    fn sample_for(&self, data: Vec<u8>, keyframe: bool, duration: u32) -> (r: VideoSampleWrite)
        requires
            self@.first_sample ==> is_configured(self@),
        ensures
            r@ == emit_sample(self@, data@, keyframe, duration).1,
    {
        let sample_entry = if self.video_first_sample {
            Some(self.build_video_sample_entry())
        } else {
            None
        };
        VideoSampleWrite { data, keyframe, duration, data_offset: self.file_position, sample_entry }
    }

    /// Registers the sample of `data`, which the caller has written at the
    /// current file position, with the muxer: a video sample of the 90 kHz
    /// timescale with its keyframe flag, duration, offset and size, and the
    /// `avc1` entry when it is the first. Once the muxer has taken it, the
    /// file position moves past it and later samples carry no entry; a
    /// refused sample is an `Mp4Mux` error and changes nothing.
    fn write_video_sample(&mut self, data: &[u8], keyframe: bool, duration: u32) -> (r: Result<(), AppError>)
        requires
            old(self)@.first_sample ==> is_configured(old(self)@),
            old(self)@.file_position + data@.len() <= u64::MAX,
        ensures
            match register_sample(old(self)@, data@, keyframe, duration) {
                Some(st) => r is Ok && final(self)@ == st,
                None => final(self)@ == old(self)@ && r matches Err(AppError::Mp4Mux(_)),
            },
            in_step(old(self)@) ==> in_step(final(self)@),
    {
        let ghost s = emit_sample(self@, data@, keyframe, duration).1;
        let entry = if self.video_first_sample {
            let e = self.build_video_sample_entry();
            Some(avc1_entry(avcc_box(&e), e.width, e.height))
        } else {
            None
        };
        assert(entry == mux_entry(s.sample_entry));
        match append_video_sample(
            &mut self.muxer,
            entry,
            keyframe,
            VIDEO_TIMESCALE,
            duration,
            self.file_position,
            data.len(),
        ) {
            Ok(()) => {
                self.video_first_sample = false;
                self.file_position = self.file_position + data.len() as u64;
                Ok(())
            },
            Err(msg) => Err(AppError::Mp4Mux(msg)),
        }
    }

    /// The sample that taking `au` writes, if any: the access unit held back
    /// so far, timed by `au`. Nothing changes; the caller writes its data at
    /// its offset before calling [`Mp4Recorder::write_access_unit`].
    pub fn next_sample_write(&self, au: &AccessUnit) -> (r: Option<VideoSampleWrite>)
        ensures
            match self@.pending {
                Some(p) => if is_configured(self@) {
                    r matches Some(s) && s@ == emit_sample(
                        self@,
                        p.data,
                        p.keyframe,
                        au.timestamp.wrapping_sub(p.timestamp),
                    ).1
                } else {
                    r is None
                },
                None => r is None,
            },
    {
        if self.sps.is_none() || self.pps.is_none() || self.sps_info.is_none() {
            return None;
        }
        match &self.pending_au {
            Some(p) => Some(self.sample_for(p.data.clone(), p.keyframe, au.timestamp.wrapping_sub(p.timestamp))),
            None => None,
        }
    }

    /// Takes the next access unit, as [`step_write`] describes: once
    /// configured, the unit held back so far is registered with the muxer
    /// (its data already written at its offset) and `au` is held back in its
    /// place. A sample the muxer refuses is an `Mp4Mux` error and changes
    /// nothing.
    pub fn write_access_unit(&mut self, au: &AccessUnit) -> (r: Result<(), AppError>)
        requires
            pending_fits(old(self)@),
        ensures
            match step_write(old(self)@, au@) {
                Some(st) => r is Ok && final(self)@ == st,
                None => final(self)@ == old(self)@ && r matches Err(AppError::Mp4Mux(_)),
            },
            in_step(old(self)@) ==> in_step(final(self)@),
            holds_valid_parameter_sets(old(self)@) ==> holds_valid_parameter_sets(final(self)@),
    {
        if self.sps.is_none() || self.pps.is_none() || self.sps_info.is_none() {
            return Ok(());
        }
        let held = PendingAccessUnit { data: au.data.clone(), timestamp: au.timestamp, keyframe: au.keyframe };
        let mut pending: Option<PendingAccessUnit> = None;
        std::mem::swap(&mut pending, &mut self.pending_au);
        match pending {
            None => {
                self.pending_au = Some(held);
                Ok(())
            },
            Some(p) => {
                let duration = au.timestamp.wrapping_sub(p.timestamp);
                match self.write_video_sample(p.data.as_slice(), p.keyframe, duration) {
                    Ok(()) => {
                        self.pending_au = Some(held);
                        Ok(())
                    },
                    Err(e) => {
                        self.pending_au = Some(p);
                        Err(e)
                    },
                }
            },
        }
    }

    /// The sample that ending the recording writes, if any: the access unit
    /// still held back, with the fixed last-sample duration. Nothing changes;
    /// the caller writes its data at its offset before calling
    /// [`Mp4Recorder::finalize`].
    pub fn final_sample_write(&self) -> (r: Option<VideoSampleWrite>)
        requires
            self@.pending is Some && self@.first_sample ==> is_configured(self@),
        ensures
            match self@.pending {
                Some(p) => r matches Some(s) && s@ == emit_sample(self@, p.data, p.keyframe, LAST_SAMPLE_DURATION).1,
                None => r is None,
            },
    {
        match &self.pending_au {
            Some(p) => Some(self.sample_for(p.data.clone(), p.keyframe, LAST_SAMPLE_DURATION)),
            None => None,
        }
    }

    /// Ends the recording, as [`final_step`] describes: the access unit still
    /// held back, if any, is registered with the muxer (its data already
    /// written at its offset), and the muxer is finalized. The result is the
    /// byte ranges to write over the file, in order; a refused sample or a
    /// muxer that cannot finish is an `Mp4Mux` error.
    pub fn finalize(self) -> (r: Result<Vec<BoxWrite>, AppError>)
        requires
            pending_fits(self@),
            self@.pending is Some && self@.first_sample ==> is_configured(self@),
        ensures
            match final_step(self@) {
                None => r matches Err(AppError::Mp4Mux(_)),
                Some(st) => match muxer_finalized(st.muxer) {
                    Some(w) => r matches Ok(v) && box_writes_view(v@) == w,
                    None => r matches Err(AppError::Mp4Mux(_)),
                },
            },
    {
        let mut rec = self;
        let mut pending: Option<PendingAccessUnit> = None;
        std::mem::swap(&mut pending, &mut rec.pending_au);
        match pending {
            Some(p) => {
                match rec.write_video_sample(p.data.as_slice(), p.keyframe, LAST_SAMPLE_DURATION) {
                    Ok(()) => {},
                    Err(e) => return Err(e),
                }
            },
            None => {},
        }
        let mut muxer = rec.muxer;
        match finalize_muxer(&mut muxer) {
            Ok(v) => Ok(v),
            Err(msg) => Err(AppError::Mp4Mux(msg)),
        }
    }
}

/// Byte-wise equality of two slices.
fn bytes_equal(a: &[u8], b: &[u8]) -> (r: bool)
    ensures
        r == (a@ == b@),
{
    if a.len() != b.len() {
        return false;
    }
    let mut i: usize = 0;
    while i < a.len()
        invariant
            a@.len() == b@.len(),
            0 <= i <= a@.len(),
            forall|j: int| 0 <= j < i ==> a@[j] == b@[j],
        decreases a@.len() - i,
    {
        if a[i] != b[i] {
            return false;
        }
        i += 1;
    }
    assert(a@ =~= b@);
    true
}


/// Samples are laid out back to back in the file: of two successive samples
/// the second starts where the first ends, and only a first sample ever
/// carries the sample entry.
pub proof fn lemma_samples_are_contiguous(
    st: TrackModel,
    d1: Seq<u8>,
    k1: bool,
    u1: u32,
    d2: Seq<u8>,
    k2: bool,
    u2: u32,
)
    requires
        st.file_position + d1.len() + d2.len() <= u64::MAX,
    ensures
        ({
            let (s1, a) = emit_sample(st, d1, k1, u1);
            let (s2, b) = emit_sample(s1, d2, k2, u2);
            &&& a.data_offset == st.file_position
            &&& b.data_offset == a.data_offset + d1.len()
            &&& s2.file_position == st.file_position + d1.len() + d2.len()
            &&& b.sample_entry is None
            &&& (a.sample_entry is Some <==> st.first_sample)
        }),
{
}

/// A sample entry only ever carries valid parameter sets: while the
/// recorder holds valid ones, the entry of the sample it emits has an SPS and
/// a PPS of the right types and lengths.
pub proof fn lemma_sample_entry_has_valid_parameter_sets(
    st: TrackModel,
    data: Seq<u8>,
    keyframe: bool,
    duration: u32,
)
    requires
        holds_valid_parameter_sets(st),
        is_configured(st),
    ensures
        emit_sample(st, data, keyframe, duration).1.sample_entry matches Some(e) ==> valid_parameter_set(
            e.sps,
            NAL_TYPE_SPS,
        ) && valid_parameter_set(e.pps, NAL_TYPE_PPS),
{
}

/// The sample entry describes the stream as the parsed SPS does: the first
/// sample of a configured recorder carries an entry with the SPS's picture
/// width and height, profile, compatibility and level, the SPS and PPS
/// themselves and four-byte NAL lengths; the chroma format and bit depths
/// are present, with the SPS's values, exactly when the profile is not
/// Baseline (66), Main (77) or Extended (88). Later samples carry none.
pub proof fn lemma_sample_entry_describes_the_sps(st: TrackModel, data: Seq<u8>, keyframe: bool, duration: u32)
    requires
        is_configured(st),
    ensures
        ({
            let info = st.sps_info->Some_0;
            let s = emit_sample(st, data, keyframe, duration).1;
            let plain = info.profile_idc == 66 || info.profile_idc == 77 || info.profile_idc == 88;
            &&& !st.first_sample ==> s.sample_entry is None
            &&& st.first_sample ==> (s.sample_entry matches Some(e) && {
                &&& e.width == info.width
                &&& e.height == info.height
                &&& e.profile_idc == info.profile_idc
                &&& e.profile_compatibility == info.profile_compatibility
                &&& e.level_idc == info.level_idc
                &&& e.length_size_minus_one == 3
                &&& e.sps == st.sps->Some_0
                &&& e.pps == st.pps->Some_0
                &&& (e.chroma_format is Some <==> !plain)
                &&& (e.bit_depth_luma_minus8 is Some <==> !plain)
                &&& (e.bit_depth_chroma_minus8 is Some <==> !plain)
                &&& !plain ==> e.chroma_format == Some(info.chroma_format_idc)
                    && e.bit_depth_luma_minus8 == Some(info.bit_depth_luma_minus8)
                    && e.bit_depth_chroma_minus8 == Some(info.bit_depth_chroma_minus8)
            })
        }),
{
}

/// The file layout and the muxer stay in step: a recorder in step emits its
/// next sample exactly where the muxer expects it, and once the muxer has
/// taken that sample the two are in step again.
pub proof fn lemma_emitted_sample_keeps_step(
    st: TrackModel,
    data: Seq<u8>,
    keyframe: bool,
    duration: u32,
    muxer_after: Mp4FileMuxer,
)
    requires
        in_step(st),
        st.file_position + data.len() <= u64::MAX,
        muxer_position(muxer_after) == st.file_position + data.len(),
    ensures
        ({
            let (next, s) = emit_sample(st, data, keyframe, duration);
            &&& s.data_offset == muxer_position(st.muxer)
            &&& in_step(TrackModel { muxer: muxer_after, ..next })
        }),
{
}

/// The state after taking each access unit of `aus` in order, or `None`
/// once the muxer refuses a sample.
pub open spec fn run_writes(st: TrackModel, aus: Seq<AccessUnitModel>) -> Option<TrackModel>
    decreases aus.len(),
{
    if aus.len() == 0 {
        Some(st)
    } else {
        match run_writes(st, aus.drop_last()) {
            Some(prev) => step_write(prev, aus.last()),
            None => None,
        }
    }
}

/// The number of data bytes in `aus`.
pub open spec fn units_len(aus: Seq<AccessUnitModel>) -> nat
    decreases aus.len(),
{
    if aus.len() == 0 {
        0
    } else {
        units_len(aus.drop_last()) + aus.last().data.len()
    }
}

/// The duration of sample `i` of a recording of `aus`: the timestamp
/// difference (modulo 2^32) to the next unit, or the fixed last-sample
/// duration for the final one.
pub open spec fn sample_duration(aus: Seq<AccessUnitModel>, i: int) -> u32 {
    if i + 1 < aus.len() {
        aus[i + 1].timestamp.wrapping_sub(aus[i].timestamp)
    } else {
        LAST_SAMPLE_DURATION
    }
}

/// The muxer after the first `n` samples of a recording of `aus` have been
/// registered, starting from `m`: sample `i` holds unit `i`'s data and
/// keyframe flag, lasts [`sample_duration`], lies right after the samples
/// before it from file position `pos`, and only the first carries `entry`.
pub open spec fn muxer_after_units(
    m: Mp4FileMuxer,
    entry: Option<SampleEntry>,
    pos: int,
    aus: Seq<AccessUnitModel>,
    n: nat,
) -> Mp4FileMuxer
    decreases n,
{
    if n == 0 {
        m
    } else {
        let i = n - 1;
        muxer_after_append(
            muxer_after_units(m, entry, pos, aus, (n - 1) as nat),
            if i == 0 { entry } else { None },
            aus[i].keyframe,
            VIDEO_TIMESCALE,
            sample_duration(aus, i),
            (pos + units_len(aus.take(i))) as u64,
            aus[i].data.len(),
        )
    }
}

/// The entry the first sample written from `st` carries.
pub open spec fn first_entry(st: TrackModel) -> Option<SampleEntry> {
    if st.first_sample {
        mux_entry(Some(sample_entry_model(st.sps_info->Some_0, st.sps->Some_0, st.pps->Some_0)))
    } else {
        None
    }
}

proof fn lemma_units_len_prefix(aus: Seq<AccessUnitModel>, j: int)
    requires
        0 <= j <= aus.len(),
    ensures
        units_len(aus.take(j)) <= units_len(aus),
    decreases aus.len(),
{
    if j < aus.len() {
        assert(aus.drop_last().take(j) =~= aus.take(j));
        lemma_units_len_prefix(aus.drop_last(), j);
    } else {
        assert(aus.take(j) =~= aus);
    }
}

proof fn lemma_muxer_after_units_prefix(
    m: Mp4FileMuxer,
    entry: Option<SampleEntry>,
    pos: int,
    a: Seq<AccessUnitModel>,
    b: Seq<AccessUnitModel>,
    n: nat,
)
    requires
        n + 1 <= a.len(),
        n + 1 <= b.len(),
        a.take(n + 1 as int) == b.take(n + 1 as int),
    ensures
        muxer_after_units(m, entry, pos, a, n) == muxer_after_units(m, entry, pos, b, n),
    decreases n,
{
    if n > 0 {
        let k = n as int;
        let i = k - 1;
        assert(a.take(k) =~= a.take(k + 1).take(k));
        assert(b.take(k) =~= b.take(k + 1).take(k));
        lemma_muxer_after_units_prefix(m, entry, pos, a, b, (n - 1) as nat);
        assert(a[i] == a.take(k + 1)[i]);
        assert(b[i] == b.take(k + 1)[i]);
        assert(a[i + 1] == a.take(k + 1)[i + 1]);
        assert(b[i + 1] == b.take(k + 1)[i + 1]);
        assert(a.take(i) =~= b.take(i)) by {
            assert(a.take(i) =~= a.take(k + 1).take(i));
            assert(b.take(i) =~= b.take(k + 1).take(i));
        }
    }
}

proof fn lemma_run_writes(st: TrackModel, aus: Seq<AccessUnitModel>)
    requires
        is_configured(st),
        st.pending is None,
        aus.len() >= 1,
        st.file_position + units_len(aus) <= u64::MAX,
        run_writes(st, aus) is Some,
    ensures
        ({
            let s = run_writes(st, aus)->Some_0;
            let n = aus.len() as int;
            &&& s.pending == Some(held_unit(aus[n - 1]))
            &&& s.sps == st.sps && s.pps == st.pps && s.sps_info == st.sps_info
            &&& s.first_sample == (st.first_sample && n == 1)
            &&& s.file_position == st.file_position + units_len(aus.take(n - 1))
            &&& s.muxer == muxer_after_units(st.muxer, first_entry(st), st.file_position as int, aus, (n - 1) as nat)
        }),
    decreases aus.len(),
{
    let n = aus.len() as int;
    if n == 1 {
        assert(aus.drop_last() =~= Seq::<AccessUnitModel>::empty());
        assert(aus.take(0) =~= Seq::<AccessUnitModel>::empty());
    } else {
        let prev_aus = aus.drop_last();
        lemma_units_len_prefix(aus, n - 1);
        assert(aus.take(n - 1) =~= prev_aus);
        lemma_run_writes(st, prev_aus);
        let sp = run_writes(st, prev_aus)->Some_0;
        let i = n - 2;
        assert(prev_aus.take(i) =~= aus.take(i));
        assert(aus.take(n - 1).drop_last() =~= aus.take(i));
        lemma_units_len_prefix(aus, n - 1);
        assert(prev_aus.take(n - 1) =~= aus.take(n - 1));
        lemma_muxer_after_units_prefix(
            st.muxer,
            first_entry(st),
            st.file_position as int,
            prev_aus,
            aus,
            (n - 2) as nat,
        );
        assert(prev_aus[i] == aus[i]);
        assert(sample_duration(aus, i) == aus[i + 1].timestamp.wrapping_sub(aus[i].timestamp));
    }
}

/// The muxer receives the recording in order: taking access units
/// `a_0 .. a_(n-1)` from a configured recorder with nothing held back, then
/// ending the recording, registers exactly `n` video samples, sample `i`
/// with `a_i`'s data and keyframe flag, the timestamp difference to
/// `a_(i+1)` as duration (the fixed last-sample duration for the last), back
/// to back in the file, the first carrying the sample entry when no sample
/// was written before.
pub proof fn lemma_recording_registers_samples_in_order(st: TrackModel, aus: Seq<AccessUnitModel>)
    requires
        is_configured(st),
        st.pending is None,
        aus.len() >= 1,
        st.file_position + units_len(aus) <= u64::MAX,
        run_writes(st, aus) is Some,
        final_step(run_writes(st, aus)->Some_0) is Some,
    ensures
        ({
            let fin = final_step(run_writes(st, aus)->Some_0)->Some_0;
            &&& fin.muxer == muxer_after_units(
                st.muxer,
                first_entry(st),
                st.file_position as int,
                aus,
                aus.len(),
            )
            &&& fin.file_position == st.file_position + units_len(aus)
            &&& fin.pending is None
        }),
{
    let n = aus.len() as int;
    lemma_run_writes(st, aus);
    assert(aus.take(n) =~= aus);
    assert(aus.take(n - 1) =~= aus.drop_last());
}

} // verus!
