use std::time::Duration;

use home_camera::error::AppError;
use home_camera::h264_depacketizer::AccessUnit;
use home_camera::mp4_recorder::{
    is_valid_parameter_set, Mp4Recorder, SpsInfo, AVCC_LENGTH_SIZE_MINUS_ONE,
};

fn recorder() -> (Mp4Recorder, u64) {
    let st = Mp4Recorder::new(Duration::from_secs(1_700_000_000)).expect("muxer");
    let base = st.initial_bytes().len() as u64;
    assert!(base > 0);
    assert_eq!(st.file_position(), base);
    (st, base)
}

fn info(profile_idc: u8) -> SpsInfo {
    SpsInfo {
        profile_idc,
        profile_compatibility: 0,
        level_idc: 31,
        chroma_format_idc: 1,
        bit_depth_luma_minus8: 0,
        bit_depth_chroma_minus8: 0,
        width: 1280,
        height: 720,
    }
}

fn au(data: &[u8], timestamp: u32, keyframe: bool) -> AccessUnit {
    AccessUnit { data: data.to_vec(), timestamp, keyframe }
}

#[test]
fn parameter_set_validity() {
    assert!(is_valid_parameter_set(&[0x67, 1], 7));
    assert!(is_valid_parameter_set(&[0x68], 8));
    assert!(!is_valid_parameter_set(&[], 7));
    assert!(!is_valid_parameter_set(&[0x68, 1], 7));
    assert!(!is_valid_parameter_set(&vec![0x67; 2049], 7));
    assert!(is_valid_parameter_set(&vec![0x67; 2048], 7));
}

/// Writes `a` as the recorder asks: the sample it releases, then the unit.
fn take(st: &mut Mp4Recorder, a: &AccessUnit) -> Option<home_camera::mp4_recorder::VideoSampleWrite> {
    let s = st.next_sample_write(a);
    st.write_access_unit(a).ok().expect("the muxer takes the sample");
    s
}

#[test]
fn nothing_is_written_before_parameter_sets() {
    let (mut st, base) = recorder();
    assert!(take(&mut st, &au(&[1, 2], 0, true)).is_none());
    assert!(st.final_sample_write().is_none());
    assert_eq!(st.pending_len(), None);
    assert_eq!(st.file_position(), base);
}

#[test]
fn invalid_parameter_sets_are_refused() {
    let (mut st, _) = recorder();
    st.set_sps_pps(vec![0x68, 1], vec![0x68, 2], Some(info(100)));
    assert!(take(&mut st, &au(&[1], 0, true)).is_none());
    assert_eq!(st.pending_len(), None);
}

#[test]
fn samples_are_delayed_by_one_and_timed_by_successor() {
    let (mut st, base) = recorder();
    st.set_sps_pps(vec![0x67, 0x64], vec![0x68, 0xee], Some(info(100)));
    assert!(take(&mut st, &au(&[1, 2, 3], 1000, true)).is_none());
    assert_eq!(st.pending_len(), Some(3));

    let s1 = take(&mut st, &au(&[4, 5], 4000, false)).unwrap();
    assert_eq!(s1.data, vec![1, 2, 3]);
    assert!(s1.keyframe);
    assert_eq!(s1.duration, 3000);
    assert_eq!(s1.data_offset, base);
    let entry = s1.sample_entry.expect("first sample carries the entry");
    assert_eq!(entry.sps, vec![0x67, 0x64]);
    assert_eq!(entry.pps, vec![0x68, 0xee]);
    assert_eq!(entry.chroma_format, Some(1));
    assert_eq!(entry.length_size_minus_one, AVCC_LENGTH_SIZE_MINUS_ONE);
    assert_eq!(entry.width, 1280);
    assert_eq!(st.file_position(), base + 3);

    let s2 = take(&mut st, &au(&[6], 2, true)).unwrap();
    assert_eq!(s2.data, vec![4, 5]);
    assert_eq!(s2.duration, 2u32.wrapping_sub(4000));
    assert_eq!(s2.data_offset, base + 3);
    assert!(s2.sample_entry.is_none());

    let last = st.final_sample_write().unwrap();
    assert_eq!(last.data, vec![6]);
    assert_eq!(last.duration, 3000);
    assert_eq!(last.data_offset, base + 5);
    let writes = st.finalize().ok().expect("finalize");
    assert!(!writes.is_empty());
    assert_eq!(writes[0].offset, 0);
}

#[test]
fn baseline_profile_has_no_high_profile_fields() {
    let (mut st, _) = recorder();
    st.set_sps_pps(vec![0x67, 0x42], vec![0x68, 0xce], Some(info(66)));
    take(&mut st, &au(&[1], 0, true));
    let s = st.final_sample_write().unwrap();
    let entry = s.sample_entry.unwrap();
    assert_eq!(entry.profile_idc, 66);
    assert_eq!(entry.chroma_format, None);
    assert_eq!(entry.bit_depth_luma_minus8, None);
    assert_eq!(entry.bit_depth_chroma_minus8, None);
}

#[test]
fn changed_parameter_sets_are_taken_up() {
    let (mut st, _) = recorder();
    let sps = vec![0x67, 0x4d];
    let pps = vec![0x68, 0x01];
    st.update_sps_pps_if_available(Some(&sps), None, Some(info(77)));
    assert!(take(&mut st, &au(&[1], 0, true)).is_none());
    assert_eq!(st.pending_len(), None);
    st.update_sps_pps_if_available(None, Some(&pps), None);
    take(&mut st, &au(&[1], 0, true));
    assert_eq!(st.pending_len(), Some(1));
    let bad = vec![0x41];
    st.update_sps_pps_if_available(Some(&bad), Some(&bad), None);
    let s = st.final_sample_write().unwrap();
    let entry = s.sample_entry.unwrap();
    assert_eq!(entry.sps, sps);
    assert_eq!(entry.pps, pps);
    assert_eq!(entry.profile_idc, 77);
}

#[test]
fn finalize_without_keyframes_is_refused_by_the_muxer() {
    let (mut st, _) = recorder();
    st.set_sps_pps(vec![0x67, 0x64], vec![0x68, 0xee], Some(info(100)));
    take(&mut st, &au(&[1, 2], 0, false));
    assert!(matches!(st.finalize(), Err(AppError::Mp4Mux(_))));
}

#[test]
fn finalize_without_samples_still_writes_the_head() {
    let (st, _) = recorder();
    let writes = st.finalize().ok().expect("an empty file finalizes");
    assert_eq!(writes[0].offset, 0);
}
