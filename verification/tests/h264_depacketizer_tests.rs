use home_camera::h264_depacketizer::H264Depacketizer;

fn avcc(nal: &[u8]) -> Vec<u8> {
    let mut v = (nal.len() as u32).to_be_bytes().to_vec();
    v.extend_from_slice(nal);
    v
}

#[test]
fn single_nal_with_marker_is_an_access_unit() {
    let mut d = H264Depacketizer::new();
    let nal = [0x65u8, 1, 2, 3];
    let au = d.push(&nal, 9000, true).expect("access unit");
    assert_eq!(au.data, avcc(&nal));
    assert_eq!(au.timestamp, 9000);
    assert!(au.keyframe);
}

#[test]
fn non_idr_is_not_a_keyframe() {
    let mut d = H264Depacketizer::new();
    let au = d.push(&[0x41, 9, 9], 1, true).unwrap();
    assert!(!au.keyframe);
    assert_eq!(au.data, vec![0, 0, 0, 3, 0x41, 9, 9]);
}

#[test]
fn empty_payload_is_ignored() {
    let mut d = H264Depacketizer::new();
    assert!(d.push(&[], 1, true).is_none());
    assert!(d.push(&[0x41, 1], 1, false).is_none());
    assert!(d.push(&[], 2, true).is_none());
    let au = d.push(&[0x41, 2], 1, true).unwrap();
    assert_eq!(au.data, [avcc(&[0x41, 1]), avcc(&[0x41, 2])].concat());
}

#[test]
fn nals_without_marker_accumulate() {
    let mut d = H264Depacketizer::new();
    assert!(d.push(&[0x67, 0x42, 0x00, 0x1f], 100, false).is_none());
    assert!(d.push(&[0x68, 0xce, 0x3c], 100, false).is_none());
    let au = d.push(&[0x65, 0x88], 100, true).unwrap();
    assert_eq!(
        au.data,
        [avcc(&[0x67, 0x42, 0x00, 0x1f]), avcc(&[0x68, 0xce, 0x3c]), avcc(&[0x65, 0x88])].concat()
    );
    assert!(au.keyframe);
    assert_eq!(d.sps, Some(vec![0x67, 0x42, 0x00, 0x1f]));
    assert_eq!(d.pps, Some(vec![0x68, 0xce, 0x3c]));
}

#[test]
fn new_timestamp_drops_unfinished_unit() {
    let mut d = H264Depacketizer::new();
    assert!(d.push(&[0x65, 1], 100, false).is_none());
    let au = d.push(&[0x41, 2], 200, true).unwrap();
    assert_eq!(au.data, avcc(&[0x41, 2]));
    assert_eq!(au.timestamp, 200);
    assert!(!au.keyframe);
}

#[test]
fn stap_a_is_split() {
    let mut d = H264Depacketizer::new();
    let sps = [0x67u8, 0x64, 0x00, 0x28];
    let pps = [0x68u8, 0xee, 0x3c, 0x80];
    let idr = [0x65u8, 0x88, 0x84];
    let mut p = vec![0x78u8];
    for nal in [&sps[..], &pps[..], &idr[..]] {
        p.extend_from_slice(&(nal.len() as u16).to_be_bytes());
        p.extend_from_slice(nal);
    }
    let au = d.push(&p, 5, true).unwrap();
    assert_eq!(au.data, [avcc(&sps), avcc(&pps), avcc(&idr)].concat());
    assert!(au.keyframe);
    assert_eq!(d.sps.as_deref(), Some(&sps[..]));
    assert_eq!(d.pps.as_deref(), Some(&pps[..]));
}

#[test]
fn stap_a_stops_at_truncated_unit_and_skips_empty_ones() {
    let mut d = H264Depacketizer::new();
    let p = vec![0x18u8, 0, 0, 0, 2, 0x41, 7, 0, 9, 0x41];
    let au = d.push(&p, 5, true).unwrap();
    assert_eq!(au.data, avcc(&[0x41, 7]));
}

#[test]
fn fu_a_is_reassembled() {
    let mut d = H264Depacketizer::new();
    let nal: Vec<u8> = (0..50u8).map(|i| if i == 0 { 0x65 } else { i }).collect();
    let ind = (nal[0] & 0xE0) | 28;
    let typ = nal[0] & 0x1F;
    let body = &nal[1..];
    let chunks: Vec<&[u8]> = body.chunks(20).collect();
    let mut out = None;
    for (i, chunk) in chunks.iter().enumerate() {
        let first = i == 0;
        let last = i == chunks.len() - 1;
        let hdr = (if first { 0x80 } else { 0 }) | (if last { 0x40 } else { 0 }) | typ;
        let mut p = vec![ind, hdr];
        p.extend_from_slice(chunk);
        let r = d.push(&p, 42, last);
        if last {
            out = r;
        } else {
            assert!(r.is_none());
        }
    }
    let au = out.unwrap();
    assert_eq!(au.data, avcc(&nal));
    assert!(au.keyframe);
}

#[test]
fn fu_a_middle_without_start_is_dropped() {
    let mut d = H264Depacketizer::new();
    assert!(d.push(&[0x7c, 0x05, 1, 2], 1, false).is_none());
    assert!(d.push(&[0x7c, 0x45, 3], 1, true).is_none());
}

#[test]
fn unsupported_packet_types_add_nothing() {
    let mut d = H264Depacketizer::new();
    assert!(d.push(&[0x00, 1], 1, true).is_none());
    assert!(d.push(&[0x19, 1], 1, true).is_none());
    assert!(d.push(&[0x1d, 1], 1, true).is_none());
}

#[test]
fn parameter_sets_from_fu_a_are_kept() {
    let mut d = H264Depacketizer::new();
    assert!(d.push(&[0x7c, 0x87, 0x42, 0x00], 3, false).is_none());
    let au = d.push(&[0x7c, 0x47, 0x1f], 3, true).unwrap();
    assert_eq!(d.sps, Some(vec![0x67, 0x42, 0x00, 0x1f]));
    assert_eq!(au.data, avcc(&[0x67, 0x42, 0x00, 0x1f]));
}

#[test]
fn parameter_sets_are_replaced_but_never_cleared() {
    let mut d = H264Depacketizer::new();
    assert_eq!(d.sps(), &None);
    d.push(&[0x67, 1], 1, false);
    d.push(&[0x68, 2], 1, true);
    assert_eq!(d.sps(), &Some(vec![0x67, 1]));
    assert_eq!(d.pps(), &Some(vec![0x68, 2]));
    d.push(&[0x41, 7], 2, true);
    d.push(&[0x67, 3], 3, true);
    assert_eq!(d.sps(), &Some(vec![0x67, 3]));
    assert_eq!(d.pps(), &Some(vec![0x68, 2]));
    assert_eq!(d.sps(), &d.sps);
}

#[test]
fn keyframe_flag_follows_idr_across_a_run() {
    let mut d = H264Depacketizer::new();
    let mut units = Vec::new();
    let packets: [(&[u8], u32, bool); 6] = [
        (&[0x41, 1], 10, false),
        (&[0x65, 2], 10, true),
        (&[0x41, 3], 20, true),
        (&[0x7c, 0x85, 9], 30, false),
        (&[0x7c, 0x45, 8], 30, true),
        (&[0x61, 4], 40, true),
    ];
    for (p, ts, m) in packets {
        if let Some(au) = d.push(p, ts, m) {
            units.push(au);
        }
    }
    let flags: Vec<bool> = units.iter().map(|u| u.keyframe).collect();
    assert_eq!(flags, vec![true, false, true, false]);
    assert_eq!(units[2].data, avcc(&[0x65, 9, 8]));
}
