use android_sender::frames::{check_plane_buffer, frame_layout, plane_copy_len, pool_needs_reconfigure};
use android_sender::sender::{
    build_status_items, command_probe_addr, decode_service_address, parse_discovered_addresses, log_ui_test_status, set_capture_active,
    CaptureState, ServiceAddress, StatusSeverity,
};

#[test]
fn probe_address_uses_loopback_for_wildcard_binds() {
    assert_eq!(command_probe_addr("0.0.0.0:8080"), "127.0.0.1:8080");
    assert_eq!(command_probe_addr("[::]:9000"), "[::1]:9000");
    assert_eq!(command_probe_addr("192.168.1.2:8080"), "192.168.1.2:8080");
}

#[test]
fn ui_test_status_passes_only_with_pass_prefix() {
    assert!(log_ui_test_status("smoke", "PASS 3 nodes").passed);
    assert!(!log_ui_test_status("smoke", "FAIL boom").passed);
    assert!(!log_ui_test_status("smoke", "pass").passed);
}

#[test]
fn status_items_list_receiver_encoder_and_network() {
    let items = build_status_items("TV", "h264", "wifi");
    let labels: Vec<&str> = items.iter().map(|item| item.label.as_str()).collect();
    let values: Vec<&str> = items.iter().map(|item| item.value.as_str()).collect();
    assert_eq!(labels, vec!["Receiver", "Encoder", "Network"]);
    assert_eq!(values, vec!["TV", "h264", "wifi"]);
    assert!(items.iter().all(|item| item.severity == StatusSeverity::Info));
}

#[test]
fn stopping_capture_drops_the_waiting_frame() {
    let mut state = CaptureState { active: false, frame_pending: false };
    assert!(!set_capture_active(&mut state, true));
    state.frame_pending = true;
    assert!(set_capture_active(&mut state, false));
    assert!(!state.active && !state.frame_pending);
}

#[test]
fn service_addresses_decode_by_length() {
    assert!(matches!(decode_service_address(&[192, 168, 0, 7]), Some(ServiceAddress::V4(192, 168, 0, 7))));
    let mut v6 = vec![0u8; 20];
    v6[15] = 1;
    v6[16] = 2;
    v6[17] = 1;
    match decode_service_address(&v6) {
        Some(ServiceAddress::V6 { octets, scope_id }) => {
            assert_eq!(octets.len(), 16);
            assert_eq!(octets[15], 1);
            assert_eq!(scope_id, 258);
        },
        other => panic!("expected an IPv6 address, got {other:?}"),
    }
    assert!(decode_service_address(&[1, 2, 3]).is_none());
}

#[test]
fn i420_frames_hold_a_luma_plane_and_two_quarter_chroma_planes() {
    let layout = frame_layout(1280, 720);
    assert_eq!(layout.luma, 921_600);
    assert_eq!(layout.chroma, 230_400);
    assert_eq!(layout.total, 1_382_400);
    let odd = frame_layout(5, 3);
    assert_eq!(odd.chroma, 2);
    assert_eq!(odd.total, 19);
}

#[test]
fn short_plane_buffers_are_refused_with_both_sizes() {
    assert_eq!(check_plane_buffer(100, 100), Ok(()));
    assert_eq!(check_plane_buffer(99, 100), Err("buffer_cap < size: 99 < 100".to_string()));
}

#[test]
fn frame_pool_is_reconfigured_when_caps_or_size_change() {
    assert!(pool_needs_reconfigure(false, Some((true, 19)), 19));
    assert!(!pool_needs_reconfigure(true, Some((true, 19)), 19));
    assert!(pool_needs_reconfigure(true, Some((false, 19)), 19));
    assert!(pool_needs_reconfigure(true, Some((true, 20)), 19));
    assert!(pool_needs_reconfigure(true, None, 19));
}

#[test]
fn planes_are_copied_in_whole_rows_both_sides_hold() {
    assert_eq!(plane_copy_len(100, 64, 16), 64);
    assert_eq!(plane_copy_len(50, 64, 16), 48);
    assert_eq!(plane_copy_len(15, 64, 16), 0);
}

#[test]
fn discovered_addresses_skip_buffers_of_other_lengths() {
    let mut v6 = vec![0u8; 20];
    v6[0] = 0xfe;
    v6[1] = 0x80;
    v6[16] = 3;
    let bufs = vec![vec![10, 0, 0, 2], vec![1, 2, 3], v6, vec![], vec![127, 0, 0, 1]];
    let addrs = parse_discovered_addresses(&bufs);
    assert_eq!(addrs.len(), 3);
    assert!(matches!(addrs[0], ServiceAddress::V4(10, 0, 0, 2)));
    match &addrs[1] {
        ServiceAddress::V6 { octets, scope_id } => {
            assert_eq!(octets[0], 0xfe);
            assert_eq!(octets[1], 0x80);
            assert_eq!(*scope_id, 3);
        }
        other => panic!("expected an IPv6 address, got {other:?}"),
    }
    assert!(matches!(addrs[2], ServiceAddress::V4(127, 0, 0, 1)));
    assert!(parse_discovered_addresses(&Vec::new()).is_empty());
}
