use drmcru::discovery::{monitor_slots, ReportedMonitor, SysfsConnector};
use drmcru::demo::{manufacturer_code, sample_edid};
use drmcru::discovery::{
    connector_name_from_sysfs_path, connector_sysfs_path, empty_to_none, monitor_sort_rank,
    read_edid, EdidReadError,
};
use drmcru::edid::{block_checksum_valid, parse_edid, EdidError};
use drmcru::models::ConnectorStatus;

#[test]
fn demo_monitor_is_synthetic_and_checksum_valid() {
    let raw = sample_edid().unwrap();
    let edid = parse_edid(raw).unwrap();

    assert!(edid.checksum_valid);
    assert!(edid.cta_blocks[0].checksum_valid);
    assert_eq!(edid.monitor_name.as_deref(), Some("Example Displ"));
}

#[test]
fn demo_edid_has_expected_layout() {
    let raw = sample_edid().unwrap();
    assert_eq!(raw.len(), 256);
    assert!(block_checksum_valid(&raw[..128]));
    assert!(block_checksum_valid(&raw[128..]));
    let edid = parse_edid(raw).unwrap();
    assert_eq!(edid.manufacturer_id.as_deref(), Some("DEM"));
    assert_eq!(edid.detailed_timings.len(), 3);
    assert_eq!(edid.detailed_timings[0].hyprland_mode(), "2560x1440@144.00");
    assert_eq!(edid.standard_timings.len(), 2);
    assert_eq!(edid.extension_blocks, 1);
}

#[test]
fn manufacturer_code_packs_five_bits_per_letter() {
    assert_eq!(manufacturer_code(b"DEM"), (4 << 10) | (5 << 5) | 13);
    assert_eq!(manufacturer_code(b"AAA"), (1 << 10) | (1 << 5) | 1);
}

fn rank(focused: bool, status: ConnectorStatus) -> u8 {
    monitor_sort_rank(focused, status, false, focused)
}

#[test]
fn focused_and_connected_monitors_sort_before_disconnected_ports() {
    let focused = rank(true, ConnectorStatus::Connected);
    let connected = rank(false, ConnectorStatus::Connected);
    let disconnected = rank(false, ConnectorStatus::Disconnected);

    assert!(focused < connected);
    assert!(connected < disconnected);
}

#[test]
fn connected_duplicate_connector_beats_disconnected_one() {
    let connected = rank(false, ConnectorStatus::Connected);
    let disconnected = rank(false, ConnectorStatus::Disconnected);

    assert!(connected < disconnected);
}

#[test]
fn sort_ranks_follow_the_documented_order() {
    assert_eq!(monitor_sort_rank(false, ConnectorStatus::Connected, true, false), 1);
    assert_eq!(monitor_sort_rank(false, ConnectorStatus::Connected, false, true), 2);
    assert_eq!(monitor_sort_rank(false, ConnectorStatus::Unknown, true, false), 3);
    assert_eq!(monitor_sort_rank(false, ConnectorStatus::Disconnected, false, true), 4);
    assert_eq!(monitor_sort_rank(false, ConnectorStatus::Unknown, false, false), 5);
    assert_eq!(monitor_sort_rank(false, ConnectorStatus::Disconnected, false, false), 6);
}

#[test]
fn sysfs_connector_names() {
    assert_eq!(connector_name_from_sysfs_path("card0-DP-1", true), Some("DP-1".to_string()));
    assert_eq!(connector_name_from_sysfs_path("card0-DP-1", false), None);
    assert_eq!(connector_name_from_sysfs_path("renderD128", true), None);
    assert_eq!(connector_name_from_sysfs_path("card0", true), None);
    assert_eq!(
        connector_sysfs_path("/sys/class/drm", "card1", "HDMI-A-1"),
        "/sys/class/drm/card1-HDMI-A-1"
    );
    assert_eq!(connector_sysfs_path("/sys/class/drm/", "card1", "DP-2"), "/sys/class/drm/card1-DP-2");
}

#[test]
fn empty_reported_values_are_absent() {
    assert_eq!(empty_to_none(Some(String::new())), None);
    assert_eq!(empty_to_none(Some("Dell".to_string())), Some("Dell".to_string()));
    assert_eq!(empty_to_none(None), None);
}

#[test]
fn read_edid_reports_io_and_parse_errors() {
    match read_edid("/sys/x/edid", Err("denied".to_string())) {
        Err(EdidReadError::Io { path, source }) => {
            assert_eq!(path, "/sys/x/edid");
            assert_eq!(source, "denied");
        }
        _ => panic!("expected an I/O error"),
    }
    match read_edid("/sys/x/edid", Ok(vec![0u8; 10])) {
        Err(EdidReadError::Parse(EdidError::TooShort(10))) => {}
        other => panic!("expected a parse error, got {other:?}"),
    }
    assert!(read_edid("/sys/x/edid", Ok(sample_edid().unwrap())).is_ok());
}

#[test]
fn monitor_slots_merge_sysfs_and_hyprland_in_rank_order() {
    let sysfs = vec![
        SysfsConnector { name: "DP-1".into(), status: ConnectorStatus::Disconnected, has_edid: false },
        SysfsConnector { name: "HDMI-A-1".into(), status: ConnectorStatus::Connected, has_edid: true },
        SysfsConnector { name: "DP-1".into(), status: ConnectorStatus::Connected, has_edid: false },
        SysfsConnector { name: "eDP-1".into(), status: ConnectorStatus::Connected, has_edid: true },
    ];
    let hypr = vec![
        ReportedMonitor { name: "DP-3".into(), focused: false },
        ReportedMonitor { name: "HDMI-A-1".into(), focused: true },
    ];
    let slots = monitor_slots(&sysfs, &hypr);
    let names: Vec<&str> = slots.iter().map(|s| s.name.as_str()).collect();
    assert_eq!(names, vec!["HDMI-A-1", "eDP-1", "DP-1", "DP-3"]);
    assert_eq!(slots[0].sysfs, Some(1));
    assert_eq!(slots[0].hyprland, Some(1));
    assert_eq!(slots[0].rank, 0);
    assert_eq!(slots[2].sysfs, Some(2));
    assert_eq!(slots[2].rank, 2);
    assert_eq!(slots[3].sysfs, None);
    assert_eq!(slots[3].hyprland, Some(0));
    assert_eq!(slots[3].rank, 4);
}
