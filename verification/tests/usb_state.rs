use popmgr::ui::usb::{bt_panel, BtAdapterState, BtLink};
use popmgr::ui::usb_state::{usb_panel, UsbScreen};
use popmgr::runner::CmdResult;
use popmgr::ui::usb::{replace_pointer_speed, sort_usb_devices, usb_device, BtStatus};
use popmgr::ui::usb_state::{pointer_speed_result, UsbAction, UsbMsg, UsbState, UsbStatus};

fn status() -> UsbStatus {
    UsbStatus {
        devices: vec![],
        failed_ports: vec![],
        ktrackball_pid: None,
        pointer_speed_pct: Some(-30),
        tb_speed_pct: 150,
        cursor_size: 32,
        helper_installed: true,
        bt: BtStatus { powered: true, blocked: false, devices: vec![] },
    }
}

#[test]
fn pointer_speed_comes_from_the_slider_or_the_scan_and_is_clamped() {
    let mut s = UsbState::new();
    s.update(UsbMsg::Refreshed(status()), "u");
    let (a, _) = s.update(UsbMsg::CommitPointerSpeed, "u");
    assert!(matches!(a, UsbAction::WritePointerSpeed(-30)));
    s.update(UsbMsg::SetPointerSpeed(250), "u");
    let (a, _) = s.update(UsbMsg::CommitPointerSpeed, "u");
    assert!(matches!(a, UsbAction::WritePointerSpeed(100)));
}

#[test]
fn trackball_factor_and_cursor_size_scripts() {
    let mut s = UsbState::new();
    s.update(UsbMsg::Refreshed(status()), "u");
    let (a, _) = s.update(UsbMsg::CommitTbSpeed, "u");
    match a {
        UsbAction::Run(script) => assert_eq!(script, "sudo -n /usr/local/bin/popmgr-helper set-trackball-speed 1.50 2>&1"),
        _ => panic!("expected a script"),
    }
    assert_eq!(s.running.as_deref(), Some("트랙볼 배율 1.50x 적용 중..."));
    s.update(UsbMsg::SetCursorSize(200), "u");
    let (a, _) = s.update(UsbMsg::CommitCursorSize, "u");
    match a {
        UsbAction::Run(script) => assert!(script.starts_with("gsettings set org.gnome.desktop.interface cursor-size 96 ")),
        _ => panic!("expected a script"),
    }
}

#[test]
fn xhci_reset_waits_for_confirmation() {
    let mut s = UsbState::new();
    let (a, _) = s.update(UsbMsg::XhciReset, "u");
    assert!(matches!(a, UsbAction::Idle));
    assert!(s.confirm_xhci);
    s.update(UsbMsg::CancelXhci, "u");
    assert!(!s.confirm_xhci);
    s.update(UsbMsg::XhciReset, "u");
    let (a, _) = s.update(UsbMsg::ConfirmXhci, "u");
    assert!(matches!(a, UsbAction::Run(_)));
    assert!(!s.confirm_xhci);
    assert_eq!(s.running.as_deref(), Some("xHCI 리셋 중..."));
    let (a, r) = s.update(UsbMsg::Done(CmdResult { success: true, output: "ok".into() }), "u");
    assert!(matches!(a, UsbAction::Scan));
    assert!(r.unwrap().success);
    assert!(s.running.is_none());
}

#[test]
fn retrieving_a_device_toggles_its_authorized_switch() {
    let mut s = UsbState::new();
    let (a, _) = s.update(UsbMsg::RetrieveDev("1-5.1".into()), "u");
    match a {
        UsbAction::Run(script) => assert!(script.contains("echo 0 > /sys/bus/usb/devices/1-5.1/authorized")),
        _ => panic!("expected a script"),
    }
    assert_eq!(s.running.as_deref(), Some("1-5.1 재인식 중..."));
}

#[test]
fn pointer_speed_messages_have_two_decimals() {
    assert_eq!(pointer_speed_result(-50, None).output, "포인터 속도 적용: -0.50");
    assert_eq!(pointer_speed_result(100, None).output, "포인터 속도 적용: 1.00");
    assert_eq!(pointer_speed_result(7, None).output, "포인터 속도 적용: 0.07");
    let failed = pointer_speed_result(0, Some("denied".into()));
    assert!(!failed.success);
    assert_eq!(failed.output, "포인터 속도 적용 실패: denied");
}

#[test]
fn replacing_the_pointer_speed_keeps_the_rest_of_the_file() {
    let content = "(\n    acceleration: Some((\n        profile: Some(Flat),\n        speed:   0.250000,\n    )),\n)\n";
    assert_eq!(
        replace_pointer_speed(content, "-0.500000"),
        "(\n    acceleration: Some((\n        profile: Some(Flat),\n        speed:   -0.500000,\n    )),\n)\n"
    );
    assert!(replace_pointer_speed("", "0.100000").contains("speed: 0.100000,"));
}

#[test]
fn devices_are_listed_by_topology_name() {
    let dev = |name: &str| usb_device(name, "046d", "c52b", "Logitech", "Receiver", "12", "1", "2").unwrap();
    let sorted = sort_usb_devices(vec![dev("2-1"), dev("1-5.1"), dev("1-10"), dev("1-5")]);
    let names: Vec<&str> = sorted.iter().map(|d| d.sysfs_name.as_str()).collect();
    assert_eq!(names, ["1-10", "1-5", "1-5.1", "2-1"]);
}

fn bt_dev(mac: &str, paired: bool, connected: bool) -> popmgr::ui::usb::BtDevice {
    popmgr::ui::usb::BtDevice { mac: mac.into(), name: "ExpertBT5.0 Mouse".into(), paired, connected, trusted: paired }
}

#[test]
fn bluetooth_card_offers_actions_by_link() {
    let bt = BtStatus {
        powered: true,
        blocked: false,
        devices: vec![bt_dev("AA", true, true), bt_dev("BB", true, false), bt_dev("CC", false, false)],
    };
    let p = bt_panel(&bt, false);
    assert_eq!(p.adapter, BtAdapterState::On);
    assert_eq!(p.rows.len(), 3);
    assert_eq!(p.rows[0].link, BtLink::Connected);
    assert!(p.rows[0].disconnect && !p.rows[0].connect && p.rows[0].forget);
    assert_eq!(p.rows[1].link, BtLink::Paired);
    assert!(!p.rows[1].disconnect && p.rows[1].connect && p.rows[1].forget);
    assert_eq!(p.rows[2].link, BtLink::Unpaired);
    assert!(!p.rows[2].disconnect && !p.rows[2].connect && !p.rows[2].forget);
    assert_eq!(p.rows[2].mac, "CC");
    assert!(p.warn_sync);
    assert!(!bt_panel(&bt, true).warn_sync);
    let blocked = BtStatus { powered: true, blocked: true, devices: vec![bt_dev("BB", true, false)] };
    let q = bt_panel(&blocked, false);
    assert_eq!(q.adapter, BtAdapterState::Blocked);
    assert!(!q.warn_sync);
    let off = BtStatus { powered: false, blocked: false, devices: vec![] };
    assert_eq!(bt_panel(&off, false).adapter, BtAdapterState::Off);
}

#[test]
fn usb_screen_shows_confirmation_scan_or_controls() {
    let mut s = UsbState::new();
    assert!(matches!(usb_panel(&s), UsbScreen::Scanning));
    let mut st = status();
    st.ktrackball_pid = Some(4242);
    st.cursor_size = 200;
    s.update(UsbMsg::Refreshed(st), "u");
    match usb_panel(&s) {
        UsbScreen::Panel(p) => {
            assert_eq!(p.ktrackball_pid, Some(4242));
            assert_eq!(p.pointer_pct, -30);
            assert_eq!(p.tb_pct, 150);
            assert_eq!(p.cursor_size, 96);
            assert!(p.helper_installed);
        }
        _ => panic!("expected the controls"),
    }
    s.update(UsbMsg::SetPointerSpeed(40), "u");
    s.update(UsbMsg::SetCursorSize(8), "u");
    match usb_panel(&s) {
        UsbScreen::Panel(p) => {
            assert_eq!(p.pointer_pct, 40);
            assert_eq!(p.cursor_size, 16);
        }
        _ => panic!("expected the controls"),
    }
    s.update(UsbMsg::XhciReset, "u");
    assert!(matches!(usb_panel(&s), UsbScreen::ConfirmXhci));
}
