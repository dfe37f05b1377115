use popmgr::ui::display::parse_touch_block;
use popmgr::ui::disk::{tran_tag, DiskGroup};

#[test]
fn touch_names_are_matched_case_insensitively() {
    let block = "I: Bus=0018 Vendor=04f3 Product=2c82\nN: Name=\"ELAN9008:00 04F3:2C82 TOUCHSCREEN\"\nP: Phys=i2c-ELAN9008:00\nS: Sysfs=/devices/pci0000:00/i2c\nH: Handlers=mouse2 event7\nB: ABS=3273800000000003\n";
    let t = parse_touch_block(block).expect("a touch screen");
    assert_eq!(t.event, "event7");
    assert!(!t.external);
}

#[test]
fn transport_tags_are_upper_case() {
    let d = DiskGroup {
        path: "/dev/sda".into(),
        size: "1T".into(),
        model: "".into(),
        tran: "sata".into(),
        removable: false,
        parts: vec![],
    };
    assert_eq!(tran_tag(&d), "  [SATA]");
}
