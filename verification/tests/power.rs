use popmgr::ui::power::{parse_conf_threshold, parse_threshold};

#[test]
fn threshold_input_parsing() {
    assert_eq!(parse_threshold(""), 5);
    assert_eq!(parse_threshold("0"), 1);
    assert_eq!(parse_threshold("31"), 30);
    assert_eq!(parse_threshold("7"), 7);
    assert_eq!(parse_threshold("a8"), 8);
}

#[test]
fn conf_threshold_parsing() {
    assert_eq!(parse_conf_threshold("THRESHOLD=7\nGRACE_SECS=180\n"), Some(7));
    assert_eq!(parse_conf_threshold("GRACE_SECS=180\n"), None);
}

#[test]
fn threshold_digits_beyond_u32_clamp_to_thirty() {
    assert_eq!(parse_threshold("4294967296"), 30);
    assert_eq!(parse_threshold("x99999999999999999999y"), 30);
    assert_eq!(parse_threshold("00000000000000000000003"), 3);
}
