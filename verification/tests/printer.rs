use popmgr::ui::printer::{
    cmd_langs, diagnose, field, has_pcl, has_postscript, parse_scan, scan_result, Device, Issue, Level, Queue, Scan,
};

const BROTHER: &str = "MFG:Brother;CMD:PJL,XL2HB,URF;MDL:HL-3150CDN series;CLS:PRINTER;\
                       CID:Brother Color Type4;URF:SRGB24,W8,CP1,RS600,DM1;";

fn dev() -> Device {
    Device {
        uri: "usb://Brother/HL-3150CDN%20series?serial=E7".into(),
        info: "Brother HL-3150CDN series".into(),
        device_id: BROTHER.into(),
    }
}

fn queue(name: &str, model: &str) -> Queue {
    Queue {
        name: name.into(),
        uri: "usb://Brother/HL-3150CDN%20series?serial=E7".into(),
        model: model.into(),
        state: 3,
        is_default: false,
        jobs: 0,
    }
}

#[test]
fn parses_device_id_fields() {
    assert_eq!(field(BROTHER, "MDL").as_deref(), Some("HL-3150CDN series"));
    assert_eq!(field(BROTHER, "MFG").as_deref(), Some("Brother"));
    assert!(field(BROTHER, "URF").is_some());
    assert_eq!(field(BROTHER, "NOPE"), None);
    assert_eq!(cmd_langs(BROTHER), vec!["PJL", "XL2HB", "URF"]);
}

#[test]
fn brother_hl3150cdn_has_no_postscript() {
    let langs = cmd_langs(BROTHER);
    assert!(!has_postscript(&langs));
    assert!(has_pcl(&langs));
}

#[test]
fn flags_postscript_driver_on_non_postscript_printer() {
    let scan = Scan {
        queues: vec![queue("Brother-HL-3150CDN-series", "Brother HL-4050CDN BR-Script3")],
        devices: vec![dev()],
    };
    let issues = diagnose(&scan);
    assert!(issues.iter().any(|i| i.level == Level::Error
        && i.title.contains("PostScript")
        && i.fix_queue.as_deref() == Some("Brother-HL-3150CDN-series")));
}

#[test]
fn accepts_matching_vendor_driver() {
    let scan = Scan {
        queues: vec![queue("HL3150CDN", "Brother HL-3150CDN series CUPS")],
        devices: vec![dev()],
    };
    let issues = diagnose(&scan);
    assert!(!issues.iter().any(|i| i.level == Level::Error));
}

#[test]
fn generic_pcl_driver_is_not_a_model_mismatch() {
    let scan = Scan {
        queues: vec![queue("q", "Generic PCL 6/PCL XL Printer Foomatic/pxlcolor")],
        devices: vec![dev()],
    };
    let issues = diagnose(&scan);
    assert!(!issues.iter().any(|i| i.title.contains("다른 기종")));
}

#[test]
fn flags_duplicate_queues_once() {
    let scan = Scan {
        queues: vec![
            queue("a", "Brother HL-3150CDN series CUPS"),
            queue("b", "Brother HL-3150CDN series CUPS"),
        ],
        devices: vec![dev()],
    };
    let dups = diagnose(&scan)
        .into_iter()
        .filter(|i| i.title.contains("큐가"))
        .count();
    assert_eq!(dups, 1);
}

#[test]
fn suggests_ethernet_for_airprint_over_usb() {
    let scan = Scan { queues: vec![], devices: vec![dev()] };
    assert!(diagnose(&scan).iter().any(|i| i.title.contains("랜선")));
}

#[test]
fn real_world_three_queue_breakage() {
    const URI: &str = "usb://Brother/HL-3150CDN%20series?serial=E71876G7J291777";
    let out = format!(
        "Q\tBrother-HL-3150CDN-series\t{URI}\tBrother HL-4050CDN BR-Script3\t3\t0\t0\n\
         Q\tBrother_HL-3150CDN\t{URI}\tBrother HL-3150CDN series CUPS\t3\t1\t0\n\
         Q\tHL3150CDN\t{URI}\tBrother HL-3150CDN series CUPS\t3\t0\t0\n\
         D\t{URI}\tBrother HL-3150CDN series\t{BROTHER}\n"
    );
    let scan = parse_scan(&out);
    assert_eq!(scan.queues.len(), 3);
    assert_eq!(scan.devices.len(), 1);

    let issues = diagnose(&scan);

    assert_eq!(issues.iter().filter(|i| i.title.contains("큐가 3개")).count(), 1);

    let ps: Vec<&Issue> = issues
        .iter()
        .filter(|i| i.level == Level::Error && i.title.contains("PostScript"))
        .collect();
    assert_eq!(ps.len(), 1);
    assert_eq!(ps[0].fix_queue.as_deref(), Some("Brother-HL-3150CDN-series"));

    for q in ["Brother_HL-3150CDN", "HL3150CDN"] {
        assert!(!issues
            .iter()
            .any(|i| i.level == Level::Error && i.fix_queue.as_deref() == Some(q)));
    }
}

#[test]
fn parses_scan_tsv() {
    let out = "Q\tp1\tusb://x\tGeneric PCL\t3\t1\t2\n\
               D\tusb://x\tSome Printer\tMFG:A;MDL:B;CMD:PCL;\n";
    let s = parse_scan(out);
    assert_eq!(s.queues.len(), 1);
    assert_eq!(s.queues[0].name, "p1");
    assert_eq!(s.queues[0].jobs, 2);
    assert!(s.queues[0].is_default);
    assert_eq!(s.devices.len(), 1);
    assert_eq!(s.devices[0].info, "Some Printer");
}

#[test]
fn failed_scan_without_output_shows_nothing() {
    let s = scan_result(false, "  \n");
    assert!(s.queues.is_empty());
    assert!(s.devices.is_empty());
}

#[test]
fn failed_scan_with_output_is_still_read() {
    let s = scan_result(false, "Q\tHP\tipp://hp/ipp\tHP LaserJet\t3\t1\t2\nD\tusb://X\tX printer\tMFG:X;\n");
    assert_eq!(s.queues.len(), 1);
    assert_eq!(s.queues[0].name, "HP");
    assert_eq!(s.queues[0].jobs, 2);
    assert!(s.queues[0].is_default);
    assert_eq!(s.devices.len(), 1);
    assert_eq!(s.devices[0].device_id, "MFG:X;");
}
