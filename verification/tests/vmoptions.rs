use popmgr::ui::ime_state::{patched_vmoptions, vmoptions_backup, vmoptions_entry, vmoptions_ok_line, vmoptions_skip_line};

#[test]
fn detects_the_input_method_options() {
    let e = vmoptions_entry("GoLand2025.3".into(), "/h/goland64.vmoptions".into(), "-Xmx2g\n  -Dawt.toolkit.name=XToolkit\n");
    assert!(e.has_xtoolkit);
    assert!(!e.has_recreate_xim);
}

#[test]
fn patching_appends_only_the_missing_options() {
    let (c, added) = patched_vmoptions("-Xmx2g", true, false);
    assert_eq!(c, "-Xmx2g\n# popmgr: rebuild X input method context after IME daemon restarts\n-Drecreate.x11.input.method=true\n");
    assert_eq!(added, vec!["-Drecreate.x11.input.method=true".to_string()]);
    let (c, added) = patched_vmoptions("", false, false);
    assert!(c.starts_with("\n# popmgr: Korean IME via X11 XIM"));
    assert_eq!(added.len(), 2);
}

#[test]
fn vmoptions_log_lines() {
    assert_eq!(vmoptions_skip_line(&"IDEA".to_string()), "[스킵] IDEA — 이미 설정됨\n");
    let backup = vmoptions_backup(&"/h/idea64.vmoptions".to_string(), 1700000000);
    assert_eq!(backup, "/h/idea64.vmoptions.popmgr-backup-1700000000");
    assert_eq!(
        vmoptions_ok_line(&"IDEA".to_string(), &vec!["-a".to_string(), "-b".to_string()], &backup),
        "[OK] IDEA — 추가: -a, -b (백업: /h/idea64.vmoptions.popmgr-backup-1700000000)\n"
    );
}
