use popmgr::ui::ime::{apply_result, behavior_note, missing_daemon_result, other_daemons, restart_result, user_units};
use popmgr::ui::ime_shell::snap_im_leak;
use popmgr::ui::ime::{is_soffice_comm, libreoffice_ime_state, lo_compat_installed, resume_hook_installed, resume_hook_script};
use popmgr::ui::ime::{
    desktop_hidden, desktop_launches_fcitx5, parse_fcitx5_behavior, patch_fcitx5_behavior,
    patch_libreoffice_desktop, startup_daemon_to_start, ImeKind, FCITX5_RESTART_SH, LO_COMPAT_MARKER,
};
use popmgr::ui::ime_gtk::{
    detect_glib_mismatch, gtk_fix_guidance, gtk_module_bug_report, gtk_module_bug_state, is_buggy_gtk_version,
    parse_apt_candidate, GtkModuleBugState, GtkModuleBugStatus,
};

#[test]
fn startup_keeps_a_running_daemon_alive() {
    assert_eq!(
        startup_daemon_to_start(Some(&ImeKind::Fcitx5), Some(&ImeKind::Fcitx5)),
        None,
    );
}

#[test]
fn startup_starts_the_active_daemon_when_missing() {
    assert_eq!(
        startup_daemon_to_start(Some(&ImeKind::Fcitx5), None),
        Some(ImeKind::Fcitx5),
    );
}

#[test]
fn libreoffice_desktop_patch_updates_every_exec_entry() {
    let original = "[Desktop Entry]\nExec=libreoffice --writer %U\n[Desktop Action New]\nExec=libreoffice --writer\n";
    let patched = patch_libreoffice_desktop(original);
    assert!(patched.starts_with(LO_COMPAT_MARKER));
    assert_eq!(
        patched.matches(
            "Exec=env -u WAYLAND_DISPLAY GDK_BACKEND=x11 GTK_IM_MODULE=xim libreoffice"
        ).count(),
        2,
    );
}

#[test]
fn libreoffice_desktop_patch_does_not_double_prefix() {
    let original = "Exec=env -u WAYLAND_DISPLAY GDK_BACKEND=x11 GTK_IM_MODULE=xim libreoffice --writer %U\n";
    let patched = patch_libreoffice_desktop(original);
    assert_eq!(patched.matches("GDK_BACKEND=x11").count(), 1);
}

const REAL: &str = "[Hotkey]\n\
# 트리거 키를 반복해서 누를 때 열거하기\n\
EnumerateWithTriggerKeys=True\n\
# 입력기 전환\n\
EnumerateForwardKeys=\n\
\n\
[Hotkey/TriggerKeys]\n\
0=Control+space\n\
1=Shift+space\n\
2=Hangul\n\
\n\
[Hotkey/AltTriggerKeys]\n\
0=Shift_L\n\
\n\
[Hotkey/PrevPage]\n\
0=Up\n\
\n\
[Behavior]\n\
# 기본적으로 활성화\n\
ActiveByDefault=False\n\
# 입력 상태 공유\n\
ShareInputState=No\n\
# 페이지 크기 기본값\n\
DefaultPageSize=5\n";

#[test]
fn defaults_when_config_is_missing() {
    let b = parse_fcitx5_behavior("");
    assert_eq!(b.share_input_state, "No");
    assert!(!b.active_by_default);
    assert!(b.shift_alt_trigger, "AltTriggerKeys 미지정 = fcitx5 기본값 Shift_L");
    assert!(!b.is_ok());
}

#[test]
fn parses_the_real_default_config_as_broken() {
    let b = parse_fcitx5_behavior(REAL);
    assert_eq!(b.share_input_state, "No");
    assert!(!b.active_by_default);
    assert!(b.shift_alt_trigger);
    assert!(!b.is_ok());
}

#[test]
fn patch_fixes_policy_and_keeps_everything_else() {
    let patched = patch_fcitx5_behavior(REAL);
    assert!(parse_fcitx5_behavior(&patched).is_ok(), "{patched}");
    assert_eq!(patched.matches("ShareInputState=All").count(), 1);
    assert_eq!(patched.matches("ActiveByDefault=True").count(), 1);
    assert!(!patched.contains("ShareInputState=No"));
    assert!(!patched.contains("ActiveByDefault=False"));
    assert!(!patched.contains("[Hotkey/AltTriggerKeys]"));
    assert!(patched.contains("[Hotkey]\n# 트리거 키를 반복해서 누를 때 열거하기\nEnumerateWithTriggerKeys=True"));
    assert!(patched.contains("EnumerateForwardKeys=\nAltTriggerKeys=\n\n[Hotkey/TriggerKeys]\n0=Control+space\n1=Shift+space\n2=Hangul\n"));
    assert!(patched.contains("[Hotkey/PrevPage]\n0=Up\n"));
    assert!(patched.contains("# 페이지 크기 기본값\nDefaultPageSize=5\n"));
}

#[test]
fn patch_is_idempotent() {
    let once = patch_fcitx5_behavior(REAL);
    assert_eq!(patch_fcitx5_behavior(&once), once);
}

#[test]
fn patch_creates_sections_for_an_empty_file() {
    let patched = patch_fcitx5_behavior("");
    assert_eq!(patched, "[Hotkey]\nAltTriggerKeys=\n\n[Behavior]\nShareInputState=All\nActiveByDefault=True\n");
    assert!(parse_fcitx5_behavior(&patched).is_ok());
}

#[test]
fn empty_alt_trigger_key_means_no_shift_toggle() {
    let content = "[Hotkey]\nAltTriggerKeys=\n\n[Behavior]\nShareInputState=All\nActiveByDefault=True\n";
    let b = parse_fcitx5_behavior(content);
    assert!(!b.shift_alt_trigger);
    assert!(b.is_ok());
}

#[test]
fn parses_shift_l_alt_trigger_entry() {
    let content = "[Hotkey/AltTriggerKeys]\n0=Shift_L\n";
    assert!(parse_fcitx5_behavior(content).shift_alt_trigger);
}

#[test]
fn parses_shift_l_among_other_alt_trigger_entries() {
    let content = "[Hotkey/AltTriggerKeys]\n0=Shift_L\n1=Shift_R\n";
    assert!(parse_fcitx5_behavior(content).shift_alt_trigger);
}

#[test]
fn does_not_treat_shift_r_as_shift_l_alt_trigger() {
    let content = "[Hotkey/AltTriggerKeys]\n0=Shift_R\n";
    assert!(!parse_fcitx5_behavior(content).shift_alt_trigger);
}

#[test]
fn does_not_treat_control_shift_l_as_shift_l_alt_trigger() {
    let content = "[Hotkey/AltTriggerKeys]\n0=Control+Shift_L\n";
    assert!(!parse_fcitx5_behavior(content).shift_alt_trigger);
}

#[test]
fn patch_replaces_first_duplicate_key_and_removes_the_rest() {
    let content = "[Behavior]\nShareInputState=No\nShareInputState=Program\nActiveByDefault=False\n";
    let patched = patch_fcitx5_behavior(content);
    assert_eq!(patched.matches("ShareInputState=").count(), 1);
    assert!(patched.contains("ShareInputState=All\n"));
}

#[test]
fn patch_is_independent_of_section_order() {
    let content = "[Behavior]\nActiveByDefault=False\nShareInputState=No\n\n[Hotkey/AltTriggerKeys]\n0=Shift_R\n";
    let patched = patch_fcitx5_behavior(content);
    assert!(parse_fcitx5_behavior(&patched).is_ok(), "{patched}");
    assert!(patched.contains("[Hotkey/AltTriggerKeys]\n0=Shift_R\n"));
}

#[test]
fn patch_without_trailing_newline_is_idempotent() {
    let content = "[Hotkey/AltTriggerKeys]\n0=Shift_L\n1=Shift_R\n[Behavior]\nShareInputState=No\nActiveByDefault=False";
    let once = patch_fcitx5_behavior(content);
    assert!(!once.ends_with('\n'));
    assert_eq!(patch_fcitx5_behavior(&once), once);
}

#[test]
fn program_scope_is_not_enough() {
    let content = "[Hotkey]\nAltTriggerKeys=\n\n[Behavior]\nShareInputState=Program\nActiveByDefault=True\n";
    assert!(!parse_fcitx5_behavior(content).is_ok());
}

#[test]
fn detects_fcitx5_autostart_entries() {
    assert!(desktop_launches_fcitx5("[Desktop Entry]\nExec=fcitx5 -d --replace\n"));
    assert!(desktop_launches_fcitx5("[Desktop Entry]\nExec=/usr/bin/fcitx5\n"));
    assert!(!desktop_launches_fcitx5("[Desktop Entry]\nExec=fcitx5-configtool\n"));
    assert!(!desktop_launches_fcitx5("[Desktop Entry]\nExec=kime\n"));
}

#[test]
fn detects_hidden_overrides() {
    assert!(desktop_hidden("[Desktop Entry]\nHidden=true\n"));
    assert!(desktop_hidden("[Desktop Entry]\nX-GNOME-Autostart-enabled=false\n"));
    assert!(!desktop_hidden("[Desktop Entry]\nX-GNOME-Autostart-enabled=true\n"));
}

#[test]
fn fcitx5_restart_has_no_single_quote() {
    assert!(!FCITX5_RESTART_SH.contains('\''));
    assert!(!FCITX5_RESTART_SH.contains("--replace"));
}

#[test]
fn version_matching() {
    assert!(is_buggy_gtk_version(Some("5.1.3-2")));
    assert!(!is_buggy_gtk_version(Some("5.1.1-1build2")));
    assert!(!is_buggy_gtk_version(Some("5.1.3-20")));
    assert!(!is_buggy_gtk_version(None));
}

#[test]
fn glib_mismatch_output() {
    let failure = "GModule initialization check failed: GLib version too old (micro mismatch)";
    assert!(detect_glib_mismatch(failure));
    assert!(!detect_glib_mismatch("\"fcitx\" \"Fcitx5\""));
    assert_eq!(gtk_module_bug_state(Some(failure), false), GtkModuleBugState::Confirmed);
    assert_eq!(gtk_module_bug_state(Some("loaded"), true), GtkModuleBugState::Healthy);
    assert_eq!(gtk_module_bug_state(None, true), GtkModuleBugState::SuspectedByVersion);
    assert_eq!(gtk_module_bug_state(None, false), GtkModuleBugState::Healthy);
}

#[test]
fn candidate_policy_fixture() {
    let policy = "fcitx5-frontend-gtk3:\n  설치: 5.1.3-2\n  후보: 5.1.1-1build2\n  버전 테이블:\n";
    assert_eq!(parse_apt_candidate(policy).as_deref(), Some("5.1.1-1build2"));
    assert_eq!(parse_apt_candidate("  Candidate: 5.1.3-3").as_deref(), Some("5.1.3-3"));
    assert_eq!(parse_apt_candidate("  후보: (없음)"), None);
    assert_eq!(parse_apt_candidate("  Candidate: (none)"), None);
    assert_eq!(parse_apt_candidate(""), None);
}

#[test]
fn guidance_includes_multiple_packages() {
    let packages = vec![
        ("fcitx5-frontend-gtk3".into(), "5.1.3-2".into(), Some("5.1.1-1build2".into())),
        ("fcitx5-frontend-gtk4".into(), "5.1.3-2".into(), Some("5.1.1-1build2".into())),
    ];
    assert_eq!(gtk_fix_guidance(&packages),
        "sudo apt-get install --reinstall --allow-downgrades \
         fcitx5-frontend-gtk3=5.1.1-1build2 fcitx5-frontend-gtk4=5.1.1-1build2");
}

#[test]
fn guidance_falls_back_without_safe_candidate() {
    for candidate in [Some("5.1.3-2".into()), None] {
        let packages = vec![("fcitx5-frontend-gtk3".into(), "5.1.3-2".into(), candidate)];
        assert!(gtk_fix_guidance(&packages).contains("안전한 버전 없음"));
    }
    assert!(gtk_fix_guidance(&[]).contains("안전한 버전 없음"));
}

#[test]
fn gtk_report_without_module() {
    assert_eq!(gtk_module_bug_report(None), "[i] GTK3 fcitx5 모듈 없음 — 진단 생략");
}

#[test]
fn gtk_report_lists_packages_and_fix() {
    let st = GtkModuleBugStatus {
        packages: vec![("fcitx5-frontend-gtk3".into(), Some("5.1.3-2".into())), ("libfcitx5gclient2".into(), None)],
        state: GtkModuleBugState::SuspectedByVersion,
        fix_command: Some("sudo apt install x".into()),
    };
    assert_eq!(
        gtk_module_bug_report(Some(&st)),
        "[!] fcitx5 GTK 입력기 모듈에 알려진 버그\nfcitx5-frontend-gtk3: 5.1.3-2\nlibfcitx5gclient2: 미설치\n\
         확인 불가 — 알려진 버그 버전이지만 직접 검증은 못함\nhttps://bugs.kali.org/view.php?id=9146\nsudo apt install x"
    );
    let ok = GtkModuleBugStatus { packages: vec![], state: GtkModuleBugState::Healthy, fix_command: None };
    assert_eq!(gtk_module_bug_report(Some(&ok)), "[OK] fcitx5 GTK 입력기 모듈 정상");
}

#[test]
fn snap_module_cache_is_a_leak() {
    assert_eq!(snap_im_leak(Some("/snap/code/common/.cache/immodules/immodules.cache")).as_deref(),
        Some("/snap/code/common/.cache/immodules/immodules.cache"));
    assert_eq!(snap_im_leak(Some("/home/u/.snap/x/immodules.cache")).as_deref(), Some("/home/u/.snap/x/immodules.cache"));
    assert_eq!(snap_im_leak(Some("/usr/lib/x86_64-linux-gnu/gtk-3.0/3.0.0/immodules.cache")), None);
    assert_eq!(snap_im_leak(None), None);
}

#[test]
fn libreoffice_process_state() {
    assert!(is_soffice_comm("soffice.bin\n"));
    assert!(!is_soffice_comm("soffice\n"));
    let env = b"HOME=/home/u\0WAYLAND_DISPLAY=wayland-1\0LANG=ko_KR.UTF-8\0";
    assert_eq!(libreoffice_ime_state(env, "7f00 r-xp /usr/lib/im-fcitx5.so\n"), (true, true));
    assert_eq!(libreoffice_ime_state(b"WAYLAND_DISPLAY=\0DISPLAY=:0\0", "libgtk-3.so\n"), (false, false));
    assert_eq!(libreoffice_ime_state(b"XWAYLAND_DISPLAY=w\0", ""), (false, false));
    assert_eq!(libreoffice_ime_state(b"WAYLAND_DISPLAY=w", ""), (true, false));
}

#[test]
fn compat_and_hook_markers() {
    assert!(lo_compat_installed("[Desktop Entry]\n# popmgr-libreoffice-ime-compat: v2\nExec=x\n"));
    assert!(!lo_compat_installed("# popmgr-libreoffice-ime-compat: v1\n"));
    assert!(resume_hook_installed(&resume_hook_script()));
    assert!(!resume_hook_installed("#!/bin/sh\n# popmgr-resume-ime-hook: v2\n"));
}

#[test]
fn switching_input_methods_stops_others_and_sets_units() {
    assert_eq!(other_daemons(&ImeKind::Fcitx5), vec!["ibus-daemon", "kime"]);
    assert_eq!(other_daemons(&ImeKind::Kime), vec!["ibus-daemon", "fcitx5"]);
    assert_eq!(user_units(&ImeKind::Ibus), (vec!["ibus.service"], vec!["fcitx5-korean.service"]));
    assert_eq!(user_units(&ImeKind::Fcitx5), (vec!["fcitx5-korean.service"], vec!["ibus.service"]));
    assert_eq!(user_units(&ImeKind::Kime), (vec![], vec!["ibus.service", "fcitx5-korean.service"]));
}

#[test]
fn switch_and_restart_reports() {
    let m = missing_daemon_result(&ImeKind::Kime, true);
    assert!(!m.success);
    assert_eq!(m.output, "kime 미설치: 'kime' 바이너리를 찾을 수 없습니다.\n먼저 설치 버튼을 눌러주세요.");
    assert_eq!(missing_daemon_result(&ImeKind::Ibus, false).output, "ibus 미설치: 'ibus-daemon' 바이너리를 찾을 수 없습니다.");
    let r = restart_result(&ImeKind::Fcitx5, false);
    assert!(!r.success);
    assert_eq!(r.output, "fcitx5 데몬이 시작되지 않았습니다.\n터미널에서 직접 `fcitx5` 실행 후 에러 메시지를 확인해주세요.");
    assert!(restart_result(&ImeKind::Fcitx5, true).output.starts_with("fcitx5 데몬 재시작 완료."));
    let fail = popmgr::runner::CmdResult { success: false, output: "쓰기 실패\n상세".into() };
    assert_eq!(behavior_note(&fail), "\n- [!] fcitx5 설정 갱신 실패: 쓰기 실패");
    let a = apply_result(&ImeKind::Fcitx5, true, "\n- X");
    assert!(a.success);
    assert!(a.output.starts_with("fcitx5 적용 완료.\n- /etc/environment 업데이트\n- 데몬 시작 확인됨\n- X\n\n[중요]"));
    let d = apply_result(&ImeKind::Ibus, false, "");
    assert!(!d.success);
    assert!(d.output.starts_with("/etc/environment는 업데이트했지만 ibus 데몬이 시작되지 않았습니다."));
}

#[test]
fn gtk_downgrade_candidates() {
    let ps: Vec<(String, Option<String>)> = vec![
        ("fcitx5-frontend-gtk3".into(), Some("5.1.3-2".into())),
        ("fcitx5-frontend-gtk4".into(), Some("5.1.1-1".into())),
        ("libfcitx5gclient2".into(), None),
    ];
    assert_eq!(popmgr::ui::ime_gtk::gtk_candidate_packages(&ps, GtkModuleBugState::Healthy), vec![]);
    assert_eq!(
        popmgr::ui::ime_gtk::gtk_candidate_packages(&ps, GtkModuleBugState::SuspectedByVersion),
        vec![("fcitx5-frontend-gtk3".to_string(), "5.1.3-2".to_string())]
    );
    assert_eq!(popmgr::ui::ime_gtk::gtk_candidate_packages(&ps, GtkModuleBugState::Confirmed).len(), 2);
}
