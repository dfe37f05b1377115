use popmgr::ui::apps::{record_step, RecordEvent, RecordStep};
use popmgr::ui::apps::{
    add_recording_shortcut_description, civil_datetime_string, flatpak_scope, mpv_player_state,
    nvidia_runtime_extension, recording_install_script, recording_output_file, recording_start_args,
    xdg_mime_default_args, FlatpakScope, PlayerState, GSR_APP, VIDEO_MIME_TYPES,
};
use popmgr::ui::cosmic::{parse_shortcut_entries, replace_shortcut_entries};
use std::path::Path;

const SEVEN_SHORTCUTS: &str = r#"{
    (modifiers: [Ctrl], key: "F1"): Spawn("one"),
    (modifiers: [Ctrl], key: "F2"): Spawn("two"),
    (modifiers: [Ctrl], key: "F3"): Spawn("three"),
    (modifiers: [Ctrl], key: "F4"): Spawn("four"),
    (modifiers: [Ctrl], key: "F5"): Spawn("five"),
    (modifiers: [Ctrl], key: "F6"): Spawn("six"),
    (modifiers: [Ctrl], key: "F7"): Spawn("seven"),
}"#;

#[test]
fn video_mime_types_have_nine_unique_entries() {
    let unique: std::collections::HashSet<_> = VIDEO_MIME_TYPES.iter().collect();
    assert_eq!(VIDEO_MIME_TYPES.len(), 9);
    assert_eq!(unique.len(), VIDEO_MIME_TYPES.len());
}

#[test]
fn xdg_mime_default_args_include_every_video_mime_and_one_desktop_entry() {
    let args = xdg_mime_default_args();
    assert_eq!(args.iter().filter(|arg| **arg == "mpv.desktop").count(), 1);
    for mime_type in VIDEO_MIME_TYPES {
        assert!(args.contains(&mime_type), "missing {mime_type}");
    }
}

#[test]
fn mpv_player_state_is_not_installed_without_mpv() {
    assert_eq!(mpv_player_state(false, false), PlayerState::NotInstalled);
}

#[test]
fn mpv_player_state_recommends_default_when_mpv_is_not_selected() {
    assert_eq!(mpv_player_state(true, false), PlayerState::InstalledNotDefault);
}

#[test]
fn mpv_player_state_is_default_when_mpv_is_selected() {
    assert_eq!(mpv_player_state(true, true), PlayerState::IsDefault);
}

#[test]
fn determines_gsr_install_scope_from_flatpak_list_fixtures() {
    assert_eq!(flatpak_scope("com.dec05eba.gpu_screen_recorder\tsystem", GSR_APP), FlatpakScope::System);
    assert_eq!(flatpak_scope("com.dec05eba.gpu_screen_recorder\tuser", GSR_APP), FlatpakScope::User);
    assert_eq!(flatpak_scope("com.obsproject.Studio\tuser", GSR_APP), FlatpakScope::NotInstalled);
}

#[test]
fn converts_host_nvidia_version_to_runtime_extension() {
    assert_eq!(
        nvidia_runtime_extension("580.173.02\n").as_deref(),
        Some("org.freedesktop.Platform.GL.nvidia-580-173-02"),
    );
}

#[test]
fn install_fix_script_orders_user_uninstall_remote_system_install_and_obs_runtime() {
    let extension = "org.freedesktop.Platform.GL.nvidia-580-173-02";
    let script = recording_install_script(FlatpakScope::User, false, FlatpakScope::User, extension);
    let uninstall = script.find("flatpak uninstall --user -y --noninteractive").unwrap();
    let remote = script.find("flatpak remote-add --system --if-not-exists flathub").unwrap();
    let system = script.find("flatpak install --system -y --noninteractive flathub").unwrap();
    let user = script.rfind("flatpak install --user -y --noninteractive flathub").unwrap();
    assert!(uninstall < remote && remote < system && system < user);
    assert!(script.contains(&format!("{GSR_APP} {extension}")));
    assert!(script.contains(&format!("flathub {extension}")));
}

#[test]
fn toggle_start_command_contains_every_required_gsr_flag() {
    let command = recording_start_args("/tmp/Recordings/Recording_x.mp4").join(" ");
    for flag in [
        "--command=gpu-screen-recorder", "-w portal", "-restore-portal-session yes",
        "-f 60", "-k h264", "-encoder gpu", "-fallback-cpu-encoding no",
        "-a default_output", "-ac opus", "-c mp4", "-cursor yes",
        "-o /tmp/Recordings/Recording_x.mp4",
    ] {
        assert!(command.contains(flag), "missing {flag}");
    }
    assert!(!command.contains("-ro "), "must not use -ro for regular recording: {command}");
}

#[test]
fn recording_output_file_has_mp4_extension_under_the_given_directory() {
    let dir = Path::new("/tmp/Recordings");
    let file = recording_output_file("/tmp/Recordings", 1789354791);
    let file = Path::new(&file);
    assert_eq!(file.parent(), Some(dir));
    assert_eq!(file.extension().and_then(|e| e.to_str()), Some("mp4"));
    assert!(file.file_name().unwrap().to_str().unwrap().starts_with("Recording_"));
}

#[test]
fn civil_datetime_string_matches_known_unix_time() {
    assert_eq!(civil_datetime_string(1789354791), "2026-09-14_02-59-51");
}

#[test]
fn pgrep_pattern_matches_the_actual_gsr_process_command_line() {
    let real_gsr_cmdline =
        "gpu-screen-recorder -w portal -restore-portal-session yes -f 30 -o /tmp/x.mp4";
    let flatpak_wrapper =
        "flatpak run --command=gpu-screen-recorder com.dec05eba.gpu_screen_recorder -w portal";
    const PATTERN: &str = "gpu-screen-recorder -w";
    assert!(real_gsr_cmdline.contains(PATTERN));
    assert!(!flatpak_wrapper.contains(PATTERN));
}

#[test]
fn adds_ctrl_shift_six_without_reordering_or_reformatting_existing_shortcuts() {
    let updated = replace_shortcut_entries(
        SEVEN_SHORTCUTS,
        &[("6", "/absolute/popmgr --record-toggle".into())],
    );
    let described = add_recording_shortcut_description(&updated, "/absolute/popmgr --record-toggle");
    assert!(described.starts_with(&SEVEN_SHORTCUTS[..SEVEN_SHORTCUTS.len() - 2]));
    assert!(described.contains("key: \"6\", description: Some(\"popmgr 화면 녹화 토글\")"));
    assert_eq!(parse_shortcut_entries(&described).len(), 8);
}

fn finish(step: RecordStep) -> (Option<(String, String)>, bool, String) {
    match step {
        RecordStep::Finish { notify, result } => (notify, result.success, result.output),
        _ => panic!("expected the end"),
    }
}

#[test]
fn record_shortcut_steps() {
    assert!(matches!(record_step(RecordEvent::Probed { active: true }), RecordStep::SendStop));
    assert!(matches!(record_step(RecordEvent::Probed { active: false }), RecordStep::ListFlatpaks));
    assert!(matches!(record_step(RecordEvent::StopSent { ok: true }), RecordStep::FindNewest));
    assert_eq!(finish(record_step(RecordEvent::StopSent { ok: false })), (None, false, "녹화 정지 신호 전송 실패".into()));
    assert_eq!(
        finish(record_step(RecordEvent::NewestFile(Some("Recording_2026-09-14_02-59-51.mp4".into())))),
        (Some(("녹화 저장됨".into(), "Recording_2026-09-14_02-59-51.mp4".into())), true,
         "녹화 저장됨: Recording_2026-09-14_02-59-51.mp4".into())
    );
    assert_eq!(finish(record_step(RecordEvent::NewestFile(None))).2, "녹화 저장됨: 저장 파일을 찾지 못했습니다");
    assert!(matches!(
        record_step(RecordEvent::Listed("com.dec05eba.gpu_screen_recorder\tsystem\n".into())),
        RecordStep::MakeFolder
    ));
    assert_eq!(
        finish(record_step(RecordEvent::Listed("com.dec05eba.gpu_screen_recorder\tuser\n".into()))),
        (Some(("녹화 시작 불가".into(), "GPU Screen Recorder를 시스템 범위로 재설치하세요.".into())), false,
         "GSR가 사용자 범위에 설치되어 캡처할 수 없습니다.".into())
    );
    assert_eq!(finish(record_step(RecordEvent::Listed(String::new()))).2, "GPU Screen Recorder가 설치되지 않았습니다.");
    assert!(matches!(record_step(RecordEvent::FolderReady(None)), RecordStep::Start));
    assert_eq!(finish(record_step(RecordEvent::FolderReady(Some("denied".into())))).2, "녹화 폴더 생성 실패: denied");
    assert_eq!(
        finish(record_step(RecordEvent::Spawned(None))),
        (Some(("녹화 시작".into(), "Ctrl+Shift+6 으로 정지".into())), true, "녹화를 시작했습니다.".into())
    );
    assert_eq!(finish(record_step(RecordEvent::Spawned(Some("x".into())))).2, "녹화 시작 실패: x");
}

#[test]
fn log_stamp_and_file_stamp_tell_the_same_minute() {
    let secs = 1789354791;
    let c = civil_datetime_string(secs);
    assert_eq!(c, "2026-09-14_02-59-51");
    let stamp = popmgr::ui::ime_shell::chrono_like_now(secs);
    assert_eq!(stamp, "2026-09-14 02:59");
    assert_eq!(stamp, format!("{} {}:{}", &c[0..10], &c[11..13], &c[14..16]));
    let leap_day = 951782400; // 2000-02-29 00:00:00
    assert_eq!(civil_datetime_string(leap_day), "2000-02-29_00-00-00");
    assert_eq!(popmgr::ui::ime_shell::chrono_like_now(leap_day), "2000-02-29 00:00");
}
