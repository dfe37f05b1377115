use popmgr::runner::CmdResult;
use popmgr::ui::audio::{AudioLock, AudioScan, Choice, DeviceInfo, VrefInfo};
use popmgr::ui::audio_parse::{
    codec_vref, denoise_module, drop_monitors, parse_boosts, parse_devices, parse_first_percent,
    parse_hex_u32_exec, parse_jacks, split_port_desc, trim_name, CodecVref,
};
use popmgr::ui::audio_state::{
    applied_result, audio_panel, device_state_summary, lock_saved_result, stamp_profile, AudioAction, AudioMsg,
    AudioState,
};

const SOURCES: &str = "Source #56
\tState: SUSPENDED
\tName: alsa_output.pci-0000_00_1f.3.analog-stereo.monitor
\tDescription: Monitor of Built-in Audio
\tMute: no
\tVolume: front-left: 65536 / 100% / 0.00 dB,   front-right: 65536 / 100% / 0.00 dB
\tActive Port: (null)
Source #57
\tState: RUNNING
\tName: alsa_input.pci-0000_00_1f.3.analog-stereo
\tDescription: Built-in Audio Analog Stereo
\tMute: yes
\tVolume: front-left: 29491 /  45% / -20.81 dB,   front-right: 29491 /  45% / -20.81 dB
\tPorts:
\t\tanalog-input-internal-mic: Internal Microphone (type: Mic, priority: 8900, availability unknown)
\t\tanalog-input-headphone-mic: Microphone (type: Mic, priority: 8700, availability group: Legacy 2, not available)
\t\tanalog-input-headset-mic: Headset Microphone (type: Headset, priority: 8800, available)
\tActive Port: analog-input-internal-mic
\tFormats:
\t\tpcm
";

fn sources() -> Vec<DeviceInfo> {
    parse_devices(SOURCES)
}

#[test]
fn parses_pactl_devices_with_ports() {
    let d = sources();
    assert_eq!(d.len(), 2);
    let mic = &d[1];
    assert_eq!(mic.name, "alsa_input.pci-0000_00_1f.3.analog-stereo");
    assert_eq!(mic.desc, "Built-in Audio Analog Stereo");
    assert!(mic.muted);
    assert_eq!(mic.volume_pct, Some(45));
    assert_eq!(mic.active_port.as_deref(), Some("analog-input-internal-mic"));
    assert_eq!(mic.ports.len(), 3);
    assert_eq!(mic.ports[0].desc, "Internal Microphone");
    assert_eq!(mic.ports[0].available, None);
    assert_eq!(mic.ports[1].available, Some(false));
    assert_eq!(mic.ports[2].available, Some(true));
}

#[test]
fn monitors_are_dropped_from_the_inputs() {
    let d = drop_monitors(sources());
    assert_eq!(d.len(), 1);
    assert_eq!(d[0].desc, "Built-in Audio Analog Stereo");
}

#[test]
fn port_descriptions_split_at_the_last_type_bracket() {
    assert_eq!(split_port_desc("Mic (x) (type: Mic, available)"), ("Mic (x)".to_string(), Some(true)));
    assert_eq!(split_port_desc("Speaker"), ("Speaker".to_string(), None));
}

#[test]
fn first_percentage_of_a_volume_line() {
    assert_eq!(parse_first_percent("Volume: front-left: 65536 / 100% / 0.00 dB"), Some(100));
    assert_eq!(parse_first_percent("50 % then 7%"), Some(7));
    assert_eq!(parse_first_percent("no percent"), None);
}

const AMIXER: &str = "numid=20,iface=CARD,name='Headphone Mic Jack'
  ; type=BOOLEAN,access=r-------,values=1
  : values=on
numid=21,iface=CARD,name='HDMI/DP,pcm=3 Jack'
  : values=off
numid=22,iface=CARD,name='Headphone Mic Phantom Jack'
  : values=on
numid=5,iface=MIXER,name='Headset Mic Boost Volume'
  ; type=INTEGER,access=rw---R--,values=2,min=0,max=3,step=0
  : values=2,2
numid=6,iface=MIXER,name='Internal Mic Boost Volume'
  : values=0,0
";

#[test]
fn reads_jacks_and_boosts_from_amixer() {
    let jacks = parse_jacks(AMIXER);
    assert_eq!(jacks, vec![("Headphone Mic Jack".to_string(), true)]);
    let boosts = parse_boosts(AMIXER);
    assert_eq!(
        boosts,
        vec![("Headset Mic Boost".to_string(), 2), ("Internal Mic Boost".to_string(), 0)]
    );
}

#[test]
fn finds_the_noise_suppression_module() {
    let out = "24\tmodule-alsa-card\tdevice_id=0\n536870913\tmodule-echo-cancel\tsource_name=popmgr_denoise\n";
    assert_eq!(denoise_module(out).as_deref(), Some("536870913"));
    assert_eq!(denoise_module("24\tmodule-null-sink\n"), None);
}

#[test]
fn default_device_names_are_trimmed() {
    assert_eq!(trim_name(&CmdResult { success: true, output: " x\n".into() }).as_deref(), Some("x"));
    assert_eq!(trim_name(&CmdResult { success: true, output: "\n".into() }), None);
    assert_eq!(trim_name(&CmdResult { success: false, output: "x".into() }), None);
}

#[test]
fn parses_hexadecimal_node_ids() {
    let h: Vec<char> = "1a".chars().collect();
    assert_eq!(parse_hex_u32_exec(&h), Some(26));
    let bad: Vec<char> = "xyz".chars().collect();
    assert_eq!(parse_hex_u32_exec(&bad), None);
}

const CODEC: &str = "Codec: Realtek ALC3254
Address: 0
Vendor Id: 0x10ec0295
Subsystem Id: 0x10280a9f
Node 0x19 [Pin Complex] wcaps 0x40048b: Stereo Amp-In
  Pin-ctls: 0x20: IN VREF_HIZ
Node 0x1a [Pin Complex] wcaps 0x40048b: Stereo Amp-In
  Control: name=\"Headphone Mic Boost Volume\", index=0, device=0
  Pin-ctls: 0x24: IN VREF_80
";

#[test]
fn reads_the_headphone_mic_bias_from_a_codec_dump() {
    match codec_vref(CODEC, 0, false, true) {
        CodecVref::Found(v) => {
            assert_eq!(v.hwdev, "/dev/snd/hwC0D0");
            assert_eq!(v.nid, 0x1a);
            assert!(v.bias_on);
            assert_eq!(v.vendor_id, "0x10ec0295");
            assert!(v.nopass);
        }
        _ => panic!("expected the pin"),
    }
    assert!(matches!(codec_vref("Codec: other\n", 0, false, false), CodecVref::Skip));
}

fn scan(sources: Vec<DeviceInfo>, jacks: Vec<(String, bool)>) -> AudioScan {
    AudioScan {
        sinks: vec![],
        sources,
        default_sink: None,
        default_source: Some("alsa_input.pci-0000_00_1f.3.analog-stereo".into()),
        jacks,
        vref: None,
        boosts: vec![("Headset Mic Boost".into(), 2)],
        denoise_module: None,
    }
}

fn lock() -> AudioLock {
    AudioLock {
        source: "alsa_input.pci-0000_00_1f.3.analog-stereo".into(),
        port: "analog-input-headset-mic".into(),
        volume_pct: 60,
        boost_ctl: "Headset Mic Boost".into(),
        boost_val: 1,
    }
}

#[test]
fn first_reading_applies_the_fixed_input_settings() {
    let mut s = AudioState::new(Some(lock()), None);
    let (a, r) = s.update(AudioMsg::Refreshed(scan(drop_monitors(sources()), vec![])), "/bin/popmgr", "u");
    assert!(r.is_none());
    match a {
        AudioAction::Apply(script, msg) => {
            assert_eq!(script, "pactl set-source-port 'alsa_input.pci-0000_00_1f.3.analog-stereo' 'analog-input-headset-mic'; pactl set-source-volume 'alsa_input.pci-0000_00_1f.3.analog-stereo' 60%; amixer -c0 sset 'Headset Mic Boost' 1 >/dev/null; pactl set-default-source 'alsa_input.pci-0000_00_1f.3.analog-stereo'; echo '시작 시 고정된 입력 설정 적용 (헤드셋 마이크, 60%, 부스트 +10dB)'");
            assert_eq!(msg, "고정 설정 적용됨");
        }
        _ => panic!("expected the start-up script"),
    }
    assert_eq!(s.source_vol, 45);
    assert!(s.startup_enforced);
    let t = s.test_target.clone().unwrap();
    assert_eq!(t.id, "alsa_input.pci-0000_00_1f.3.analog-stereo\tanalog-input-internal-mic");
}

#[test]
fn a_replugged_jack_restores_the_fixed_port_once() {
    let mut s = AudioState::new(Some(lock()), None);
    s.startup_enforced = true;
    let plugged = vec![("Headphone Mic Jack".to_string(), true)];
    let (a, _) = s.update(AudioMsg::Refreshed(scan(drop_monitors(sources()), plugged.clone())), "e", "u");
    match a {
        AudioAction::Apply(script, msg) => {
            assert!(script.starts_with("pactl set-source-port 'alsa_input.pci-0000_00_1f.3.analog-stereo' 'analog-input-headset-mic' && "));
            assert!(script.contains("move-source-output"));
            assert_eq!(msg, "고정 설정 복원됨");
        }
        _ => panic!("expected the restore script"),
    }
    assert!(s.enforcing);
    let (a, _) = s.update(AudioMsg::Refreshed(scan(drop_monitors(sources()), plugged)), "e", "u");
    assert!(matches!(a, AudioAction::Idle));
}

#[test]
fn an_automatic_refresh_keeps_the_device_list() {
    let mut s = AudioState::new(None, None);
    s.update(AudioMsg::Refreshed(scan(drop_monitors(sources()), vec![])), "e", "u");
    assert_eq!(s.sources.len(), 1);
    s.update(AudioMsg::Refreshed(scan(vec![], vec![])), "e", "u");
    assert_eq!(s.sources.len(), 1);
    let (_, r) = s.update(AudioMsg::Reloaded(scan(vec![], vec![])), "e", "u");
    assert_eq!(s.sources.len(), 0);
    assert!(r.unwrap().output.contains("⚠ pactl가 장치를 반환하지 않음"));
}

#[test]
fn picking_an_output_moves_the_streams() {
    let mut s = AudioState::new(None, None);
    let (a, _) = s.update(AudioMsg::PickSink(Choice { id: "hdmi".into(), label: "HDMI".into() }), "e", "u");
    match a {
        AudioAction::Apply(script, msg) => {
            assert_eq!(script, "pactl set-default-sink 'hdmi' && pactl list short sink-inputs | cut -f1 | while read -r i; do pactl move-sink-input \"$i\" 'hdmi' 2>/dev/null || true; done");
            assert_eq!(msg, "기본 출력 장치 → HDMI");
        }
        _ => panic!("expected a script"),
    }
}

#[test]
fn locking_reports_missing_devices() {
    let mut s = AudioState::new(None, None);
    let (a, r) = s.update(AudioMsg::LockProfile, "e", "u");
    assert!(matches!(a, AudioAction::Idle));
    let r = r.unwrap();
    assert!(!r.success);
    assert_eq!(r.output, "입력 장치 없음");
}

#[test]
fn locking_saves_the_active_port_and_its_boost() {
    let mut s = AudioState::new(None, None);
    let mut srcs = drop_monitors(sources());
    srcs[0].active_port = Some("analog-input-headset-mic".into());
    s.update(AudioMsg::Refreshed(scan(srcs, vec![])), "e", "u");
    let (a, r) = s.update(AudioMsg::LockProfile, "e", "u");
    assert!(r.is_none());
    match a {
        AudioAction::SaveLock(l) => {
            assert_eq!(l.port, "analog-input-headset-mic");
            assert_eq!(l.boost_ctl, "Headset Mic Boost");
            assert_eq!(l.boost_val, 2);
            assert_eq!(l.volume_pct, 45);
            let done = lock_saved_result(&l, None);
            assert_eq!(done.output, "입력 설정 고정됨: 헤드셋 마이크 / 볼륨 45% / 부스트 +20dB — 잭을 다시 꽂으면 자동 복원됩니다.");
            let failed = lock_saved_result(&l, Some("disk full".into()));
            assert!(!failed.success);
            assert_eq!(failed.output, "고정 저장 실패: disk full");
        }
        _ => panic!("expected the lock"),
    }
    assert!(s.lock.is_some());
}

#[test]
fn vref_on_uses_the_helper_then_pkexec() {
    let mut s = AudioState::new(None, None);
    let mut sc = scan(vec![], vec![]);
    sc.vref = Some(VrefInfo {
        hwdev: "/dev/snd/hwC0D0".into(),
        nid: 0x1a,
        bias_on: false,
        vendor_id: "0x10ec0295".into(),
        subsys_id: "0x10280a9f".into(),
        codec_addr: 0,
        boot_patch: false,
        nopass: false,
    });
    s.update(AudioMsg::Refreshed(sc), "e", "u");
    let (a, _) = s.update(AudioMsg::VrefOn, "/opt/popmgr", "u");
    match a {
        AudioAction::Apply(script, _) => assert_eq!(script, "sudo -n /usr/local/bin/popmgr-helper --apply-vref '/dev/snd/hwC0D0' 0x1a 0x24 2>/dev/null || pkexec '/opt/popmgr' --apply-vref '/dev/snd/hwC0D0' 0x1a 0x24 2>&1"),
        _ => panic!("expected a script"),
    }
    assert_eq!(s.running.as_deref(), Some("핀마이크 전원 켜는 중 (관리자 인증 필요)..."));
}

#[test]
fn applied_results_carry_the_message_and_output() {
    let ok = applied_result(CmdResult { success: true, output: " \n".into() }, "done");
    assert_eq!(ok.output, "done");
    let more = applied_result(CmdResult { success: true, output: "x\n".into() }, "done");
    assert_eq!(more.output, "done\nx");
    let bad = applied_result(CmdResult { success: false, output: "err".into() }, "done");
    assert!(!bad.success);
    assert_eq!(bad.output, "err");
}

#[test]
fn profiles_are_stamped_with_the_date_or_a_question_mark() {
    let p = popmgr::ui::audio::AudioProfile {
        saved_at: String::new(),
        sink: "s".into(),
        sink_desc: "".into(),
        sink_port: None,
        sink_volume_pct: 50,
        source: "m".into(),
        source_desc: "".into(),
        source_port: None,
        source_volume_pct: 40,
        boost_ctl: "".into(),
        boost_val: 0,
        denoise: false,
    };
    assert_eq!(stamp_profile(p.clone(), "2026-01-02 03:04\n").saved_at, "2026-01-02 03:04");
    assert_eq!(stamp_profile(p, "").saved_at, "?");
}

#[test]
fn state_summary_lists_defaults_and_devices() {
    let sc = scan(drop_monitors(sources()), vec![("Headphone Mic Jack".into(), true)]);
    let s = device_state_summary(&sc);
    let lines: Vec<&str> = s.lines().collect();
    assert_eq!(lines[0], "장치 다시 읽음 — 출력 0개 / 입력 1개");
    assert_eq!(lines[1], "기본 출력: (설정 안 됨)");
    assert!(lines[2].starts_with("기본 입력: Built-in Audio Analog Stereo [내부 마이크] vol 45%"));
    assert!(lines[4].starts_with("잭: "));
}

#[test]
fn input_slider_holds_until_released_then_follows_readings() {
    let mut s = AudioState::new(None, None);
    s.update(AudioMsg::Refreshed(scan(drop_monitors(sources()), vec![])), "e", "u");
    assert_eq!(s.source_vol, 45);
    s.update(AudioMsg::SourceVol(80), "e", "u");
    s.update(AudioMsg::Refreshed(scan(drop_monitors(sources()), vec![])), "e", "u");
    assert_eq!(s.source_vol, 80);
    s.update(AudioMsg::Reloaded(scan(drop_monitors(sources()), vec![])), "e", "u");
    assert_eq!(s.source_vol, 80);
    s.update(AudioMsg::SourceVolCommit, "e", "u");
    s.update(AudioMsg::Refreshed(scan(drop_monitors(sources()), vec![])), "e", "u");
    assert_eq!(s.source_vol, 45);
    s.update(AudioMsg::Refreshed(scan(vec![], vec![])), "e", "u");
    s.update(AudioMsg::Reloaded(scan(vec![], vec![])), "e", "u");
    assert_eq!(s.source_vol, 0);
}

#[test]
fn audio_panel_hint_and_boost_follow_the_active_port() {
    let mut s = AudioState::new(None, None);
    assert!(audio_panel(&s).is_none());
    let jacks = vec![("Mic Jack".to_string(), true)];
    s.update(AudioMsg::Refreshed(scan(drop_monitors(sources()), jacks)), "e", "u");
    let p = audio_panel(&s).unwrap();
    assert!(p.mic_on_internal);
    assert!(!p.bias_card);
    assert_eq!(p.boost, None);
    let mut sc = scan(drop_monitors(sources()), vec![]);
    sc.boosts = vec![("Internal Mic Boost".into(), 3)];
    s.update(AudioMsg::Refreshed(sc), "e", "u");
    let p = audio_panel(&s).unwrap();
    assert!(!p.mic_on_internal);
    assert_eq!(p.boost, Some(("Internal Mic Boost".to_string(), 3)));
}
