//! Audio: the state of the audio tab and how it answers each message: which
//! command runs, what the log is told, and what is kept fixed or saved.

use vstd::prelude::*;
use crate::runner::CmdResult;
use crate::text::{
    chars_of, chars_of_string, decimal, eq, eq_str, extend, extend_str, find_char, hex_lower, opt_view,
    push_decimal, push_hex, split_once, split_once_exec, string_of, subseq, trim, trim_exec,
};
use crate::ui::audio::{
    boost_ctl_for_port, build_load_script, dev_brief, jack_label, port_label_kr, profile_summary,
    spec_boost_ctl_for_port, spec_load_script, spec_port_label_kr, spec_profile_summary,
    spec_is_virtual_dev, is_virtual_dev, spec_test_choice, test_choice, choice_view,
    AudioLock, AudioProfile, AudioScan, Choice, DeviceInfo, PortInfo, VrefInfo, spec_jack_label, spec_dev_brief,
};

verus! {

/// Loads noise suppression (WebRTC echo cancellation) and moves every recording to it.
pub const DENOISE_ON_SCRIPT: &'static str = "pactl load-module module-echo-cancel 'source_name=popmgr_denoise aec_method=webrtc aec_args=\"analog_gain_control=0 digital_gain_control=1 noise_suppression=1\"' >/dev/null && sleep 0.3 && pactl set-default-source popmgr_denoise && pactl list short source-outputs | cut -f1 | while read -r i; do pactl move-source-output \"$i\" popmgr_denoise 2>/dev/null || true; done; echo '노이즈 억제 켜짐 — OBS 등 모든 앱이 잡음 제거된 마이크를 사용합니다'";

/// Removes the boot-time pin-mic patch.
pub const BOOT_REMOVE_SCRIPT: &'static str = "pkexec bash -c 'rm -f /lib/firmware/popmgr-pinmic.fw /etc/modprobe.d/popmgr-pinmic.conf && echo 부팅\\ 패치\\ 제거됨' 2>&1";

/// Plays the last test recording.
pub const PLAY_SCRIPT: &'static str = "aplay /tmp/popmgr-mictest.wav 2>&1";

/// Sets a boost control, quietly.
pub open spec fn boost_cmd(ctl: Seq<char>, val: u32) -> Seq<char> {
    "amixer -c0 sset '"@ + ctl + "' "@ + decimal(val as nat) + " >/dev/null; "@
}

pub fn boost_cmd_exec(ctl: &[char], val: u32) -> (r: Vec<char>)
    ensures
        r@ == boost_cmd(ctl@, val),
{
    let mut o: Vec<char> = Vec::new();
    extend_str(&mut o, "amixer -c0 sset '");
    extend(&mut o, ctl);
    extend_str(&mut o, "' ");
    push_decimal(&mut o, val as u64);
    extend_str(&mut o, " >/dev/null; ");
    assert(o@ =~= boost_cmd(ctl@, val));
    o
}

/// Applies the fixed input settings once at start-up.
pub open spec fn startup_script(src: Seq<char>, port: Seq<char>, vol: u32, boost: Seq<char>, label: Seq<char>, bdb: u64) -> Seq<char> {
    "pactl set-source-port '"@ + src + "' '"@ + port + "'; pactl set-source-volume '"@ + src + "' "@ + decimal(vol as nat) + "%; "@ + boost + "pactl set-default-source '"@ + src + "'; echo '시작 시 고정된 입력 설정 적용 ("@ + label + ", "@ + decimal(vol as nat) + "%, 부스트 +"@ + decimal(bdb as nat) + "dB)'"@
}

pub fn startup_script_exec(src: &[char], port: &[char], vol: u32, boost: &[char], label: &[char], bdb: u64) -> (r: Vec<char>)
    ensures
        r@ == startup_script(src@, port@, vol, boost@, label@, bdb),
{
    let mut o: Vec<char> = Vec::new();
    extend_str(&mut o, "pactl set-source-port '");
    extend(&mut o, src);
    extend_str(&mut o, "' '");
    extend(&mut o, port);
    extend_str(&mut o, "'; pactl set-source-volume '");
    extend(&mut o, src);
    extend_str(&mut o, "' ");
    push_decimal(&mut o, vol as u64);
    extend_str(&mut o, "%; ");
    extend(&mut o, boost);
    extend_str(&mut o, "pactl set-default-source '");
    extend(&mut o, src);
    extend_str(&mut o, "'; echo '시작 시 고정된 입력 설정 적용 (");
    extend(&mut o, label);
    extend_str(&mut o, ", ");
    push_decimal(&mut o, vol as u64);
    extend_str(&mut o, "%, 부스트 +");
    push_decimal(&mut o, bdb as u64);
    extend_str(&mut o, "dB)'");
    assert(o@ =~= startup_script(src@, port@, vol, boost@, label@, bdb));
    o
}

/// Makes a source the default and moves the running recordings to it.
pub open spec fn move_streams_script(src: Seq<char>) -> Seq<char> {
    "pactl set-default-source '"@ + src + "'; pactl list short source-outputs | cut -f1 | while read -r i; do pactl move-source-output \"$i\" '"@ + src + "' 2>/dev/null || true; done; "@
}

pub fn move_streams_script_exec(src: &[char]) -> (r: Vec<char>)
    ensures
        r@ == move_streams_script(src@),
{
    let mut o: Vec<char> = Vec::new();
    extend_str(&mut o, "pactl set-default-source '");
    extend(&mut o, src);
    extend_str(&mut o, "'; pactl list short source-outputs | cut -f1 | while read -r i; do pactl move-source-output \"$i\" '");
    extend(&mut o, src);
    extend_str(&mut o, "' 2>/dev/null || true; done; ");
    assert(o@ =~= move_streams_script(src@));
    o
}

/// Restores the fixed input settings after a jack replug reset them.
pub open spec fn restore_script(src: Seq<char>, port: Seq<char>, vol: u32, boost: Seq<char>, move_streams: Seq<char>, label: Seq<char>, bdb: u64) -> Seq<char> {
    "pactl set-source-port '"@ + src + "' '"@ + port + "' && pactl set-source-volume '"@ + src + "' "@ + decimal(vol as nat) + "%; "@ + boost + move_streams + "echo '잭 재연결 감지 — 고정된 입력 설정 자동 복원 ("@ + label + ", "@ + decimal(vol as nat) + "%, 부스트 +"@ + decimal(bdb as nat) + "dB)'"@
}

pub fn restore_script_exec(src: &[char], port: &[char], vol: u32, boost: &[char], move_streams: &[char], label: &[char], bdb: u64) -> (r: Vec<char>)
    ensures
        r@ == restore_script(src@, port@, vol, boost@, move_streams@, label@, bdb),
{
    let mut o: Vec<char> = Vec::new();
    extend_str(&mut o, "pactl set-source-port '");
    extend(&mut o, src);
    extend_str(&mut o, "' '");
    extend(&mut o, port);
    extend_str(&mut o, "' && pactl set-source-volume '");
    extend(&mut o, src);
    extend_str(&mut o, "' ");
    push_decimal(&mut o, vol as u64);
    extend_str(&mut o, "%; ");
    extend(&mut o, boost);
    extend(&mut o, move_streams);
    extend_str(&mut o, "echo '잭 재연결 감지 — 고정된 입력 설정 자동 복원 (");
    extend(&mut o, label);
    extend_str(&mut o, ", ");
    push_decimal(&mut o, vol as u64);
    extend_str(&mut o, "%, 부스트 +");
    push_decimal(&mut o, bdb as u64);
    extend_str(&mut o, "dB)'");
    assert(o@ =~= restore_script(src@, port@, vol, boost@, move_streams@, label@, bdb));
    o
}

/// Switches the pin-mic bias back on through the password-less helper.
pub open spec fn vref_auto_script(hwdev: Seq<char>, nid: u32) -> Seq<char> {
    "sudo -n /usr/local/bin/popmgr-helper --apply-vref '"@ + hwdev + "' 0x"@ + hex_lower(nid as nat) + " 0x24 2>&1"@
}

pub fn vref_auto_script_exec(hwdev: &[char], nid: u32) -> (r: Vec<char>)
    ensures
        r@ == vref_auto_script(hwdev@, nid),
{
    let mut o: Vec<char> = Vec::new();
    extend_str(&mut o, "sudo -n /usr/local/bin/popmgr-helper --apply-vref '");
    extend(&mut o, hwdev);
    extend_str(&mut o, "' 0x");
    push_hex(&mut o, nid);
    extend_str(&mut o, " 0x24 2>&1");
    assert(o@ =~= vref_auto_script(hwdev@, nid));
    o
}

/// Makes an output the default and moves the playing streams to it.
pub open spec fn pick_sink_script(id: Seq<char>) -> Seq<char> {
    "pactl set-default-sink '"@ + id + "' && pactl list short sink-inputs | cut -f1 | while read -r i; do pactl move-sink-input \"$i\" '"@ + id + "' 2>/dev/null || true; done"@
}

pub fn pick_sink_script_exec(id: &[char]) -> (r: Vec<char>)
    ensures
        r@ == pick_sink_script(id@),
{
    let mut o: Vec<char> = Vec::new();
    extend_str(&mut o, "pactl set-default-sink '");
    extend(&mut o, id);
    extend_str(&mut o, "' && pactl list short sink-inputs | cut -f1 | while read -r i; do pactl move-sink-input \"$i\" '");
    extend(&mut o, id);
    extend_str(&mut o, "' 2>/dev/null || true; done");
    assert(o@ =~= pick_sink_script(id@));
    o
}

/// Makes an input the default and moves the recordings to it.
pub open spec fn pick_source_script(id: Seq<char>) -> Seq<char> {
    "pactl set-default-source '"@ + id + "' && pactl list short source-outputs | cut -f1 | while read -r i; do pactl move-source-output \"$i\" '"@ + id + "' 2>/dev/null || true; done"@
}

pub fn pick_source_script_exec(id: &[char]) -> (r: Vec<char>)
    ensures
        r@ == pick_source_script(id@),
{
    let mut o: Vec<char> = Vec::new();
    extend_str(&mut o, "pactl set-default-source '");
    extend(&mut o, id);
    extend_str(&mut o, "' && pactl list short source-outputs | cut -f1 | while read -r i; do pactl move-source-output \"$i\" '");
    extend(&mut o, id);
    extend_str(&mut o, "' 2>/dev/null || true; done");
    assert(o@ =~= pick_source_script(id@));
    o
}

/// Switches the default output's port.
pub open spec fn sink_port_script(sink: Seq<char>, id: Seq<char>) -> Seq<char> {
    "pactl set-sink-port '"@ + sink + "' '"@ + id + "'"@
}

pub fn sink_port_script_exec(sink: &[char], id: &[char]) -> (r: Vec<char>)
    ensures
        r@ == sink_port_script(sink@, id@),
{
    let mut o: Vec<char> = Vec::new();
    extend_str(&mut o, "pactl set-sink-port '");
    extend(&mut o, sink);
    extend_str(&mut o, "' '");
    extend(&mut o, id);
    extend_str(&mut o, "'");
    assert(o@ =~= sink_port_script(sink@, id@));
    o
}

/// Switches the default input's port.
pub open spec fn source_port_script(src: Seq<char>, id: Seq<char>) -> Seq<char> {
    "pactl set-source-port '"@ + src + "' '"@ + id + "'"@
}

pub fn source_port_script_exec(src: &[char], id: &[char]) -> (r: Vec<char>)
    ensures
        r@ == source_port_script(src@, id@),
{
    let mut o: Vec<char> = Vec::new();
    extend_str(&mut o, "pactl set-source-port '");
    extend(&mut o, src);
    extend_str(&mut o, "' '");
    extend(&mut o, id);
    extend_str(&mut o, "'");
    assert(o@ =~= source_port_script(src@, id@));
    o
}

/// Sets the default output's volume.
pub open spec fn sink_volume_script(sink: Seq<char>, v: u32) -> Seq<char> {
    "pactl set-sink-volume '"@ + sink + "' "@ + decimal(v as nat) + "%"@
}

pub fn sink_volume_script_exec(sink: &[char], v: u32) -> (r: Vec<char>)
    ensures
        r@ == sink_volume_script(sink@, v),
{
    let mut o: Vec<char> = Vec::new();
    extend_str(&mut o, "pactl set-sink-volume '");
    extend(&mut o, sink);
    extend_str(&mut o, "' ");
    push_decimal(&mut o, v as u64);
    extend_str(&mut o, "%");
    assert(o@ =~= sink_volume_script(sink@, v));
    o
}

/// Sets the default input's volume.
pub open spec fn source_volume_script(src: Seq<char>, v: u32) -> Seq<char> {
    "pactl set-source-volume '"@ + src + "' "@ + decimal(v as nat) + "%"@
}

pub fn source_volume_script_exec(src: &[char], v: u32) -> (r: Vec<char>)
    ensures
        r@ == source_volume_script(src@, v),
{
    let mut o: Vec<char> = Vec::new();
    extend_str(&mut o, "pactl set-source-volume '");
    extend(&mut o, src);
    extend_str(&mut o, "' ");
    push_decimal(&mut o, v as u64);
    extend_str(&mut o, "%");
    assert(o@ =~= source_volume_script(src@, v));
    o
}

/// Toggles the default output's mute.
pub open spec fn sink_mute_script(sink: Seq<char>) -> Seq<char> {
    "pactl set-sink-mute '"@ + sink + "' toggle"@
}

pub fn sink_mute_script_exec(sink: &[char]) -> (r: Vec<char>)
    ensures
        r@ == sink_mute_script(sink@),
{
    let mut o: Vec<char> = Vec::new();
    extend_str(&mut o, "pactl set-sink-mute '");
    extend(&mut o, sink);
    extend_str(&mut o, "' toggle");
    assert(o@ =~= sink_mute_script(sink@));
    o
}

/// Toggles the default input's mute.
pub open spec fn source_mute_script(src: Seq<char>) -> Seq<char> {
    "pactl set-source-mute '"@ + src + "' toggle"@
}

pub fn source_mute_script_exec(src: &[char]) -> (r: Vec<char>)
    ensures
        r@ == source_mute_script(src@),
{
    let mut o: Vec<char> = Vec::new();
    extend_str(&mut o, "pactl set-source-mute '");
    extend(&mut o, src);
    extend_str(&mut o, "' toggle");
    assert(o@ =~= source_mute_script(src@));
    o
}

/// Switches the pin-mic bias on: through the helper when it may, else through pkexec.
pub open spec fn vref_on_script(dev: Seq<char>, nid: u32, exe: Seq<char>) -> Seq<char> {
    "sudo -n /usr/local/bin/popmgr-helper --apply-vref '"@ + dev + "' 0x"@ + hex_lower(nid as nat) + " 0x24 2>/dev/null || pkexec '"@ + exe + "' --apply-vref '"@ + dev + "' 0x"@ + hex_lower(nid as nat) + " 0x24 2>&1"@
}

pub fn vref_on_script_exec(dev: &[char], nid: u32, exe: &[char]) -> (r: Vec<char>)
    ensures
        r@ == vref_on_script(dev@, nid, exe@),
{
    let mut o: Vec<char> = Vec::new();
    extend_str(&mut o, "sudo -n /usr/local/bin/popmgr-helper --apply-vref '");
    extend(&mut o, dev);
    extend_str(&mut o, "' 0x");
    push_hex(&mut o, nid);
    extend_str(&mut o, " 0x24 2>/dev/null || pkexec '");
    extend(&mut o, exe);
    extend_str(&mut o, "' --apply-vref '");
    extend(&mut o, dev);
    extend_str(&mut o, "' 0x");
    push_hex(&mut o, nid);
    extend_str(&mut o, " 0x24 2>&1");
    assert(o@ =~= vref_on_script(dev@, nid, exe@));
    o
}

/// Installs a root-owned copy of the program and lets the user run its bias command without a password.
pub open spec fn nopass_script(exe: Seq<char>, user: Seq<char>) -> Seq<char> {
    "pkexec bash -c \"install -m 0755 -o root -g root '"@ + exe + "' /usr/local/bin/popmgr-helper && printf '"@ + user + " ALL=(root) NOPASSWD: /usr/local/bin/popmgr-helper --apply-vref *\\n' > /etc/sudoers.d/popmgr-vref && chmod 0440 /etc/sudoers.d/popmgr-vref && echo '비번 없는 전원 제어 설정 완료 — 이제 자동으로 켜집니다.'\" 2>&1"@
}

pub fn nopass_script_exec(exe: &[char], user: &[char]) -> (r: Vec<char>)
    ensures
        r@ == nopass_script(exe@, user@),
{
    let mut o: Vec<char> = Vec::new();
    extend_str(&mut o, "pkexec bash -c \"install -m 0755 -o root -g root '");
    extend(&mut o, exe);
    extend_str(&mut o, "' /usr/local/bin/popmgr-helper && printf '");
    extend(&mut o, user);
    extend_str(&mut o, " ALL=(root) NOPASSWD: /usr/local/bin/popmgr-helper --apply-vref *\\n' > /etc/sudoers.d/popmgr-vref && chmod 0440 /etc/sudoers.d/popmgr-vref && echo '비번 없는 전원 제어 설정 완료 — 이제 자동으로 켜집니다.'\" 2>&1");
    assert(o@ =~= nopass_script(exe@, user@));
    o
}

/// The firmware patch that sets the pin control at boot.
pub open spec fn pinmic_fw(vendor: Seq<char>, subsys: Seq<char>, addr: u32, nid: u32) -> Seq<char> {
    "[codec]\n"@ + vendor + " "@ + subsys + " "@ + decimal(addr as nat) + "\n\n[verb]\n0x"@ + hex_lower(nid as nat) + " 0x707 0x24\n"@
}

pub fn pinmic_fw_exec(vendor: &[char], subsys: &[char], addr: u32, nid: u32) -> (r: Vec<char>)
    ensures
        r@ == pinmic_fw(vendor@, subsys@, addr, nid),
{
    let mut o: Vec<char> = Vec::new();
    extend_str(&mut o, "[codec]\n");
    extend(&mut o, vendor);
    extend_str(&mut o, " ");
    extend(&mut o, subsys);
    extend_str(&mut o, " ");
    push_decimal(&mut o, addr as u64);
    extend_str(&mut o, "\n\n[verb]\n0x");
    push_hex(&mut o, nid);
    extend_str(&mut o, " 0x707 0x24\n");
    assert(o@ =~= pinmic_fw(vendor@, subsys@, addr, nid));
    o
}

/// Installs the firmware patch and the module option that loads it.
pub open spec fn boot_install_script(fw: Seq<char>) -> Seq<char> {
    "pkexec bash -c 'cat > /lib/firmware/popmgr-pinmic.fw <<\"EOF\"\n"@ + fw + "EOF\ncat > /etc/modprobe.d/popmgr-pinmic.conf <<\"EOF\"\noptions snd-hda-intel patch=popmgr-pinmic.fw\nEOF\necho \"부팅 패치 설치됨 — 재부팅 후에도 핀마이크 전원이 유지됩니다.\"' 2>&1"@
}

pub fn boot_install_script_exec(fw: &[char]) -> (r: Vec<char>)
    ensures
        r@ == boot_install_script(fw@),
{
    let mut o: Vec<char> = Vec::new();
    extend_str(&mut o, "pkexec bash -c 'cat > /lib/firmware/popmgr-pinmic.fw <<\"EOF\"\n");
    extend(&mut o, fw);
    extend_str(&mut o, "EOF\ncat > /etc/modprobe.d/popmgr-pinmic.conf <<\"EOF\"\noptions snd-hda-intel patch=popmgr-pinmic.fw\nEOF\necho \"부팅 패치 설치됨 — 재부팅 후에도 핀마이크 전원이 유지됩니다.\"' 2>&1");
    assert(o@ =~= boot_install_script(fw@));
    o
}

/// Sets a boost level.
pub open spec fn boost_pick_script(ctl: Seq<char>, val: Seq<char>, label: Seq<char>) -> Seq<char> {
    "amixer -c0 sset '"@ + ctl + "' "@ + val + " >/dev/null && echo '"@ + ctl + " → "@ + label + "'"@
}

pub fn boost_pick_script_exec(ctl: &[char], val: &[char], label: &[char]) -> (r: Vec<char>)
    ensures
        r@ == boost_pick_script(ctl@, val@, label@),
{
    let mut o: Vec<char> = Vec::new();
    extend_str(&mut o, "amixer -c0 sset '");
    extend(&mut o, ctl);
    extend_str(&mut o, "' ");
    extend(&mut o, val);
    extend_str(&mut o, " >/dev/null && echo '");
    extend(&mut o, ctl);
    extend_str(&mut o, " → ");
    extend(&mut o, label);
    extend_str(&mut o, "'");
    assert(o@ =~= boost_pick_script(ctl@, val@, label@));
    o
}

/// Unloads noise suppression and moves back to the first real microphone.
pub open spec fn denoise_off_script(id: Seq<char>) -> Seq<char> {
    "pactl unload-module "@ + id + "; sleep 0.3; HW=$(pactl list short sources | awk -F'\\t' '$2 !~ /\\.monitor|popmgr_denoise/ {print $2; exit}'); if [ -n \"$HW\" ]; then pactl set-default-source \"$HW\"; pactl list short source-outputs | cut -f1 | while read -r i; do pactl move-source-output \"$i\" \"$HW\" 2>/dev/null || true; done; fi; echo '노이즈 억제 꺼짐 — 원본 마이크로 복귀'"@
}

pub fn denoise_off_script_exec(id: &[char]) -> (r: Vec<char>)
    ensures
        r@ == denoise_off_script(id@),
{
    let mut o: Vec<char> = Vec::new();
    extend_str(&mut o, "pactl unload-module ");
    extend(&mut o, id);
    extend_str(&mut o, "; sleep 0.3; HW=$(pactl list short sources | awk -F'\\t' '$2 !~ /\\.monitor|popmgr_denoise/ {print $2; exit}'); if [ -n \"$HW\" ]; then pactl set-default-source \"$HW\"; pactl list short source-outputs | cut -f1 | while read -r i; do pactl move-source-output \"$i\" \"$HW\" 2>/dev/null || true; done; fi; echo '노이즈 억제 꺼짐 — 원본 마이크로 복귀'");
    assert(o@ =~= denoise_off_script(id@));
    o
}

/// `head → label`.
pub open spec fn arrow_msg(head: Seq<char>, label: Seq<char>) -> Seq<char> {
    head + " → "@ + label
}

pub fn arrow_msg_exec(head: &[char], label: &[char]) -> (r: Vec<char>)
    ensures
        r@ == arrow_msg(head@, label@),
{
    let mut o: Vec<char> = Vec::new();
    extend(&mut o, head);
    extend_str(&mut o, " → ");
    extend(&mut o, label);
    assert(o@ =~= arrow_msg(head@, label@));
    o
}

/// `head → v%`.
pub open spec fn volume_msg(head: Seq<char>, v: u32) -> Seq<char> {
    head + " → "@ + decimal(v as nat) + "%"@
}

pub fn volume_msg_exec(head: &[char], v: u32) -> (r: Vec<char>)
    ensures
        r@ == volume_msg(head@, v),
{
    let mut o: Vec<char> = Vec::new();
    extend(&mut o, head);
    extend_str(&mut o, " → ");
    push_decimal(&mut o, v as u64);
    extend_str(&mut o, "%");
    assert(o@ =~= volume_msg(head@, v));
    o
}

/// `head [label]`.
pub open spec fn bracket_msg(head: Seq<char>, label: Seq<char>) -> Seq<char> {
    head + " ["@ + label + "]"@
}

pub fn bracket_msg_exec(head: &[char], label: &[char]) -> (r: Vec<char>)
    ensures
        r@ == bracket_msg(head@, label@),
{
    let mut o: Vec<char> = Vec::new();
    extend(&mut o, head);
    extend_str(&mut o, " [");
    extend(&mut o, label);
    extend_str(&mut o, "]");
    assert(o@ =~= bracket_msg(head@, label@));
    o
}

/// The message after a saved profile was applied.
pub open spec fn load_msg(saved: Seq<char>) -> Seq<char> {
    "오디오 설정 불러옴 (저장 "@ + saved + ")"@
}

pub fn load_msg_exec(saved: &[char]) -> (r: Vec<char>)
    ensures
        r@ == load_msg(saved@),
{
    let mut o: Vec<char> = Vec::new();
    extend_str(&mut o, "오디오 설정 불러옴 (저장 ");
    extend(&mut o, saved);
    extend_str(&mut o, ")");
    assert(o@ =~= load_msg(saved@));
    o
}

/// The message after the input settings were fixed.
pub open spec fn lock_msg(label: Seq<char>, vol: u32, bdb: u64) -> Seq<char> {
    "입력 설정 고정됨: "@ + label + " / 볼륨 "@ + decimal(vol as nat) + "% / 부스트 +"@ + decimal(bdb as nat) + "dB — 잭을 다시 꽂으면 자동 복원됩니다."@
}

pub fn lock_msg_exec(label: &[char], vol: u32, bdb: u64) -> (r: Vec<char>)
    ensures
        r@ == lock_msg(label@, vol, bdb),
{
    let mut o: Vec<char> = Vec::new();
    extend_str(&mut o, "입력 설정 고정됨: ");
    extend(&mut o, label);
    extend_str(&mut o, " / 볼륨 ");
    push_decimal(&mut o, vol as u64);
    extend_str(&mut o, "% / 부스트 +");
    push_decimal(&mut o, bdb as u64);
    extend_str(&mut o, "dB — 잭을 다시 꽂으면 자동 복원됩니다.");
    assert(o@ =~= lock_msg(label@, vol, bdb));
    o
}

/// The message after a profile was saved.
pub open spec fn profile_saved_msg(saved: Seq<char>, summary: Seq<char>) -> Seq<char> {
    "오디오 설정 저장됨 ("@ + saved + ")\n"@ + summary
}

pub fn profile_saved_msg_exec(saved: &[char], summary: &[char]) -> (r: Vec<char>)
    ensures
        r@ == profile_saved_msg(saved@, summary@),
{
    let mut o: Vec<char> = Vec::new();
    extend_str(&mut o, "오디오 설정 저장됨 (");
    extend(&mut o, saved);
    extend_str(&mut o, ")\n");
    extend(&mut o, summary);
    assert(o@ =~= profile_saved_msg(saved@, summary@));
    o
}

// ---------------------------------------------------------------- lookups

/// Index of the first device named `name`.
pub open spec fn first_named(list: Seq<DeviceInfo>, name: Seq<char>) -> Option<int>
    decreases list.len(),
{
    if list.len() == 0 {
        None
    } else {
        match first_named(list.drop_last(), name) {
            Some(i) => Some(i),
            None => if list.last().name@ == name { Some(list.len() - 1) } else { None },
        }
    }
}

pub proof fn lemma_first_named(list: Seq<DeviceInfo>, name: Seq<char>)
    ensures
        match first_named(list, name) {
            Some(i) => 0 <= i < list.len() && list[i].name@ == name
                && forall|j: int| 0 <= j < i ==> list[j].name@ != name,
            None => forall|j: int| 0 <= j < list.len() ==> list[j].name@ != name,
        },
    decreases list.len(),
{
    if list.len() > 0 {
        let t = list.drop_last();
        lemma_first_named(t, name);
        assert forall|j: int| 0 <= j < t.len() implies t[j] == list[j] by {}
    }
}

/// The device named by `name` (the default output or input), where there is one.
pub open spec fn named_dev(list: Seq<DeviceInfo>, name: Option<String>) -> Option<DeviceInfo> {
    match name {
        Some(n) => match first_named(list, n@) {
            Some(i) => Some(list[i]),
            None => None,
        },
        None => None,
    }
}

pub fn find_named(list: &Vec<DeviceInfo>, name: &[char]) -> (r: Option<usize>)
    ensures
        match r {
            Some(i) => first_named(list@, name@) == Some(i as int),
            None => first_named(list@, name@) is None,
        },
{
    let mut i: usize = 0;
    while i < list.len()
        invariant
            i <= list.len(),
            forall|j: int| 0 <= j < i ==> list@[j].name@ != name@,
        decreases list.len() - i,
    {
        if eq(chars_of_string(&list[i].name).as_slice(), name) {
            proof {
                lemma_first_named(list@, name@);
                match first_named(list@, name@) {
                    Some(k) => {
                        if k > i {
                        } else if k < i {
                            assert(list@[k].name@ != name@);
                        }
                    },
                    None => {
                        assert(list@[i as int].name@ != name@);
                    },
                }
            }
            return Some(i);
        }
        i += 1;
    }
    proof {
        lemma_first_named(list@, name@);
        match first_named(list@, name@) {
            Some(k) => { assert(list@[k].name@ != name@); },
            None => {},
        }
    }
    None
}

pub fn named_dev_index(list: &Vec<DeviceInfo>, name: &Option<String>) -> (r: Option<usize>)
    ensures
        match r {
            Some(i) => i < list.len() && named_dev(list@, *name) == Some(list@[i as int]),
            None => named_dev(list@, *name) is None,
        },
{
    match name {
        Some(n) => {
            let r = find_named(list, chars_of_string(n).as_slice());
            proof { lemma_first_named(list@, n@); }
            r
        },
        None => None,
    }
}

/// The first device that is not a virtual one of noise suppression.
pub open spec fn first_real(list: Seq<DeviceInfo>) -> Option<int>
    decreases list.len(),
{
    if list.len() == 0 {
        None
    } else {
        match first_real(list.drop_last()) {
            Some(i) => Some(i),
            None => if !spec_is_virtual_dev(list.last().name@) { Some(list.len() - 1) } else { None },
        }
    }
}

pub proof fn lemma_first_real(list: Seq<DeviceInfo>)
    ensures
        match first_real(list) {
            Some(i) => 0 <= i < list.len() && !spec_is_virtual_dev(list[i].name@)
                && forall|j: int| 0 <= j < i ==> spec_is_virtual_dev(list[j].name@),
            None => forall|j: int| 0 <= j < list.len() ==> spec_is_virtual_dev(list[j].name@),
        },
    decreases list.len(),
{
    if list.len() > 0 {
        let t = list.drop_last();
        lemma_first_real(t);
        assert forall|j: int| 0 <= j < t.len() implies t[j] == list[j] by {}
    }
}

fn find_real(list: &Vec<DeviceInfo>) -> (r: Option<usize>)
    ensures
        match r {
            Some(i) => first_real(list@) == Some(i as int),
            None => first_real(list@) is None,
        },
{
    proof { lemma_first_real(list@); }
    let mut i: usize = 0;
    while i < list.len()
        invariant
            i <= list.len(),
            forall|j: int| 0 <= j < i ==> spec_is_virtual_dev(list@[j].name@),
            match first_real(list@) {
                Some(k) => 0 <= k < list.len() && !spec_is_virtual_dev(list@[k].name@)
                    && forall|j: int| 0 <= j < k ==> spec_is_virtual_dev(list@[j].name@),
                None => forall|j: int| 0 <= j < list.len() ==> spec_is_virtual_dev(list@[j].name@),
            },
        decreases list.len() - i,
    {
        if !is_virtual_dev(list[i].name.as_str()) {
            proof {
                match first_real(list@) {
                    Some(k) => {
                        if k < i {
                            assert(spec_is_virtual_dev(list@[k].name@));
                        }
                    },
                    None => {},
                }
            }
            return Some(i);
        }
        i += 1;
    }
    None
}

/// The level of the first boost control named `ctl`, or 0.
pub open spec fn boost_of(bs: Seq<(String, u32)>, ctl: Seq<char>) -> u32
    decreases bs.len(),
{
    if bs.len() == 0 {
        0
    } else if bs[0].0@ == ctl {
        bs[0].1
    } else {
        boost_of(bs.drop_first(), ctl)
    }
}

fn boost_value(bs: &Vec<(String, u32)>, ctl: &[char]) -> (r: u32)
    ensures
        r == boost_of(bs@, ctl@),
{
    let mut i: usize = 0;
    assert(bs@.skip(0) =~= bs@);
    while i < bs.len()
        invariant
            i <= bs.len(),
            boost_of(bs@, ctl@) == boost_of(bs@.skip(i as int), ctl@),
        decreases bs.len() - i,
    {
        assert(bs@.skip(i as int)[0] == bs@[i as int]);
        assert(bs@.skip(i as int).drop_first() =~= bs@.skip(i + 1));
        if eq(chars_of_string(&bs[i].0).as_slice(), ctl) {
            return bs[i].1;
        }
        i += 1;
    }
    0
}

/// The level of the first boost control named `ctl`, when there is one.
pub open spec fn boost_found(bs: Seq<(String, u32)>, ctl: Seq<char>) -> Option<u32>
    decreases bs.len(),
{
    if bs.len() == 0 {
        None
    } else if bs[0].0@ == ctl {
        Some(bs[0].1)
    } else {
        boost_found(bs.drop_first(), ctl)
    }
}

fn find_boost(bs: &Vec<(String, u32)>, ctl: &[char]) -> (r: Option<u32>)
    ensures
        r == boost_found(bs@, ctl@),
{
    let mut i: usize = 0;
    assert(bs@.skip(0) =~= bs@);
    while i < bs.len()
        invariant
            i <= bs.len(),
            boost_found(bs@, ctl@) == boost_found(bs@.skip(i as int), ctl@),
        decreases bs.len() - i,
    {
        assert(bs@.skip(i as int)[0] == bs@[i as int]);
        assert(bs@.skip(i as int).drop_first() =~= bs@.skip(i + 1));
        if eq(chars_of_string(&bs[i].0).as_slice(), ctl) {
            return Some(bs[i].1);
        }
        i += 1;
    }
    None
}

/// The first port named `name`.
pub open spec fn port_named(ps: Seq<PortInfo>, name: Seq<char>) -> Option<PortInfo>
    decreases ps.len(),
{
    if ps.len() == 0 {
        None
    } else if ps[0].name@ == name {
        Some(ps[0])
    } else {
        port_named(ps.drop_first(), name)
    }
}

fn find_port(ps: &Vec<PortInfo>, name: &[char]) -> (r: Option<usize>)
    ensures
        match r {
            Some(i) => i < ps.len() && port_named(ps@, name@) == Some(ps@[i as int]),
            None => port_named(ps@, name@) is None,
        },
{
    let mut i: usize = 0;
    assert(ps@.skip(0) =~= ps@);
    while i < ps.len()
        invariant
            i <= ps.len(),
            port_named(ps@, name@) == port_named(ps@.skip(i as int), name@),
        decreases ps.len() - i,
    {
        assert(ps@.skip(i as int)[0] == ps@[i as int]);
        assert(ps@.skip(i as int).drop_first() =~= ps@.skip(i + 1));
        if eq(chars_of_string(&ps[i].name).as_slice(), name) {
            return Some(i);
        }
        i += 1;
    }
    None
}

// ---------------------------------------------------------------- recording targets

/// The recording targets of one device: one per port, or the device alone.
pub open spec fn device_targets(d: DeviceInfo) -> Seq<(Seq<char>, Seq<char>)> {
    if d.ports@.len() == 0 {
        seq![spec_test_choice(d, None)]
    } else {
        d.ports@.map_values(|p: PortInfo| spec_test_choice(d, Some(p)))
    }
}

/// Every input device with every one of its ports, in order.
pub open spec fn target_choices(ds: Seq<DeviceInfo>) -> Seq<(Seq<char>, Seq<char>)>
    decreases ds.len(),
{
    if ds.len() == 0 {
        seq![]
    } else {
        target_choices(ds.drop_last()) + device_targets(ds.last())
    }
}

pub open spec fn choices_view(cs: Seq<Choice>) -> Seq<(Seq<char>, Seq<char>)> {
    cs.map_values(|c: Choice| choice_view(c))
}

pub fn test_target_choices(sources: &Vec<DeviceInfo>) -> (r: Vec<Choice>)
    ensures
        choices_view(r@) == target_choices(sources@),
{
    let mut out: Vec<Choice> = Vec::new();
    let mut i: usize = 0;
    assert(sources@.take(0) =~= Seq::<DeviceInfo>::empty());
    assert(choices_view(out@) =~= target_choices(sources@.take(0)));
    while i < sources.len()
        invariant
            i <= sources.len(),
            choices_view(out@) == target_choices(sources@.take(i as int)),
        decreases sources.len() - i,
    {
        let d = &sources[i];
        let ghost before = choices_view(out@);
        assert(sources@.take(i + 1).drop_last() =~= sources@.take(i as int));
        assert(sources@.take(i + 1).last() == *d);
        if d.ports.len() == 0 {
            let c = test_choice(d, None);
            out.push(c);
            assert(choices_view(out@) =~= before + device_targets(*d));
        } else {
            let mut k: usize = 0;
            while k < d.ports.len()
                invariant
                    k <= d.ports.len(),
                    d == &sources@[i as int],
                    d.ports@.len() > 0,
                    choices_view(out@) == before + device_targets(*d).take(k as int),
                decreases d.ports.len() - k,
            {
                let c = test_choice(d, Some(&d.ports[k]));
                let ghost o0 = choices_view(out@);
                out.push(c);
                assert(device_targets(*d).take(k + 1) =~= device_targets(*d).take(k as int).push(spec_test_choice(*d, Some(d.ports@[k as int]))));
                assert(choices_view(out@) =~= o0.push(choice_view(c)));
                k += 1;
            }
            assert(device_targets(*d).take(d.ports.len() as int) =~= device_targets(*d));
        }
        i += 1;
    }
    assert(sources@.take(sources.len() as int) =~= sources@);
    out
}


// ---------------------------------------------------------------- views

pub ghost struct LockView {
    pub source: Seq<char>,
    pub port: Seq<char>,
    pub volume_pct: u32,
    pub boost_ctl: Seq<char>,
    pub boost_val: u32,
}

impl View for AudioLock {
    type V = LockView;

    open spec fn view(&self) -> LockView {
        LockView {
            source: self.source@,
            port: self.port@,
            volume_pct: self.volume_pct,
            boost_ctl: self.boost_ctl@,
            boost_val: self.boost_val,
        }
    }
}

pub ghost struct ProfileView {
    pub saved_at: Seq<char>,
    pub sink: Seq<char>,
    pub sink_desc: Seq<char>,
    pub sink_port: Option<Seq<char>>,
    pub sink_volume_pct: u32,
    pub source: Seq<char>,
    pub source_desc: Seq<char>,
    pub source_port: Option<Seq<char>>,
    pub source_volume_pct: u32,
    pub boost_ctl: Seq<char>,
    pub boost_val: u32,
    pub denoise: bool,
}

impl View for AudioProfile {
    type V = ProfileView;

    open spec fn view(&self) -> ProfileView {
        ProfileView {
            saved_at: self.saved_at@,
            sink: self.sink@,
            sink_desc: self.sink_desc@,
            sink_port: opt_view(self.sink_port),
            sink_volume_pct: self.sink_volume_pct,
            source: self.source@,
            source_desc: self.source_desc@,
            source_port: opt_view(self.source_port),
            source_volume_pct: self.source_volume_pct,
            boost_ctl: self.boost_ctl@,
            boost_val: self.boost_val,
            denoise: self.denoise,
        }
    }
}

// ---------------------------------------------------------------- the state summary

/// How the default device named `def` is described: its brief line, or why there is none.
pub open spec fn dev_line(list: Seq<DeviceInfo>, def: Option<String>) -> Seq<char> {
    match def {
        Some(name) => match first_named(list, name@) {
            Some(i) => crate::ui::audio::spec_dev_brief(list[i]),
            None => name@ + " (목록에 없음)"@,
        },
        None => "(설정 안 됨)"@,
    }
}

pub open spec fn brief_lines(prefix: Seq<char>, ds: Seq<DeviceInfo>) -> Seq<Seq<char>> {
    ds.map_values(|d: DeviceInfo| prefix + crate::ui::audio::spec_dev_brief(d))
}

pub open spec fn jack_entries(js: Seq<(String, bool)>) -> Seq<Seq<char>> {
    js.map_values(|j: (String, bool)| crate::ui::audio::spec_jack_label(j.0@) + "="@ + (if j.1 { "꽂힘"@ } else { "빔"@ }))
}

/// The lines that report a fresh reading of the devices.
pub open spec fn summary_lines(scan: AudioScan) -> Seq<Seq<char>> {
    let n = scan.sinks@.len();
    let m = scan.sources@.len();
    seq![
        "장치 다시 읽음 — 출력 "@ + decimal(n) + "개 / 입력 "@ + decimal(m) + "개"@,
        "기본 출력: "@ + dev_line(scan.sinks@, scan.default_sink),
        "기본 입력: "@ + dev_line(scan.sources@, scan.default_source),
    ] + (if n == 0 && m == 0 {
        seq!["⚠ pactl가 장치를 반환하지 않음 — PipeWire/PulseAudio 상태를 확인하세요"@]
    } else {
        brief_lines("· 출력: "@, scan.sinks@) + brief_lines("· 입력: "@, scan.sources@)
    }) + (if scan.jacks@.len() > 0 {
        seq!["잭: "@ + crate::text::join(jack_entries(scan.jacks@), ", "@)]
    } else {
        seq![]
    }) + (if scan.denoise_module is Some {
        seq!["노이즈 억제: 켜짐 (기본 입출력이 가상 장치로 바뀜 — 시스템 사운드 패널엔 '없음'으로 보일 수 있음)"@]
    } else {
        seq![]
    })
}

pub open spec fn spec_state_summary(scan: AudioScan) -> Seq<char> {
    crate::text::join(summary_lines(scan), "\n"@)
}

fn dev_line_exec(list: &Vec<DeviceInfo>, def: &Option<String>) -> (r: Vec<char>)
    ensures
        r@ == dev_line(list@, *def),
{
    match def {
        Some(name) => {
            match find_named(list, chars_of_string(name).as_slice()) {
                Some(i) => {
                    proof { lemma_first_named(list@, name@); }
                    chars_of_string(&dev_brief(&list[i]))
                },
                None => {
                    let mut o = chars_of_string(name);
                    extend_str(&mut o, " (목록에 없음)");
                    o
                },
            }
        },
        None => chars_of("(설정 안 됨)"),
    }
}

fn push_brief_lines(out: &mut Vec<Vec<char>>, prefix: &str, ds: &Vec<DeviceInfo>)
    ensures
        final(out).deep_view() == old(out).deep_view() + brief_lines(prefix@, ds@),
{
    let ghost start = out.deep_view();
    let mut i: usize = 0;
    assert(brief_lines(prefix@, ds@).take(0) =~= Seq::<Seq<char>>::empty());
    while i < ds.len()
        invariant
            i <= ds.len(),
            out.deep_view() == start + brief_lines(prefix@, ds@).take(i as int),
        decreases ds.len() - i,
    {
        let mut l = chars_of(prefix);
        extend(&mut l, chars_of_string(&dev_brief(&ds[i])).as_slice());
        let ghost o0 = out.deep_view();
        crate::text::push_piece(out, l);
        assert(brief_lines(prefix@, ds@).take(i + 1) =~= brief_lines(prefix@, ds@).take(i as int).push(l@));
        i += 1;
    }
    assert(brief_lines(prefix@, ds@).take(ds.len() as int) =~= brief_lines(prefix@, ds@));
}

/// The report of a fresh reading of the devices, one fact per line.
pub fn device_state_summary(scan: &AudioScan) -> (r: String)
    ensures
        r@ == spec_state_summary(*scan),
{
    let mut ls: Vec<Vec<char>> = Vec::new();
    let mut first = chars_of("장치 다시 읽음 — 출력 ");
    push_decimal(&mut first, scan.sinks.len() as u64);
    extend_str(&mut first, "개 / 입력 ");
    push_decimal(&mut first, scan.sources.len() as u64);
    extend_str(&mut first, "개");
    crate::text::push_piece(&mut ls, first);
    let mut l2 = chars_of("기본 출력: ");
    extend(&mut l2, dev_line_exec(&scan.sinks, &scan.default_sink).as_slice());
    crate::text::push_piece(&mut ls, l2);
    let mut l3 = chars_of("기본 입력: ");
    extend(&mut l3, dev_line_exec(&scan.sources, &scan.default_source).as_slice());
    crate::text::push_piece(&mut ls, l3);
    let ghost head = ls.deep_view();
    if scan.sinks.len() == 0 && scan.sources.len() == 0 {
        crate::text::push_piece(&mut ls, chars_of("⚠ pactl가 장치를 반환하지 않음 — PipeWire/PulseAudio 상태를 확인하세요"));
    } else {
        push_brief_lines(&mut ls, "· 출력: ", &scan.sinks);
        push_brief_lines(&mut ls, "· 입력: ", &scan.sources);
    }
    let ghost mid = ls.deep_view();
    if scan.jacks.len() > 0 {
        let mut es: Vec<Vec<char>> = Vec::new();
        let mut k: usize = 0;
        assert(jack_entries(scan.jacks@).take(0) =~= Seq::<Seq<char>>::empty());
        while k < scan.jacks.len()
            invariant
                k <= scan.jacks.len(),
                es.deep_view() == jack_entries(scan.jacks@).take(k as int),
            decreases scan.jacks.len() - k,
        {
            let mut e = chars_of_string(&jack_label(scan.jacks[k].0.as_str()));
            extend_str(&mut e, "=");
            extend_str(&mut e, if scan.jacks[k].1 { "꽂힘" } else { "빔" });
            crate::text::push_piece(&mut es, e);
            assert(jack_entries(scan.jacks@).take(k + 1) =~= jack_entries(scan.jacks@).take(k as int).push(e@));
            k += 1;
        }
        assert(jack_entries(scan.jacks@).take(scan.jacks.len() as int) =~= jack_entries(scan.jacks@));
        let mut l = chars_of("잭: ");
        extend(&mut l, crate::text::join_str(&es, ", ").as_slice());
        crate::text::push_piece(&mut ls, l);
    }
    let ghost mid2 = ls.deep_view();
    if scan.denoise_module.is_some() {
        crate::text::push_piece(&mut ls, chars_of("노이즈 억제: 켜짐 (기본 입출력이 가상 장치로 바뀜 — 시스템 사운드 패널엔 '없음'으로 보일 수 있음)"));
    }
    assert(ls.deep_view() =~= summary_lines(*scan));
    string_of(crate::text::join_str(&ls, "\n"))
}


// ---------------------------------------------------------------- state

pub enum AudioMsg {
    Refresh,
    Refreshed(AudioScan),
    /// The user asked to read the devices again: an empty result is shown
    /// too, and the state is reported to the log.
    Reload,
    Reloaded(AudioScan),
    PickSink(Choice),
    PickSinkPort(Choice),
    PickSource(Choice),
    PickSourcePort(Choice),
    SinkVol(u32),
    SinkVolCommit,
    SourceVol(u32),
    SourceVolCommit,
    ToggleSinkMute,
    ToggleSourceMute,
    Applied(CmdResult),
    VrefOn,
    VrefSetupNopass,
    VrefBootInstall,
    VrefBootRemove,
    PickTestTarget(Choice),
    PickBoost(Choice),
    ToggleDenoise,
    LockProfile,
    UnlockProfile,
    SaveProfile,
    ProfileSaved(AudioProfile, CmdResult),
    LoadProfile,
    TestMic,
    LoopTest,
    /// A recording test has ended (its measurement is reported by the caller).
    TestFinished,
    Play,
    Done(CmdResult),
}

/// What the caller is to do after an update.
pub enum AudioAction {
    Idle,
    /// Read the devices and answer `Refreshed`.
    Scan,
    /// Read the devices and answer `Reloaded`.
    Reload,
    /// Run the script; on success report the message (with what it printed),
    /// and answer `Applied`.
    Apply(String, String),
    /// Run the script and answer `Done`.
    Play(String),
    /// Play a tone on the output and record it from the target (source, port).
    LoopTest(Option<String>, Option<(String, String)>),
    /// Record from the target (source, port).
    TestMic(Option<(String, String)>),
    /// Write the fixed input settings to disk and report it.
    SaveLock(AudioLock),
    /// Delete the fixed input settings from disk.
    RemoveLock,
    /// Stamp the profile with the time, save it and answer `ProfileSaved`.
    SaveProfile(AudioProfile),
}

pub ghost enum ActionView {
    Idle,
    Scan,
    Reload,
    Apply(Seq<char>, Seq<char>),
    Play(Seq<char>),
    LoopTest(Option<Seq<char>>, Option<(Seq<char>, Seq<char>)>),
    TestMic(Option<(Seq<char>, Seq<char>)>),
    SaveLock(LockView),
    RemoveLock,
    SaveProfile(ProfileView),
}

pub open spec fn pair_view(p: Option<(String, String)>) -> Option<(Seq<char>, Seq<char>)> {
    match p {
        Some(x) => Some((x.0@, x.1@)),
        None => None,
    }
}

pub open spec fn action_view(a: AudioAction) -> ActionView {
    match a {
        AudioAction::Idle => ActionView::Idle,
        AudioAction::Scan => ActionView::Scan,
        AudioAction::Reload => ActionView::Reload,
        AudioAction::Apply(s, m) => ActionView::Apply(s@, m@),
        AudioAction::Play(s) => ActionView::Play(s@),
        AudioAction::LoopTest(k, t) => ActionView::LoopTest(opt_view(k), pair_view(t)),
        AudioAction::TestMic(t) => ActionView::TestMic(pair_view(t)),
        AudioAction::SaveLock(l) => ActionView::SaveLock(l@),
        AudioAction::RemoveLock => ActionView::RemoveLock,
        AudioAction::SaveProfile(p) => ActionView::SaveProfile(p@),
    }
}

pub open spec fn result_view(r: Option<CmdResult>) -> Option<(bool, Seq<char>)> {
    match r {
        Some(x) => Some((x.success, x.output@)),
        None => None,
    }
}

pub struct AudioState {
    pub sinks: Vec<DeviceInfo>,
    pub sources: Vec<DeviceInfo>,
    pub default_sink: Option<String>,
    pub default_source: Option<String>,
    pub jacks: Vec<(String, bool)>,
    pub vref: Option<VrefInfo>,
    pub boosts: Vec<(String, u32)>,
    pub denoise_module: Option<String>,
    pub lock: Option<AudioLock>,
    pub profile: Option<AudioProfile>,
    pub enforcing: bool,
    pub vref_fixing: bool,
    /// The fixed settings are applied in full once, at start-up (a reboot
    /// leaves volume and boost off).
    pub startup_enforced: bool,
    pub scanned: bool,
    pub sink_vol: u32,
    pub source_vol: u32,
    pub sink_dragging: bool,
    pub source_dragging: bool,
    pub running: Option<String>,
    /// The recording target (`id` is `source\tport`).
    pub test_target: Option<Choice>,
    pub last_test_label: String,
}

pub ghost struct AudioStateView {
    pub sinks: Seq<DeviceInfo>,
    pub sources: Seq<DeviceInfo>,
    pub default_sink: Option<String>,
    pub default_source: Option<String>,
    pub jacks: Seq<(String, bool)>,
    pub vref: Option<VrefInfo>,
    pub boosts: Seq<(String, u32)>,
    pub denoise_module: Option<String>,
    pub lock: Option<LockView>,
    pub profile: Option<AudioProfile>,
    pub enforcing: bool,
    pub vref_fixing: bool,
    pub startup_enforced: bool,
    pub scanned: bool,
    pub sink_vol: u32,
    pub source_vol: u32,
    pub sink_dragging: bool,
    pub source_dragging: bool,
    pub running: Option<Seq<char>>,
    pub test_target: Option<(Seq<char>, Seq<char>)>,
    pub last_test_label: Seq<char>,
}

pub open spec fn lock_view(l: Option<AudioLock>) -> Option<LockView> {
    match l {
        Some(x) => Some(x@),
        None => None,
    }
}

pub open spec fn target_view(t: Option<Choice>) -> Option<(Seq<char>, Seq<char>)> {
    match t {
        Some(c) => Some(choice_view(c)),
        None => None,
    }
}

impl View for AudioState {
    type V = AudioStateView;

    open spec fn view(&self) -> AudioStateView {
        AudioStateView {
            sinks: self.sinks@,
            sources: self.sources@,
            default_sink: self.default_sink,
            default_source: self.default_source,
            jacks: self.jacks@,
            vref: self.vref,
            boosts: self.boosts@,
            denoise_module: self.denoise_module,
            lock: lock_view(self.lock),
            profile: self.profile,
            enforcing: self.enforcing,
            vref_fixing: self.vref_fixing,
            startup_enforced: self.startup_enforced,
            scanned: self.scanned,
            sink_vol: self.sink_vol,
            source_vol: self.source_vol,
            sink_dragging: self.sink_dragging,
            source_dragging: self.source_dragging,
            running: opt_view(self.running),
            test_target: target_view(self.test_target),
            last_test_label: self.last_test_label@,
        }
    }
}

// ---------------------------------------------------------------- taking in a reading

/// The volume of the default device, or 0.
pub open spec fn vol_of(d: Option<DeviceInfo>) -> u32 {
    match d {
        Some(x) => match x.volume_pct {
            Some(v) => v,
            None => 0,
        },
        None => 0,
    }
}

/// The default recording target: the default input with its active port.
pub open spec fn default_target(sources: Seq<DeviceInfo>, default_source: Option<String>) -> Option<(Seq<char>, Seq<char>)> {
    match named_dev(sources, default_source) {
        Some(d) => Some(spec_test_choice(d, match d.active_port {
            Some(ap) => port_named(d.ports@, ap@),
            None => None,
        })),
        None => None,
    }
}

/// The state after taking in a reading. Without `force` an empty list does
/// not replace a non-empty one (no flicker on an automatic refresh); a volume
/// slider being dragged keeps its value; a recording target that no longer
/// exists gives way to the default input's active port.
pub open spec fn absorb(s: AudioStateView, scan: AudioScan, force: bool) -> AudioStateView {
    let sinks = if force || scan.sinks@.len() > 0 || s.sinks.len() == 0 { scan.sinks@ } else { s.sinks };
    let sources = if force || scan.sources@.len() > 0 || s.sources.len() == 0 { scan.sources@ } else { s.sources };
    let sink_vol = if s.sink_dragging { s.sink_vol } else { vol_of(named_dev(sinks, scan.default_sink)) };
    let source_vol = if s.source_dragging { s.source_vol } else { vol_of(named_dev(sources, scan.default_source)) };
    let target = match s.test_target {
        Some(t) => if target_choices(sources).contains(t) { Some(t) } else { default_target(sources, scan.default_source) },
        None => default_target(sources, scan.default_source),
    };
    AudioStateView {
        sinks,
        sources,
        default_sink: scan.default_sink,
        default_source: scan.default_source,
        jacks: scan.jacks@,
        vref: scan.vref,
        boosts: scan.boosts@,
        denoise_module: scan.denoise_module,
        scanned: true,
        sink_vol,
        source_vol,
        test_target: target,
        ..s
    }
}

fn contains_choice(cs: &Vec<Choice>, t: &Choice) -> (r: bool)
    ensures
        r == choices_view(cs@).contains(choice_view(*t)),
{
    let mut i: usize = 0;
    while i < cs.len()
        invariant
            i <= cs.len(),
            forall|j: int| 0 <= j < i ==> choices_view(cs@)[j] != choice_view(*t),
        decreases cs.len() - i,
    {
        if eq(chars_of_string(&cs[i].id).as_slice(), chars_of_string(&t.id).as_slice())
            && eq(chars_of_string(&cs[i].label).as_slice(), chars_of_string(&t.label).as_slice()) {
            assert(choices_view(cs@)[i as int] == choice_view(*t));
            return true;
        }
        i += 1;
    }
    false
}

fn vol_of_exec(list: &Vec<DeviceInfo>, name: &Option<String>) -> (r: u32)
    ensures
        r == vol_of(named_dev(list@, *name)),
{
    match named_dev_index(list, name) {
        Some(i) => match list[i].volume_pct {
            Some(v) => v,
            None => 0,
        },
        None => 0,
    }
}

fn default_target_exec(sources: &Vec<DeviceInfo>, default_source: &Option<String>) -> (r: Option<Choice>)
    ensures
        target_view(r) == default_target(sources@, *default_source),
{
    match named_dev_index(sources, default_source) {
        Some(i) => {
            let d = &sources[i];
            let port = match &d.active_port {
                Some(ap) => match find_port(&d.ports, chars_of_string(ap).as_slice()) {
                    Some(k) => Some(&d.ports[k]),
                    None => None,
                },
                None => None,
            };
            Some(test_choice(d, port))
        },
        None => None,
    }
}

impl AudioState {
    /// A state before any reading, with the fixed settings and the saved
    /// profile that were found on disk.
    pub fn new(lock: Option<AudioLock>, profile: Option<AudioProfile>) -> (s: Self)
        ensures
            s.sinks@.len() == 0 && s.sources@.len() == 0,
            s.default_sink is None && s.default_source is None,
            s.jacks@.len() == 0 && s.vref is None && s.boosts@.len() == 0 && s.denoise_module is None,
            s.lock == lock && s.profile == profile,
            !s.enforcing && !s.vref_fixing && !s.startup_enforced && !s.scanned,
            s.sink_vol == 0 && s.source_vol == 0 && !s.sink_dragging && !s.source_dragging,
            s.running is None && s.test_target is None && s.last_test_label@.len() == 0,
    {
        AudioState {
            sinks: Vec::new(),
            sources: Vec::new(),
            default_sink: None,
            default_source: None,
            jacks: Vec::new(),
            vref: None,
            boosts: Vec::new(),
            denoise_module: None,
            lock,
            profile,
            enforcing: false,
            vref_fixing: false,
            startup_enforced: false,
            scanned: false,
            sink_vol: 0,
            source_vol: 0,
            sink_dragging: false,
            source_dragging: false,
            running: None,
            test_target: None,
            last_test_label: String::new(),
        }
    }

    /// Takes in a reading of the devices.
    pub fn absorb_scan(&mut self, s: AudioScan, force: bool)
        ensures
            final(self)@ == absorb(old(self)@, s, force),
    {
        let ghost old_view = self@;
        let ghost scan = s;
        let AudioScan { sinks, sources, default_sink, default_source, jacks, vref, boosts, denoise_module } = s;
        if force || sinks.len() > 0 || self.sinks.len() == 0 {
            self.sinks = sinks;
        }
        if force || sources.len() > 0 || self.sources.len() == 0 {
            self.sources = sources;
        }
        self.default_sink = default_sink;
        self.default_source = default_source;
        self.jacks = jacks;
        self.vref = vref;
        self.boosts = boosts;
        self.denoise_module = denoise_module;
        self.scanned = true;
        if !self.sink_dragging {
            self.sink_vol = vol_of_exec(&self.sinks, &self.default_sink);
        }
        if !self.source_dragging {
            self.source_vol = vol_of_exec(&self.sources, &self.default_source);
        }
        let valid = test_target_choices(&self.sources);
        let keep = match &self.test_target {
            Some(t) => contains_choice(&valid, t),
            None => false,
        };
        if !keep {
            self.test_target = default_target_exec(&self.sources, &self.default_source);
        }
        assert(self@ == absorb(old_view, scan, force));
    }
}


// ---------------------------------------------------------------- after a reading

/// The active port of the default input.
pub open spec fn active_source_port(s: AudioStateView) -> Option<Seq<char>> {
    match named_dev(s.sources, s.default_source) {
        Some(d) => opt_view(d.active_port),
        None => None,
    }
}

/// Whether a microphone jack is plugged.
pub open spec fn mic_plugged(js: Seq<(String, bool)>) -> bool {
    exists|i: int| 0 <= i < js.len() && js[i].1 && crate::text::contains(js[i].0@, "Mic"@)
}

/// The boost command of the fixed settings, when they name a control.
pub open spec fn lock_boost(l: LockView) -> Seq<char> {
    if l.boost_ctl.len() == 0 { seq![] } else { boost_cmd(l.boost_ctl, l.boost_val) }
}

pub open spec fn startup_apply(l: LockView) -> ActionView {
    ActionView::Apply(
        startup_script(l.source, l.port, l.volume_pct, lock_boost(l), spec_port_label_kr(l.port), (l.boost_val * 10) as u64),
        "고정 설정 적용됨"@,
    )
}

pub open spec fn restore_apply(s: AudioStateView, l: LockView) -> ActionView {
    ActionView::Apply(
        restore_script(
            l.source, l.port, l.volume_pct, lock_boost(l),
            if s.denoise_module is Some { seq![] } else { move_streams_script(l.source) },
            spec_port_label_kr(l.port), (l.boost_val * 10) as u64,
        ),
        "고정 설정 복원됨"@,
    )
}

/// The pin-mic bias is switched back on, quietly, when the password-less
/// helper is installed, the headphone mic is the active input port, the bias
/// is off and nothing else runs.
pub open spec fn after_lock(s: AudioStateView) -> (AudioStateView, ActionView) {
    match s.vref {
        Some(v) => {
            if v.nopass && !v.bias_on && active_source_port(s) == Some("analog-input-headphone-mic"@)
                && !s.vref_fixing && s.running is None {
                (AudioStateView { vref_fixing: true, ..s },
                 ActionView::Apply(vref_auto_script(v.hwdev@, v.nid), "핀마이크 전원 자동 복원됨"@))
            } else {
                (if v.bias_on { AudioStateView { vref_fixing: false, ..s } } else { s }, ActionView::Idle)
            }
        },
        None => (s, ActionView::Idle),
    }
}

/// The fixed settings are restored when a microphone jack is plugged but the
/// system has put the input back on the internal microphone.
pub open spec fn after_startup(s: AudioStateView) -> (AudioStateView, ActionView) {
    match s.lock {
        Some(l) => {
            let reset = l.port != "analog-input-internal-mic"@
                && active_source_port(s) == Some("analog-input-internal-mic"@);
            if mic_plugged(s.jacks) && reset && !s.enforcing && s.running is None {
                (AudioStateView { enforcing: true, ..s }, restore_apply(s, l))
            } else {
                after_lock(if !reset { AudioStateView { enforcing: false, ..s } } else { s })
            }
        },
        None => after_lock(s),
    }
}

/// What follows a reading: once at start-up the fixed settings are applied
/// in full, where their input is present; then the restore rules.
pub open spec fn after_refresh(s: AudioStateView) -> (AudioStateView, ActionView) {
    if !s.startup_enforced {
        let s1 = AudioStateView { startup_enforced: true, ..s };
        match s.lock {
            Some(l) => if first_named(s.sources, l.source) is Some {
                (s1, startup_apply(l))
            } else {
                after_startup(s1)
            },
            None => after_startup(s1),
        }
    } else {
        after_startup(s)
    }
}

fn lock_boost_exec(l: &AudioLock) -> (r: Vec<char>)
    ensures
        r@ == lock_boost(l@),
{
    let c = chars_of_string(&l.boost_ctl);
    if c.len() == 0 { Vec::new() } else { boost_cmd_exec(c.as_slice(), l.boost_val) }
}

fn apply_action(script: Vec<char>, msg: &str) -> (a: AudioAction)
    ensures
        action_view(a) == ActionView::Apply(script@, msg@),
{
    AudioAction::Apply(string_of(script), string_of(chars_of(msg)))
}

impl AudioState {
    fn active_port_is(&self, port: &str) -> (r: bool)
        ensures
            r == (active_source_port(self@) == Some(port@)),
    {
        match named_dev_index(&self.sources, &self.default_source) {
            Some(i) => match &self.sources[i].active_port {
                Some(p) => eq_str(chars_of_string(p).as_slice(), port),
                None => false,
            },
            None => false,
        }
    }

    fn mic_jack_plugged(&self) -> (r: bool)
        ensures
            r == mic_plugged(self@.jacks),
    {
        let mut i: usize = 0;
        while i < self.jacks.len()
            invariant
                i <= self.jacks.len(),
                forall|j: int| 0 <= j < i ==> !(self.jacks@[j].1 && crate::text::contains(self.jacks@[j].0@, "Mic"@)),
            decreases self.jacks.len() - i,
        {
            if self.jacks[i].1 && crate::text::contains_str(chars_of_string(&self.jacks[i].0).as_slice(), "Mic") {
                return true;
            }
            i += 1;
        }
        false
    }

    fn refresh_vref(&mut self) -> (a: AudioAction)
        ensures
            (final(self)@, action_view(a)) == after_lock(old(self)@),
    {
        let fire = match &self.vref {
            Some(v) => v.nopass && !v.bias_on && self.active_port_is("analog-input-headphone-mic")
                && !self.vref_fixing && self.running.is_none(),
            None => false,
        };
        if fire {
            self.vref_fixing = true;
            let v = self.vref.as_ref().unwrap();
            let script = vref_auto_script_exec(chars_of_string(&v.hwdev).as_slice(), v.nid);
            return apply_action(script, "핀마이크 전원 자동 복원됨");
        }
        let bias_on = match &self.vref {
            Some(v) => v.bias_on,
            None => false,
        };
        if bias_on {
            self.vref_fixing = false;
        }
        AudioAction::Idle
    }

    fn refresh_lock(&mut self) -> (a: AudioAction)
        ensures
            (final(self)@, action_view(a)) == after_startup(old(self)@),
    {
        if self.lock.is_none() {
            return self.refresh_vref();
        }
        let reset = {
            let l = self.lock.as_ref().unwrap();
            !eq_str(chars_of_string(&l.port).as_slice(), "analog-input-internal-mic")
                && self.active_port_is("analog-input-internal-mic")
        };
        if self.mic_jack_plugged() && reset && !self.enforcing && self.running.is_none() {
            self.enforcing = true;
            let l = self.lock.as_ref().unwrap();
            let src = chars_of_string(&l.source);
            let port = chars_of_string(&l.port);
            let boost = lock_boost_exec(l);
            let moves = if self.denoise_module.is_some() { Vec::new() } else { move_streams_script_exec(src.as_slice()) };
            let label = chars_of(port_label_kr(l.port.as_str()));
            let script = restore_script_exec(
                src.as_slice(), port.as_slice(), l.volume_pct, boost.as_slice(), moves.as_slice(),
                label.as_slice(), l.boost_val as u64 * 10,
            );
            return apply_action(script, "고정 설정 복원됨");
        }
        if !reset {
            self.enforcing = false;
        }
        self.refresh_vref()
    }

    fn after_reading(&mut self) -> (a: AudioAction)
        ensures
            (final(self)@, action_view(a)) == after_refresh(old(self)@),
    {
        if !self.startup_enforced {
            self.startup_enforced = true;
            let present = match &self.lock {
                Some(l) => find_named(&self.sources, chars_of_string(&l.source).as_slice()).is_some(),
                None => false,
            };
            if present {
                let l = self.lock.as_ref().unwrap();
                let src = chars_of_string(&l.source);
                let port = chars_of_string(&l.port);
                let boost = lock_boost_exec(l);
                let label = chars_of(port_label_kr(l.port.as_str()));
                let script = startup_script_exec(
                    src.as_slice(), port.as_slice(), l.volume_pct, boost.as_slice(), label.as_slice(),
                    l.boost_val as u64 * 10,
                );
                return apply_action(script, "고정 설정 적용됨");
            }
        }
        self.refresh_lock()
    }
}


// ---------------------------------------------------------------- what the tab shows

/// The decisions of the scanned audio tab.
pub struct AudioPanel {
    /// The pin-mic bias card: a bias was read and the headphone-mic port is
    /// the active input port (the bias matters only there).
    pub bias_card: bool,
    /// A microphone is plugged into the jack while the internal microphone
    /// records: the input hint says to switch ports, else it explains the
    /// headset and microphone ports.
    pub mic_on_internal: bool,
    /// The boost row: the control of the active input port and its level,
    /// when that port has a boost control and the mixer reports it.
    pub boost: Option<(String, u32)>,
}

/// The boost row of the tab: the active input port's control and its level.
pub open spec fn spec_boost_row(s: AudioStateView) -> Option<(Seq<char>, u32)> {
    match active_source_port(s) {
        Some(p) => {
            let ctl = spec_boost_ctl_for_port(p);
            if ctl.len() == 0 {
                None
            } else {
                match boost_found(s.boosts, ctl) {
                    Some(v) => Some((ctl, v)),
                    None => None,
                }
            }
        },
        None => None,
    }
}

/// What the audio tab shows once it has a reading (nothing before: it is
/// still scanning).
pub fn audio_panel(st: &AudioState) -> (r: Option<AudioPanel>)
    ensures
        r is Some == st@.scanned,
        r matches Some(p) ==> {
            &&& p.bias_card == (st@.vref is Some && active_source_port(st@) == Some("analog-input-headphone-mic"@))
            &&& p.mic_on_internal == (mic_plugged(st@.jacks) && active_source_port(st@) == Some("analog-input-internal-mic"@))
            &&& (match p.boost { Some((c, v)) => Some((c@, v)), None => None }) == spec_boost_row(st@)
        },
{
    if !st.scanned {
        return None;
    }
    let bias_card = st.vref.is_some() && st.active_port_is("analog-input-headphone-mic");
    let mic_on_internal = st.mic_jack_plugged() && st.active_port_is("analog-input-internal-mic");
    let boost = match named_dev_index(&st.sources, &st.default_source) {
        Some(i) => match &st.sources[i].active_port {
            Some(p) => {
                let ctl = chars_of(boost_ctl_for_port(p.as_str()));
                if ctl.len() == 0 {
                    None
                } else {
                    match find_boost(&st.boosts, ctl.as_slice()) {
                        Some(v) => Some((string_of(ctl), v)),
                        None => None,
                    }
                }
            },
            None => None,
        },
        None => None,
    };
    Some(AudioPanel { bias_card, mic_on_internal, boost })
}

// ---------------------------------------------------------------- profile and targets

/// The output or input to save: the default one unless it is virtual, else
/// the first real one.
pub open spec fn real_dev(list: Seq<DeviceInfo>, def: Option<String>) -> Option<DeviceInfo> {
    match named_dev(list, def) {
        Some(d) => if !spec_is_virtual_dev(d.name@) {
            Some(d)
        } else {
            match first_real(list) { Some(i) => Some(list[i]), None => None }
        },
        None => match first_real(list) { Some(i) => Some(list[i]), None => None },
    }
}

/// The profile built from what the tab shows, unstamped; noise suppression
/// makes the default devices virtual, so the real hardware stands in for them.
pub open spec fn built_profile(s: AudioStateView) -> Option<ProfileView> {
    match (real_dev(s.sinks, s.default_sink), real_dev(s.sources, s.default_source)) {
        (Some(k), Some(c)) => {
            let ctl = match c.active_port { Some(p) => spec_boost_ctl_for_port(p@), None => ""@ };
            Some(ProfileView {
                saved_at: seq![],
                sink: k.name@,
                sink_desc: k.desc@,
                sink_port: opt_view(k.active_port),
                sink_volume_pct: match k.volume_pct { Some(v) => v, None => s.sink_vol },
                source: c.name@,
                source_desc: c.desc@,
                source_port: opt_view(c.active_port),
                source_volume_pct: match c.volume_pct { Some(v) => v, None => s.source_vol },
                boost_ctl: ctl,
                boost_val: boost_of(s.boosts, ctl),
                denoise: s.denoise_module is Some,
            })
        },
        _ => None,
    }
}

fn real_dev_index(list: &Vec<DeviceInfo>, def: &Option<String>) -> (r: Option<usize>)
    ensures
        match r {
            Some(i) => i < list.len() && real_dev(list@, *def) == Some(list@[i as int]),
            None => real_dev(list@, *def) is None,
        },
{
    match named_dev_index(list, def) {
        Some(i) => {
            if !is_virtual_dev(list[i].name.as_str()) {
                return Some(i);
            }
        },
        None => {},
    }
    let r = find_real(list);
    proof { lemma_first_real(list@); }
    r
}

fn clone_opt(o: &Option<String>) -> (r: Option<String>)
    ensures
        r == *o,
{
    match o {
        Some(x) => Some(x.clone()),
        None => None,
    }
}

impl AudioState {
    fn build_profile(&self) -> (r: Option<AudioProfile>)
        ensures
            match r {
                Some(p) => built_profile(self@) == Some(p@),
                None => built_profile(self@) is None,
            },
    {
        let ki = match real_dev_index(&self.sinks, &self.default_sink) {
            Some(i) => i,
            None => return None,
        };
        let ci = match real_dev_index(&self.sources, &self.default_source) {
            Some(i) => i,
            None => return None,
        };
        let k = &self.sinks[ki];
        let c = &self.sources[ci];
        let ctl: &str = match &c.active_port {
            Some(p) => boost_ctl_for_port(p.as_str()),
            None => "",
        };
        let ctl_chars = chars_of(ctl);
        let boost_val = boost_value(&self.boosts, ctl_chars.as_slice());
        Some(AudioProfile {
            saved_at: String::new(),
            sink: k.name.clone(),
            sink_desc: k.desc.clone(),
            sink_port: clone_opt(&k.active_port),
            sink_volume_pct: match k.volume_pct { Some(v) => v, None => self.sink_vol },
            source: c.name.clone(),
            source_desc: c.desc.clone(),
            source_port: clone_opt(&c.active_port),
            source_volume_pct: match c.volume_pct { Some(v) => v, None => self.source_vol },
            boost_ctl: string_of(ctl_chars),
            boost_val,
            denoise: self.denoise_module.is_some(),
        })
    }
}

/// The (source, port) a recording target names: its id split at the tab,
/// or the whole id and no port.
pub open spec fn target_parts(t: Option<(Seq<char>, Seq<char>)>) -> Option<(Seq<char>, Seq<char>)> {
    match t {
        Some(c) => Some(match split_once(c.0, '\t') {
            Some(parts) => parts,
            None => (c.0, seq![]),
        }),
        None => None,
    }
}

/// How a test names its target: the target's label, or the default input.
pub open spec fn target_label(t: Option<(Seq<char>, Seq<char>)>) -> Seq<char> {
    match t {
        Some(c) => c.1,
        None => "기본 입력"@,
    }
}

fn target_parts_exec(t: &Option<Choice>) -> (r: Option<(String, String)>)
    ensures
        pair_view(r) == target_parts(target_view(*t)),
{
    match t {
        Some(c) => {
            let id = chars_of_string(&c.id);
            match split_once_exec(id.as_slice(), '\t') {
                Some((a, b)) => Some((string_of(a), string_of(b))),
                None => Some((string_of(id), String::new())),
            }
        },
        None => None,
    }
}

fn target_label_exec(t: &Option<Choice>) -> (r: String)
    ensures
        r@ == target_label(target_view(*t)),
{
    match t {
        Some(c) => c.label.clone(),
        None => string_of(chars_of("기본 입력")),
    }
}

pub open spec fn muted_of(d: Option<DeviceInfo>) -> bool {
    match d {
        Some(x) => x.muted,
        None => false,
    }
}

pub open spec fn with_running(s: AudioStateView, r: Seq<char>) -> AudioStateView {
    AudioStateView { running: Some(r), ..s }
}

pub open spec fn idle(s: AudioStateView) -> (AudioStateView, ActionView, Option<(bool, Seq<char>)>) {
    (s, ActionView::Idle, None)
}

/// How the audio tab answers a message: its next state, what the caller is
/// to run, and what the log is told. `exe` is the program's own path and
/// `user` the login name, which the bias helper's setup writes down.
pub open spec fn audio_step(s: AudioStateView, msg: AudioMsg, exe: Seq<char>, user: Seq<char>)
    -> (AudioStateView, ActionView, Option<(bool, Seq<char>)>)
{
    match msg {
        AudioMsg::Refresh => (s, ActionView::Scan, None),
        AudioMsg::Reload => (with_running(s, "장치 다시 읽는 중..."@), ActionView::Reload, None),
        AudioMsg::Reloaded(scan) => (
            absorb(AudioStateView { running: None, ..s }, scan, true),
            ActionView::Idle,
            Some((true, spec_state_summary(scan))),
        ),
        AudioMsg::Refreshed(scan) => {
            let r = after_refresh(absorb(s, scan, false));
            (r.0, r.1, None)
        },
        AudioMsg::PickSink(c) => (s, ActionView::Apply(pick_sink_script(c.id@), arrow_msg("기본 출력 장치"@, c.label@)), None),
        AudioMsg::PickSource(c) => (s, ActionView::Apply(pick_source_script(c.id@), arrow_msg("기본 입력 장치"@, c.label@)), None),
        AudioMsg::PickSinkPort(c) => match s.default_sink {
            Some(k) => (s, ActionView::Apply(sink_port_script(k@, c.id@), arrow_msg("출력 포트"@, c.label@)), None),
            None => idle(s),
        },
        AudioMsg::PickSourcePort(c) => match s.default_source {
            Some(k) => (s, ActionView::Apply(source_port_script(k@, c.id@), arrow_msg("입력 포트"@, c.label@)), None),
            None => idle(s),
        },
        AudioMsg::SinkVol(v) => idle(AudioStateView { sink_vol: v, sink_dragging: true, ..s }),
        AudioMsg::SourceVol(v) => idle(AudioStateView { source_vol: v, source_dragging: true, ..s }),
        AudioMsg::SinkVolCommit => {
            let s1 = AudioStateView { sink_dragging: false, ..s };
            match s.default_sink {
                Some(k) => (s1, ActionView::Apply(sink_volume_script(k@, s.sink_vol), volume_msg("출력 볼륨"@, s.sink_vol)), None),
                None => idle(s1),
            }
        },
        AudioMsg::SourceVolCommit => {
            let s1 = AudioStateView { source_dragging: false, ..s };
            match s.default_source {
                Some(k) => (s1, ActionView::Apply(source_volume_script(k@, s.source_vol), volume_msg("입력 볼륨"@, s.source_vol)), None),
                None => idle(s1),
            }
        },
        AudioMsg::ToggleSinkMute => match s.default_sink {
            Some(k) => (s, ActionView::Apply(sink_mute_script(k@),
                if muted_of(named_dev(s.sinks, s.default_sink)) { "출력 음소거 해제"@ } else { "출력 음소거"@ }), None),
            None => idle(s),
        },
        AudioMsg::ToggleSourceMute => match s.default_source {
            Some(k) => (s, ActionView::Apply(source_mute_script(k@),
                if muted_of(named_dev(s.sources, s.default_source)) { "입력 음소거 해제"@ } else { "입력 음소거"@ }), None),
            None => idle(s),
        },
        AudioMsg::Applied(r) => (AudioStateView { running: None, ..s }, ActionView::Scan, Some((r.success, r.output@))),
        AudioMsg::VrefOn => match s.vref {
            Some(v) => (
                with_running(s, if v.nopass { "핀마이크 전원 켜는 중..."@ } else { "핀마이크 전원 켜는 중 (관리자 인증 필요)..."@ }),
                ActionView::Apply(vref_on_script(v.hwdev@, v.nid, exe), "핀마이크 바이어스 전원 켜짐 (VREF_80)"@),
                None,
            ),
            None => idle(s),
        },
        AudioMsg::VrefSetupNopass => match s.vref {
            Some(_) => (
                with_running(s, "비번 없는 전원 제어 설정 중 (이번 한 번만 인증)..."@),
                ActionView::Apply(nopass_script(exe, user), "비번 없는 전원 제어 설정됨"@),
                None,
            ),
            None => idle(s),
        },
        AudioMsg::VrefBootInstall => match s.vref {
            Some(v) => (
                with_running(s, "부팅 영구 패치 설치 중 (관리자 인증 필요)..."@),
                ActionView::Apply(boot_install_script(pinmic_fw(v.vendor_id@, v.subsys_id@, v.codec_addr, v.nid)), "부팅 패치 설치됨"@),
                None,
            ),
            None => idle(s),
        },
        AudioMsg::VrefBootRemove => (
            with_running(s, "부팅 패치 제거 중 (관리자 인증 필요)..."@),
            ActionView::Apply(BOOT_REMOVE_SCRIPT@, "부팅 패치 제거됨"@),
            None,
        ),
        AudioMsg::PickTestTarget(c) => idle(AudioStateView { test_target: Some(choice_view(c)), ..s }),
        AudioMsg::PickBoost(c) => match split_once(c.id@, '\t') {
            Some((ctl, val)) => (s, ActionView::Apply(boost_pick_script(ctl, val, c.label@), arrow_msg(ctl, c.label@)), None),
            None => idle(s),
        },
        AudioMsg::LoopTest => {
            let label = target_label(s.test_target);
            (
                AudioStateView {
                    last_test_label: label,
                    running: Some(bracket_msg("루프 테스트 중 (4초, 비프음 재생)..."@, label)),
                    ..s
                },
                ActionView::LoopTest(opt_view(s.default_sink), target_parts(s.test_target)),
                None,
            )
        },
        AudioMsg::TestMic => {
            let label = target_label(s.test_target);
            (
                AudioStateView { last_test_label: label, running: Some(bracket_msg("녹음 중 (2초)..."@, label)), ..s },
                ActionView::TestMic(target_parts(s.test_target)),
                None,
            )
        },
        AudioMsg::TestFinished => idle(AudioStateView { running: None, ..s }),
        AudioMsg::LockProfile => match named_dev(s.sources, s.default_source) {
            None => (s, ActionView::Idle, Some((false, "입력 장치 없음"@))),
            Some(d) => match d.active_port {
                None => (s, ActionView::Idle, Some((false, "활성 포트 없음"@))),
                Some(p) => {
                    let ctl = spec_boost_ctl_for_port(p@);
                    let l = LockView {
                        source: d.name@,
                        port: p@,
                        volume_pct: s.source_vol,
                        boost_ctl: ctl,
                        boost_val: boost_of(s.boosts, ctl),
                    };
                    (AudioStateView { lock: Some(l), ..s }, ActionView::SaveLock(l), None)
                },
            },
        },
        AudioMsg::UnlockProfile => (AudioStateView { lock: None, ..s }, ActionView::RemoveLock, Some((true, "입력 설정 고정 해제됨"@))),
        AudioMsg::SaveProfile => match built_profile(s) {
            Some(p) => (s, ActionView::SaveProfile(p), None),
            None => (s, ActionView::Idle, Some((false, "저장할 출력/입력 장치를 찾지 못했습니다"@))),
        },
        AudioMsg::ProfileSaved(p, res) => (
            if res.success { AudioStateView { profile: Some(p), ..s } } else { s },
            ActionView::Idle,
            Some((res.success, res.output@)),
        ),
        AudioMsg::LoadProfile => match s.profile {
            None => (s, ActionView::Idle, Some((false, "저장된 오디오 설정이 없습니다"@))),
            Some(p) => if first_named(s.sinks, p.sink@) is None && first_named(s.sources, p.source@) is None {
                (s, ActionView::Idle, Some((false, "저장된 장치가 현재 목록에 없습니다 — 장치 연결을 확인하세요"@)))
            } else {
                (
                    with_running(s, "저장된 오디오 설정 불러오는 중..."@),
                    ActionView::Apply(spec_load_script(p), load_msg(p.saved_at@)),
                    None,
                )
            },
        },
        AudioMsg::ToggleDenoise => (
            with_running(s, "노이즈 억제 전환 중..."@),
            ActionView::Apply(
                match s.denoise_module { Some(id) => denoise_off_script(id@), None => DENOISE_ON_SCRIPT@ },
                "노이즈 억제 전환됨"@,
            ),
            None,
        ),
        AudioMsg::Play => (with_running(s, "재생 중..."@), ActionView::Play(PLAY_SCRIPT@), None),
        AudioMsg::Done(r) => (AudioStateView { running: None, ..s }, ActionView::Idle, Some((r.success, r.output@))),
    }
}

fn cmd(success: bool, output: &str) -> (r: Option<CmdResult>)
    ensures
        result_view(r) == Some((success, output@)),
{
    Some(CmdResult { success, output: string_of(chars_of(output)) })
}

impl AudioState {
    /// Answers a message; see `audio_step` for what each one does.
    #[verifier::rlimit(100)]
    #[verifier::spinoff_prover]
    pub fn update(&mut self, msg: AudioMsg, exe: &str, user: &str) -> (r: (AudioAction, Option<CmdResult>))
        ensures
            (final(self)@, action_view(r.0), result_view(r.1)) == audio_step(old(self)@, msg, exe@, user@),
    {
        let ghost s0 = self@;
        match msg {
            AudioMsg::Refresh => (AudioAction::Scan, None),
            AudioMsg::Reload => {
                self.running = Some(string_of(chars_of("장치 다시 읽는 중...")));
                (AudioAction::Reload, None)
            },
            AudioMsg::Reloaded(scan) => {
                self.running = None;
                let summary = device_state_summary(&scan);
                self.absorb_scan(scan, true);
                (AudioAction::Idle, Some(CmdResult { success: true, output: summary }))
            },
            AudioMsg::Refreshed(scan) => {
                self.absorb_scan(scan, false);
                let a = self.after_reading();
                (a, None)
            },
            AudioMsg::PickSink(c) => {
                let script = pick_sink_script_exec(chars_of_string(&c.id).as_slice());
                let m = arrow_msg_exec(chars_of("기본 출력 장치").as_slice(), chars_of_string(&c.label).as_slice());
                (AudioAction::Apply(string_of(script), string_of(m)), None)
            },
            AudioMsg::PickSource(c) => {
                let script = pick_source_script_exec(chars_of_string(&c.id).as_slice());
                let m = arrow_msg_exec(chars_of("기본 입력 장치").as_slice(), chars_of_string(&c.label).as_slice());
                (AudioAction::Apply(string_of(script), string_of(m)), None)
            },
            AudioMsg::PickSinkPort(c) => match &self.default_sink {
                Some(k) => {
                    let script = sink_port_script_exec(chars_of_string(k).as_slice(), chars_of_string(&c.id).as_slice());
                    let m = arrow_msg_exec(chars_of("출력 포트").as_slice(), chars_of_string(&c.label).as_slice());
                    (AudioAction::Apply(string_of(script), string_of(m)), None)
                },
                None => (AudioAction::Idle, None),
            },
            AudioMsg::PickSourcePort(c) => match &self.default_source {
                Some(k) => {
                    let script = source_port_script_exec(chars_of_string(k).as_slice(), chars_of_string(&c.id).as_slice());
                    let m = arrow_msg_exec(chars_of("입력 포트").as_slice(), chars_of_string(&c.label).as_slice());
                    (AudioAction::Apply(string_of(script), string_of(m)), None)
                },
                None => (AudioAction::Idle, None),
            },
            AudioMsg::SinkVol(v) => {
                self.sink_vol = v;
                self.sink_dragging = true;
                (AudioAction::Idle, None)
            },
            AudioMsg::SourceVol(v) => {
                self.source_vol = v;
                self.source_dragging = true;
                (AudioAction::Idle, None)
            },
            AudioMsg::SinkVolCommit => {
                self.sink_dragging = false;
                match &self.default_sink {
                    Some(k) => {
                        let v = self.sink_vol;
                        let script = sink_volume_script_exec(chars_of_string(k).as_slice(), v);
                        let m = volume_msg_exec(chars_of("출력 볼륨").as_slice(), v);
                        (AudioAction::Apply(string_of(script), string_of(m)), None)
                    },
                    None => (AudioAction::Idle, None),
                }
            },
            AudioMsg::SourceVolCommit => {
                self.source_dragging = false;
                match &self.default_source {
                    Some(k) => {
                        let v = self.source_vol;
                        let script = source_volume_script_exec(chars_of_string(k).as_slice(), v);
                        let m = volume_msg_exec(chars_of("입력 볼륨").as_slice(), v);
                        (AudioAction::Apply(string_of(script), string_of(m)), None)
                    },
                    None => (AudioAction::Idle, None),
                }
            },
            AudioMsg::ToggleSinkMute => match &self.default_sink {
                Some(k) => {
                    let muted = match named_dev_index(&self.sinks, &self.default_sink) {
                        Some(i) => self.sinks[i].muted,
                        None => false,
                    };
                    let script = sink_mute_script_exec(chars_of_string(k).as_slice());
                    let m = if muted { "출력 음소거 해제" } else { "출력 음소거" };
                    (apply_action(script, m), None)
                },
                None => (AudioAction::Idle, None),
            },
            AudioMsg::ToggleSourceMute => match &self.default_source {
                Some(k) => {
                    let muted = match named_dev_index(&self.sources, &self.default_source) {
                        Some(i) => self.sources[i].muted,
                        None => false,
                    };
                    let script = source_mute_script_exec(chars_of_string(k).as_slice());
                    let m = if muted { "입력 음소거 해제" } else { "입력 음소거" };
                    (apply_action(script, m), None)
                },
                None => (AudioAction::Idle, None),
            },
            AudioMsg::Applied(r) => {
                self.running = None;
                (AudioAction::Scan, Some(r))
            },
            AudioMsg::VrefOn => {
                if self.vref.is_none() {
                    return (AudioAction::Idle, None);
                }
                let v = self.vref.as_ref().unwrap();
                let running = if v.nopass { "핀마이크 전원 켜는 중..." } else { "핀마이크 전원 켜는 중 (관리자 인증 필요)..." };
                let script = vref_on_script_exec(chars_of_string(&v.hwdev).as_slice(), v.nid, chars_of(exe).as_slice());
                self.running = Some(string_of(chars_of(running)));
                (apply_action(script, "핀마이크 바이어스 전원 켜짐 (VREF_80)"), None)
            },
            AudioMsg::VrefSetupNopass => {
                if self.vref.is_none() {
                    return (AudioAction::Idle, None);
                }
                self.running = Some(string_of(chars_of("비번 없는 전원 제어 설정 중 (이번 한 번만 인증)...")));
                let script = nopass_script_exec(chars_of(exe).as_slice(), chars_of(user).as_slice());
                (apply_action(script, "비번 없는 전원 제어 설정됨"), None)
            },
            AudioMsg::VrefBootInstall => {
                if self.vref.is_none() {
                    return (AudioAction::Idle, None);
                }
                let v = self.vref.as_ref().unwrap();
                let fw = pinmic_fw_exec(
                    chars_of_string(&v.vendor_id).as_slice(), chars_of_string(&v.subsys_id).as_slice(), v.codec_addr, v.nid,
                );
                let script = boot_install_script_exec(fw.as_slice());
                self.running = Some(string_of(chars_of("부팅 영구 패치 설치 중 (관리자 인증 필요)...")));
                (apply_action(script, "부팅 패치 설치됨"), None)
            },
            AudioMsg::VrefBootRemove => {
                self.running = Some(string_of(chars_of("부팅 패치 제거 중 (관리자 인증 필요)...")));
                (apply_action(chars_of(BOOT_REMOVE_SCRIPT), "부팅 패치 제거됨"), None)
            },
            AudioMsg::PickTestTarget(c) => {
                self.test_target = Some(c);
                (AudioAction::Idle, None)
            },
            AudioMsg::PickBoost(c) => {
                let id = chars_of_string(&c.id);
                match split_once_exec(id.as_slice(), '\t') {
                    Some((ctl, val)) => {
                        let label = chars_of_string(&c.label);
                        let script = boost_pick_script_exec(ctl.as_slice(), val.as_slice(), label.as_slice());
                        let m = arrow_msg_exec(ctl.as_slice(), label.as_slice());
                        (AudioAction::Apply(string_of(script), string_of(m)), None)
                    },
                    None => (AudioAction::Idle, None),
                }
            },
            AudioMsg::LoopTest => {
                let target = target_parts_exec(&self.test_target);
                let sink = clone_opt(&self.default_sink);
                let label = target_label_exec(&self.test_target);
                let running = bracket_msg_exec(
                    chars_of("루프 테스트 중 (4초, 비프음 재생)...").as_slice(), chars_of_string(&label).as_slice(),
                );
                self.last_test_label = label;
                self.running = Some(string_of(running));
                (AudioAction::LoopTest(sink, target), None)
            },
            AudioMsg::TestMic => {
                let target = target_parts_exec(&self.test_target);
                let label = target_label_exec(&self.test_target);
                let running = bracket_msg_exec(chars_of("녹음 중 (2초)...").as_slice(), chars_of_string(&label).as_slice());
                self.last_test_label = label;
                self.running = Some(string_of(running));
                (AudioAction::TestMic(target), None)
            },
            AudioMsg::TestFinished => {
                self.running = None;
                (AudioAction::Idle, None)
            },
            AudioMsg::LockProfile => {
                let i = match named_dev_index(&self.sources, &self.default_source) {
                    Some(i) => i,
                    None => return (AudioAction::Idle, cmd(false, "입력 장치 없음")),
                };
                let port = match &self.sources[i].active_port {
                    Some(p) => p.clone(),
                    None => return (AudioAction::Idle, cmd(false, "활성 포트 없음")),
                };
                let ctl = chars_of(boost_ctl_for_port(port.as_str()));
                let boost_val = boost_value(&self.boosts, ctl.as_slice());
                let lock = AudioLock {
                    source: self.sources[i].name.clone(),
                    port,
                    volume_pct: self.source_vol,
                    boost_ctl: string_of(ctl),
                    boost_val,
                };
                let saved = AudioLock {
                    source: lock.source.clone(),
                    port: lock.port.clone(),
                    volume_pct: lock.volume_pct,
                    boost_ctl: lock.boost_ctl.clone(),
                    boost_val: lock.boost_val,
                };
                self.lock = Some(lock);
                (AudioAction::SaveLock(saved), None)
            },
            AudioMsg::UnlockProfile => {
                self.lock = None;
                (AudioAction::RemoveLock, cmd(true, "입력 설정 고정 해제됨"))
            },
            AudioMsg::SaveProfile => match self.build_profile() {
                Some(p) => (AudioAction::SaveProfile(p), None),
                None => (AudioAction::Idle, cmd(false, "저장할 출력/입력 장치를 찾지 못했습니다")),
            },
            AudioMsg::ProfileSaved(p, res) => {
                if res.success {
                    self.profile = Some(p);
                }
                (AudioAction::Idle, Some(res))
            },
            AudioMsg::LoadProfile => {
                if self.profile.is_none() {
                    return (AudioAction::Idle, cmd(false, "저장된 오디오 설정이 없습니다"));
                }
                let p = self.profile.as_ref().unwrap();
                let has_sink = find_named(&self.sinks, chars_of_string(&p.sink).as_slice()).is_some();
                let has_source = find_named(&self.sources, chars_of_string(&p.source).as_slice()).is_some();
                if !has_sink && !has_source {
                    return (AudioAction::Idle, cmd(false, "저장된 장치가 현재 목록에 없습니다 — 장치 연결을 확인하세요"));
                }
                let script = build_load_script(p);
                let m = load_msg_exec(chars_of_string(&p.saved_at).as_slice());
                self.running = Some(string_of(chars_of("저장된 오디오 설정 불러오는 중...")));
                (AudioAction::Apply(script, string_of(m)), None)
            },
            AudioMsg::ToggleDenoise => {
                let script = match &self.denoise_module {
                    Some(id) => denoise_off_script_exec(chars_of_string(id).as_slice()),
                    None => chars_of(DENOISE_ON_SCRIPT),
                };
                self.running = Some(string_of(chars_of("노이즈 억제 전환 중...")));
                (apply_action(script, "노이즈 억제 전환됨"), None)
            },
            AudioMsg::Play => {
                self.running = Some(string_of(chars_of("재생 중...")));
                (AudioAction::Play(string_of(chars_of(PLAY_SCRIPT))), None)
            },
            AudioMsg::Done(r) => {
                self.running = None;
                (AudioAction::Idle, Some(r))
            },
        }
    }
}


// ---------------------------------------------------------------- results of the caller's work

/// What the log is told of a script run for a setting: the message when it
/// printed nothing, the message and its trimmed output when it printed
/// something, and the failure as it came otherwise.
pub open spec fn spec_applied_result(r: CmdResult, ok_msg: Seq<char>) -> (bool, Seq<char>) {
    if r.success && trim(r.output@).len() == 0 {
        (true, ok_msg)
    } else if r.success {
        (true, ok_msg + "\n"@ + trim(r.output@))
    } else {
        (r.success, r.output@)
    }
}

pub fn applied_result(r: CmdResult, ok_msg: &str) -> (out: CmdResult)
    ensures
        (out.success, out.output@) == spec_applied_result(r, ok_msg@),
{
    let t = trim_exec(chars_of_string(&r.output).as_slice());
    if r.success && t.len() == 0 {
        CmdResult { success: true, output: string_of(chars_of(ok_msg)) }
    } else if r.success {
        let mut o = chars_of(ok_msg);
        extend_str(&mut o, "\n");
        extend(&mut o, t.as_slice());
        CmdResult { success: true, output: string_of(o) }
    } else {
        r
    }
}

/// What the log is told once the fixed settings were written (or not).
pub open spec fn spec_lock_saved(l: LockView, error: Option<Seq<char>>) -> (bool, Seq<char>) {
    match error {
        None => (true, lock_msg(spec_port_label_kr(l.port), l.volume_pct, (l.boost_val * 10) as u64)),
        Some(e) => (false, "고정 저장 실패: "@ + e),
    }
}

pub fn lock_saved_result(l: &AudioLock, error: Option<String>) -> (out: CmdResult)
    ensures
        (out.success, out.output@) == spec_lock_saved(l@, opt_view(error)),
{
    match error {
        None => {
            let label = chars_of(port_label_kr(l.port.as_str()));
            let m = lock_msg_exec(label.as_slice(), l.volume_pct, l.boost_val as u64 * 10);
            CmdResult { success: true, output: string_of(m) }
        },
        Some(e) => {
            let mut o = chars_of("고정 저장 실패: ");
            extend(&mut o, chars_of_string(&e).as_slice());
            CmdResult { success: false, output: string_of(o) }
        },
    }
}

/// The time a profile is stamped with: the trimmed output of `date`, or `?`.
pub open spec fn stamp_of(date_out: Seq<char>) -> Seq<char> {
    if trim(date_out).len() == 0 { "?"@ } else { trim(date_out) }
}

/// The profile stamped with the time that `date` printed.
pub fn stamp_profile(p: AudioProfile, date_out: &str) -> (r: AudioProfile)
    ensures
        r@ == (ProfileView { saved_at: stamp_of(date_out@), ..p@ }),
{
    let t = trim_exec(chars_of(date_out).as_slice());
    let mut q = p;
    q.saved_at = if t.len() == 0 { string_of(chars_of("?")) } else { string_of(t) };
    q
}

/// What the log is told once a profile was written (or not).
pub open spec fn spec_profile_saved(p: AudioProfile, error: Option<Seq<char>>) -> (bool, Seq<char>) {
    match error {
        None => (true, profile_saved_msg(p.saved_at@, spec_profile_summary(p))),
        Some(e) => (false, "저장 실패: "@ + e),
    }
}

pub fn profile_saved_result(p: &AudioProfile, error: Option<String>) -> (out: CmdResult)
    ensures
        (out.success, out.output@) == spec_profile_saved(*p, opt_view(error)),
{
    match error {
        None => {
            let summary = chars_of_string(&profile_summary(p));
            let m = profile_saved_msg_exec(chars_of_string(&p.saved_at).as_slice(), summary.as_slice());
            CmdResult { success: true, output: string_of(m) }
        },
        Some(e) => {
            let mut o = chars_of("저장 실패: ");
            extend(&mut o, chars_of_string(&e).as_slice());
            CmdResult { success: false, output: string_of(o) }
        },
    }
}


// ---------------------------------------------------------------- laws

/// An automatic refresh never replaces a non-empty list of outputs or inputs
/// with an empty one (the tab does not flicker to "no device").
pub proof fn law_refresh_keeps_devices(s: AudioStateView, scan: AudioScan)
    ensures
        s.sinks.len() > 0 ==> absorb(s, scan, false).sinks.len() > 0,
        s.sources.len() > 0 ==> absorb(s, scan, false).sources.len() > 0,
{
}

/// An explicit reload shows exactly what was read, empty lists included.
pub proof fn law_reload_shows_reading(s: AudioStateView, scan: AudioScan)
    ensures
        absorb(s, scan, true).sinks == scan.sinks@,
        absorb(s, scan, true).sources == scan.sources@,
        absorb(s, scan, true).default_sink == scan.default_sink,
        absorb(s, scan, true).default_source == scan.default_source,
{
}

/// A volume slider that is being dragged keeps its value through a reading.
pub proof fn law_dragged_slider_kept(s: AudioStateView, scan: AudioScan, force: bool)
    ensures
        s.sink_dragging ==> absorb(s, scan, force).sink_vol == s.sink_vol,
        s.source_dragging ==> absorb(s, scan, force).source_vol == s.source_vol,
{
}

/// A volume slider, once dragged, holds its value until it is released:
/// the drag sets it, and any message other than a new drag or the release,
/// readings among them, leaves both the value and the drag in place.
pub proof fn law_slider_held_until_commit(
    s: AudioStateView, v: u32, msg: AudioMsg, exe: Seq<char>, user: Seq<char>,
)
    ensures
        audio_step(s, AudioMsg::SinkVol(v), exe, user).0.sink_vol == v,
        audio_step(s, AudioMsg::SinkVol(v), exe, user).0.sink_dragging,
        audio_step(s, AudioMsg::SourceVol(v), exe, user).0.source_vol == v,
        audio_step(s, AudioMsg::SourceVol(v), exe, user).0.source_dragging,
        s.sink_dragging && !(msg is SinkVol) && !(msg is SinkVolCommit) ==> {
            &&& audio_step(s, msg, exe, user).0.sink_dragging
            &&& audio_step(s, msg, exe, user).0.sink_vol == s.sink_vol
        },
        s.source_dragging && !(msg is SourceVol) && !(msg is SourceVolCommit) ==> {
            &&& audio_step(s, msg, exe, user).0.source_dragging
            &&& audio_step(s, msg, exe, user).0.source_vol == s.source_vol
        },
{
    lemma_after_refresh_keeps_sliders(absorb(s, match msg { AudioMsg::Refreshed(sc) => sc, _ => arbitrary() }, false));
}

/// Once released, a slider follows the readings again: the next reading
/// shows the volume of the default device it names (0 when there is none).
pub proof fn law_slider_follows_after_commit(s: AudioStateView, scan: AudioScan, exe: Seq<char>, user: Seq<char>)
    ensures
        ({
            let s2 = audio_step(s, AudioMsg::SinkVolCommit, exe, user).0;
            let s3 = audio_step(s2, AudioMsg::Refreshed(scan), exe, user).0;
            &&& !s2.sink_dragging
            &&& s3.sink_vol == vol_of(named_dev(s3.sinks, s3.default_sink))
        }),
        ({
            let s2 = audio_step(s, AudioMsg::SourceVolCommit, exe, user).0;
            let s3 = audio_step(s2, AudioMsg::Refreshed(scan), exe, user).0;
            &&& !s2.source_dragging
            &&& s3.source_vol == vol_of(named_dev(s3.sources, s3.default_source))
        }),
{
    let s2 = audio_step(s, AudioMsg::SinkVolCommit, exe, user).0;
    assert(s2 == AudioStateView { sink_dragging: false, ..s });
    let a2 = absorb(s2, scan, false);
    assert(a2.sink_vol == vol_of(named_dev(a2.sinks, a2.default_sink)));
    lemma_after_refresh_keeps_sliders(a2);
    assert(audio_step(s2, AudioMsg::Refreshed(scan), exe, user).0 == after_refresh(a2).0);
    let t2 = audio_step(s, AudioMsg::SourceVolCommit, exe, user).0;
    assert(t2 == AudioStateView { source_dragging: false, ..s });
    let b2 = absorb(t2, scan, false);
    assert(b2.source_vol == vol_of(named_dev(b2.sources, b2.default_source)));
    lemma_after_refresh_keeps_sliders(b2);
    assert(audio_step(t2, AudioMsg::Refreshed(scan), exe, user).0 == after_refresh(b2).0);
}

proof fn lemma_after_refresh_keeps_sliders(s: AudioStateView)
    ensures
        after_refresh(s).0.sink_vol == s.sink_vol,
        after_refresh(s).0.sink_dragging == s.sink_dragging,
        after_refresh(s).0.source_vol == s.source_vol,
        after_refresh(s).0.source_dragging == s.source_dragging,
        after_refresh(s).0.sinks == s.sinks,
        after_refresh(s).0.sources == s.sources,
        after_refresh(s).0.default_sink == s.default_sink,
        after_refresh(s).0.default_source == s.default_source,
{
}

/// The fixed settings are applied in full at most once: after any reading
/// the start-up step is done, and later readings never repeat it.
pub proof fn law_startup_once(s: AudioStateView)
    ensures
        after_refresh(s).0.startup_enforced,
        s.startup_enforced ==> after_refresh(s) == after_startup(s),
{
    match s.lock {
        Some(l) => {},
        None => {},
    }
}

/// Once the start-up step is done, the automatic restores never start a
/// command while another one runs.
pub proof fn law_no_restore_while_running(s: AudioStateView)
    requires
        s.startup_enforced,
        s.running is Some,
    ensures
        after_refresh(s).1 == ActionView::Idle,
{
}

/// A jack-replug restore fires once per reset: right after it, the same
/// reading does not fire it again.
pub proof fn law_restore_fires_once(s: AudioStateView)
    requires
        s.lock is Some,
        after_startup(s).1 == restore_apply(s, s.lock->0),
    ensures
        after_startup(after_startup(s).0).1 != restore_apply(after_startup(s).0, s.lock->0),
{
    reveal_strlit("핀마이크 전원 자동 복원됨");
    reveal_strlit("고정 설정 복원됨");
    let l = s.lock->0;
    let s1 = after_startup(s).0;
    let msg_v = "핀마이크 전원 자동 복원됨"@;
    let msg_r = "고정 설정 복원됨"@;
    assert(msg_v.len() != msg_r.len());
    if after_lock(s).1 == restore_apply(s, l) {
        match s.vref {
            Some(v) => { assert(msg_v != msg_r); },
            None => {},
        }
    }
    assert(s1.enforcing);
    let r1 = restore_apply(s1, l);
    match s1.vref {
        Some(v) => {
            assert(msg_v != msg_r);
        },
        None => {},
    }
}


} // verus!
