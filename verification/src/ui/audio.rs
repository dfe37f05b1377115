//! Audio: parsing `pactl` and `amixer` output, labels, the saved profile and
//! the scripts that apply settings.

use vstd::prelude::*;
use crate::runner::CmdResult;
use crate::text::{
    chars_of, chars_of_string, contains, decimal, ends_with, eq, eq_str, extend, extend_str,
    find, find_char, join, join_str, lemma_deep_view_chars, lines, lines_of, opt_view, parse_u32,
    push_decimal, push_piece, split_char, split_once, starts_with, string_of, subseq, to_string,
    trim, trim_exec, words,
};

verus! {

pub const TEST_WAV: &'static str = "/tmp/popmgr-mictest.wav";

#[derive(Debug, Clone, PartialEq)]
pub struct PortInfo {
    pub name: String,
    pub desc: String,
    /// Some(true) plugged, Some(false) not plugged, None unknown.
    pub available: Option<bool>,
}

#[derive(Debug, Clone, PartialEq)]
pub struct DeviceInfo {
    pub name: String,
    pub desc: String,
    pub ports: Vec<PortInfo>,
    pub active_port: Option<String>,
    pub volume_pct: Option<u32>,
    pub muted: bool,
}

/// The mic-bias (VREF) state of the headphone-mic pin, from the codec dump.
#[derive(Debug, Clone, PartialEq)]
pub struct VrefInfo {
    /// e.g. /dev/snd/hwC0D0
    pub hwdev: String,
    /// The Headphone Mic pin (e.g. 0x1a).
    pub nid: u32,
    /// VREF_50/80/100 (HIZ or GRD is off).
    pub bias_on: bool,
    pub vendor_id: String,
    pub subsys_id: String,
    pub codec_addr: u32,
    /// Whether the boot-time patch is installed.
    pub boot_patch: bool,
    /// Whether the password-less helper is installed.
    pub nopass: bool,
}

#[derive(Debug, Clone)]
pub struct AudioScan {
    pub sinks: Vec<DeviceInfo>,
    pub sources: Vec<DeviceInfo>,
    pub default_sink: Option<String>,
    pub default_source: Option<String>,
    /// ALSA jack detection (name, plugged), which shows a combo jack's
    /// plug even where PipeWire reports the port's availability as unknown.
    pub jacks: Vec<(String, bool)>,
    pub vref: Option<VrefInfo>,
    /// Microphone boost levels, e.g. ("Headset Mic Boost", 2) (amixer 0..3, ×10 dB).
    pub boosts: Vec<(String, u32)>,
    /// The noise-suppression (echo-cancel) module, when loaded.
    pub denoise_module: Option<String>,
}

/// The input settings kept fixed: restored when a jack replug or a reboot resets them.
#[derive(Debug, Clone, PartialEq)]
pub struct AudioLock {
    pub source: String,
    pub port: String,
    pub volume_pct: u32,
    pub boost_ctl: String,
    pub boost_val: u32,
}

/// A saved audio setup (output, input, boost, noise suppression).
#[derive(Debug, Clone, PartialEq)]
pub struct AudioProfile {
    pub saved_at: String,
    pub sink: String,
    pub sink_desc: String,
    pub sink_port: Option<String>,
    pub sink_volume_pct: u32,
    pub source: String,
    pub source_desc: String,
    pub source_port: Option<String>,
    pub source_volume_pct: u32,
    pub boost_ctl: String,
    pub boost_val: u32,
    pub denoise: bool,
}

/// An entry of a pick list: `id` is the pactl name, `label` what is shown.
#[derive(Debug, Clone, PartialEq)]
pub struct Choice {
    pub id: String,
    pub label: String,
}

impl Choice {
    /// What the pick list shows.
    pub fn to_string(&self) -> (r: String)
        ensures
            r@ == self.label@,
    {
        to_string(chars_of_string(&self.label).as_slice())
    }
}

// ---------------------------------------------------------------- labels

pub open spec fn spec_is_virtual_dev(name: Seq<char>) -> bool {
    name == "popmgr_denoise"@ || starts_with(name, "echo-cancel"@)
}

/// Whether a device is a virtual one made by noise suppression.
pub fn is_virtual_dev(name: &str) -> (r: bool)
    ensures
        r == spec_is_virtual_dev(name@),
{
    let n = chars_of(name);
    eq_str(n.as_slice(), "popmgr_denoise") || crate::text::starts_with_str(n.as_slice(), "echo-cancel")
}

pub open spec fn spec_boost_ctl_for_port(port: Seq<char>) -> Seq<char> {
    if port == "analog-input-internal-mic"@ {
        "Internal Mic Boost"@
    } else if port == "analog-input-headphone-mic"@ {
        "Headphone Mic Boost"@
    } else if port == "analog-input-headset-mic"@ {
        "Headset Mic Boost"@
    } else {
        ""@
    }
}

/// The amixer boost control of an input port.
pub fn boost_ctl_for_port(port: &str) -> (r: &'static str)
    ensures
        r@ == spec_boost_ctl_for_port(port@),
{
    let p = chars_of(port);
    if eq_str(p.as_slice(), "analog-input-internal-mic") {
        "Internal Mic Boost"
    } else if eq_str(p.as_slice(), "analog-input-headphone-mic") {
        "Headphone Mic Boost"
    } else if eq_str(p.as_slice(), "analog-input-headset-mic") {
        "Headset Mic Boost"
    } else {
        ""
    }
}

pub open spec fn spec_port_label_kr(port: Seq<char>) -> Seq<char> {
    if port == "analog-input-internal-mic"@ {
        "내부 마이크"@
    } else if port == "analog-input-headphone-mic"@ {
        "마이크 (잭)"@
    } else if port == "analog-input-headset-mic"@ {
        "헤드셋 마이크"@
    } else {
        port
    }
}

/// The Korean label of an input port (other ports as they are).
pub fn port_label_kr(port: &str) -> (r: &str)
    ensures
        r@ == spec_port_label_kr(port@),
{
    let p = chars_of(port);
    if eq_str(p.as_slice(), "analog-input-internal-mic") {
        "내부 마이크"
    } else if eq_str(p.as_slice(), "analog-input-headphone-mic") {
        "마이크 (잭)"
    } else if eq_str(p.as_slice(), "analog-input-headset-mic") {
        "헤드셋 마이크"
    } else {
        port
    }
}

pub open spec fn spec_port_label_any(port: Seq<char>) -> Seq<char> {
    if port == "analog-output-speaker"@ {
        "스피커"@
    } else if port == "analog-output-headphones"@ || port == "analog-output-headphone"@ {
        "헤드폰"@
    } else {
        spec_port_label_kr(port)
    }
}

/// The Korean label of any port, outputs included.
pub fn port_label_any(port: &str) -> (r: String)
    ensures
        r@ == spec_port_label_any(port@),
{
    let p = chars_of(port);
    if eq_str(p.as_slice(), "analog-output-speaker") {
        string_of(chars_of("스피커"))
    } else if eq_str(p.as_slice(), "analog-output-headphones") || eq_str(p.as_slice(), "analog-output-headphone") {
        string_of(chars_of("헤드폰"))
    } else {
        string_of(chars_of(port_label_kr(port)))
    }
}

/// `s` without its trailing repetitions of `suffix`.
pub open spec fn strip_suffixes(s: Seq<char>, suffix: Seq<char>) -> Seq<char>
    decreases s.len(),
{
    if suffix.len() > 0 && ends_with(s, suffix) {
        strip_suffixes(s.take(s.len() - suffix.len()), suffix)
    } else {
        s
    }
}

pub fn strip_suffixes_exec(s: &[char], suffix: &str) -> (r: Vec<char>)
    requires
        suffix@.len() > 0,
    ensures
        r@ == strip_suffixes(s@, suffix@),
{
    let mut cur = subseq(s, 0, s.len());
    assert(cur@ =~= s@);
    while crate::text::ends_with_str(cur.as_slice(), suffix)
        invariant
            suffix@.len() > 0,
            strip_suffixes(cur@, suffix@) == strip_suffixes(s@, suffix@),
        decreases cur@.len(),
    {
        let n = suffix.unicode_len();
        let next = subseq(cur.as_slice(), 0, cur.len() - n);
        assert(next@ =~= cur@.take(cur@.len() - suffix@.len()));
        cur = next;
    }
    cur
}

pub open spec fn spec_jack_label(name: Seq<char>) -> Seq<char> {
    if name == "Headphone Mic Jack"@ {
        "콤보 잭 (헤드폰/마이크)"@
    } else if name == "Headphone Jack"@ {
        "헤드폰 잭"@
    } else if name == "Headset Mic Jack"@ {
        "헤드셋 마이크 잭"@
    } else if name == "Mic Jack"@ {
        "마이크 잭"@
    } else if name == "Line Out Jack"@ {
        "라인 출력 잭"@
    } else if name == "Line Jack"@ {
        "라인 입력 잭"@
    } else {
        strip_suffixes(name, " Jack"@)
    }
}

/// The Korean label of an ALSA jack.
pub fn jack_label(name: &str) -> (r: String)
    ensures
        r@ == spec_jack_label(name@),
{
    proof { reveal_strlit(" Jack"); }
    let n = chars_of(name);
    let l: &str = if eq_str(n.as_slice(), "Headphone Mic Jack") {
        "콤보 잭 (헤드폰/마이크)"
    } else if eq_str(n.as_slice(), "Headphone Jack") {
        "헤드폰 잭"
    } else if eq_str(n.as_slice(), "Headset Mic Jack") {
        "헤드셋 마이크 잭"
    } else if eq_str(n.as_slice(), "Mic Jack") {
        "마이크 잭"
    } else if eq_str(n.as_slice(), "Line Out Jack") {
        "라인 출력 잭"
    } else if eq_str(n.as_slice(), "Line Jack") {
        "라인 입력 잭"
    } else {
        return string_of(strip_suffixes_exec(n.as_slice(), " Jack"));
    };
    string_of(chars_of(l))
}

pub open spec fn display_name(name: Seq<char>, desc: Seq<char>) -> Seq<char> {
    if desc.len() == 0 { name } else { trim(desc) }
}

pub open spec fn spec_dev_brief(d: DeviceInfo) -> Seq<char> {
    display_name(d.name@, d.desc@)
        + (match d.active_port { Some(p) => " ["@ + spec_port_label_kr(p@) + "]"@, None => seq![] })
        + (match d.volume_pct { Some(v) => " vol "@ + decimal(v as nat) + "%"@, None => seq![] })
        + (if d.muted { " (음소거)"@ } else { seq![] })
}

/// One line about a device: `내장 오디오 [내부 마이크] vol 30% (음소거)`.
pub fn dev_brief(d: &DeviceInfo) -> (r: String)
    ensures
        r@ == spec_dev_brief(*d),
{
    let desc = chars_of_string(&d.desc);
    let mut o = if desc.len() == 0 { chars_of_string(&d.name) } else { trim_exec(desc.as_slice()) };
    match &d.active_port {
        Some(p) => {
            extend_str(&mut o, " [");
            extend_str(&mut o, port_label_kr(p.as_str()));
            extend_str(&mut o, "]");
        },
        None => {},
    }
    match d.volume_pct {
        Some(v) => {
            extend_str(&mut o, " vol ");
            push_decimal(&mut o, v as u64);
            extend_str(&mut o, "%");
        },
        None => {},
    }
    if d.muted {
        extend_str(&mut o, " (음소거)");
    }
    string_of(o)
}

pub open spec fn choice_view(c: Choice) -> (Seq<char>, Seq<char>) {
    (c.id@, c.label@)
}

pub open spec fn spec_device_choice(d: DeviceInfo) -> (Seq<char>, Seq<char>) {
    (d.name@, if d.desc@.len() == 0 { d.name@ } else { d.desc@ })
}

pub fn device_choice(d: &DeviceInfo) -> (r: Choice)
    ensures
        choice_view(r) == spec_device_choice(*d),
{
    let desc = chars_of_string(&d.desc);
    let label = if desc.len() == 0 { chars_of_string(&d.name) } else { desc };
    Choice { id: to_string(chars_of_string(&d.name).as_slice()), label: string_of(label) }
}

pub open spec fn spec_test_choice(d: DeviceInfo, p: Option<PortInfo>) -> (Seq<char>, Seq<char>) {
    let dev_label = if d.desc@.len() == 0 { d.name@ } else { d.desc@ };
    match p {
        Some(p) => (d.name@ + "\t"@ + p.name@, (if p.desc@.len() == 0 { p.name@ } else { p.desc@ }) + " — "@ + dev_label),
        None => (d.name@ + "\t"@, dev_label),
    }
}

/// A recording target: a device and one of its ports (`id` is `device\tport`).
pub fn test_choice(d: &DeviceInfo, p: Option<&PortInfo>) -> (r: Choice)
    ensures
        choice_view(r) == spec_test_choice(*d, match p { Some(x) => Some(*x), None => None }),
{
    let desc = chars_of_string(&d.desc);
    let dev_label = if desc.len() == 0 { chars_of_string(&d.name) } else { desc };
    let mut id = chars_of_string(&d.name);
    extend_str(&mut id, "\t");
    match p {
        Some(p) => {
            extend(&mut id, chars_of_string(&p.name).as_slice());
            let pd = chars_of_string(&p.desc);
            let mut label = if pd.len() == 0 { chars_of_string(&p.name) } else { pd };
            extend_str(&mut label, " — ");
            extend(&mut label, dev_label.as_slice());
            Choice { id: string_of(id), label: string_of(label) }
        },
        None => Choice { id: string_of(id), label: string_of(dev_label) },
    }
}

pub open spec fn spec_port_choice(p: PortInfo) -> (Seq<char>, Seq<char>) {
    (p.name@, (if p.desc@.len() == 0 { p.name@ } else { p.desc@ })
        + (if p.available == Some(false) { " (연결 안 됨)"@ } else { seq![] }))
}

pub fn port_choice(p: &PortInfo) -> (r: Choice)
    ensures
        choice_view(r) == spec_port_choice(*p),
{
    let pd = chars_of_string(&p.desc);
    let mut label = if pd.len() == 0 { chars_of_string(&p.name) } else { pd };
    if p.available == Some(false) {
        extend_str(&mut label, " (연결 안 됨)");
    }
    Choice { id: to_string(chars_of_string(&p.name).as_slice()), label: string_of(label) }
}

// ---------------------------------------------------------------- the saved profile

pub open spec fn port_suffix(port: Option<String>) -> Seq<char> {
    match port {
        Some(x) => " ("@ + spec_port_label_any(x@) + ")"@,
        None => seq![],
    }
}

pub open spec fn spec_profile_summary(p: AudioProfile) -> Seq<char> {
    let sname = if p.sink_desc@.len() == 0 { p.sink@ } else { trim(p.sink_desc@) };
    let rname = if p.source_desc@.len() == 0 { p.source@ } else { trim(p.source_desc@) };
    let sport = port_suffix(p.sink_port);
    let rport = port_suffix(p.source_port);
    "출력: "@ + sname + sport + " "@ + decimal(p.sink_volume_pct as nat) + "%\n입력: "@ + rname + rport + " "@ + decimal(p.source_volume_pct as nat) + "% · 부스트 +"@ + decimal(p.boost_val as nat * 10) + "dB · 노이즈억제 "@ + (if p.denoise { "켜짐"@ } else { "꺼짐"@ })
}

fn port_suffix_exec(port: &Option<String>) -> (r: Vec<char>)
    ensures
        r@ == port_suffix(*port),
{
    match port {
        Some(x) => {
            let mut o = chars_of(" (");
            extend(&mut o, chars_of_string(&port_label_any(x.as_str())).as_slice());
            extend_str(&mut o, ")");
            o
        },
        None => Vec::new(),
    }
}

/// Two lines about a saved profile: output and input, volumes, boost, noise suppression.
pub fn profile_summary(p: &AudioProfile) -> (r: String)
    ensures
        r@ == spec_profile_summary(*p),
{
    let sd = chars_of_string(&p.sink_desc);
    let sname = if sd.len() == 0 { chars_of_string(&p.sink) } else { trim_exec(sd.as_slice()) };
    let rd = chars_of_string(&p.source_desc);
    let rname = if rd.len() == 0 { chars_of_string(&p.source) } else { trim_exec(rd.as_slice()) };
    let sport = port_suffix_exec(&p.sink_port);
    let rport = port_suffix_exec(&p.source_port);
    let mut o: Vec<char> = Vec::new();
    extend_str(&mut o, "출력: ");
    extend(&mut o, sname.as_slice());
    extend(&mut o, sport.as_slice());
    extend_str(&mut o, " ");
    push_decimal(&mut o, p.sink_volume_pct as u64);
    extend_str(&mut o, "%\n입력: ");
    extend(&mut o, rname.as_slice());
    extend(&mut o, rport.as_slice());
    extend_str(&mut o, " ");
    push_decimal(&mut o, p.source_volume_pct as u64);
    extend_str(&mut o, "% · 부스트 +");
    push_decimal(&mut o, p.boost_val as u64 * 10);
    extend_str(&mut o, "dB · 노이즈억제 ");
    extend_str(&mut o, if p.denoise { "켜짐" } else { "꺼짐" });
    string_of(o)
}

pub open spec fn spec_load_script(p: AudioProfile) -> Seq<char> {
    let sink_port = match p.sink_port {
        Some(pt) => "pactl set-sink-port '"@ + p.sink@ + "' '"@ + pt@ + "'; "@,
        None => seq![],
    };
    let src_port = match p.source_port {
        Some(pt) => "pactl set-source-port '"@ + p.source@ + "' '"@ + pt@ + "'; "@,
        None => seq![],
    };
    let boost = if p.boost_ctl@.len() == 0 {
        seq![]
    } else {
        "amixer -c0 sset '"@ + p.boost_ctl@ + "' "@ + decimal(p.boost_val as nat) + " >/dev/null; "@
    };
    "pactl set-default-sink '"@ + p.sink@ + "'; \
         pactl list short sink-inputs | cut -f1 | while read -r i; do pactl move-sink-input \"$i\" '"@ + p.sink@ + "' 2>/dev/null||true; done; \
         "@ + sink_port + "pactl set-sink-volume '"@ + p.sink@ + "' "@ + decimal(p.sink_volume_pct as nat) + "%; \
         "@ + src_port + "pactl set-source-volume '"@ + p.source@ + "' "@ + decimal(p.source_volume_pct as nat) + "%; "@ + boost + "\
         WANT="@ + (if p.denoise { "1"@ } else { "0"@ }) + "; CUR=$(pactl list short modules | awk '/module-echo-cancel/{print $1; exit}'); \
         if [ \"$WANT\" = 1 ]; then \
           if [ -z \"$CUR\" ]; then \
             pactl set-default-source '"@ + p.source@ + "'; \
             pactl load-module module-echo-cancel 'source_name=popmgr_denoise aec_method=webrtc aec_args=\"analog_gain_control=0 digital_gain_control=1 noise_suppression=1\"' >/dev/null; sleep 0.3; \
           fi; \
           pactl set-default-source popmgr_denoise; \
           pactl list short source-outputs | cut -f1 | while read -r i; do pactl move-source-output \"$i\" popmgr_denoise 2>/dev/null||true; done; \
         else \
           if [ -n \"$CUR\" ]; then pactl unload-module $CUR; sleep 0.3; fi; \
           pactl set-default-source '"@ + p.source@ + "'; \
           pactl list short source-outputs | cut -f1 | while read -r i; do pactl move-source-output \"$i\" '"@ + p.source@ + "' 2>/dev/null||true; done; \
         fi; \
         echo '오디오 설정 불러옴 (저장 "@ + p.saved_at@ + ")'"@
}

/// Applies a saved profile in one go: output and its streams, ports,
/// volumes, boost, and noise suppression switched to the saved state.
pub fn build_load_script(p: &AudioProfile) -> (r: String)
    ensures
        r@ == spec_load_script(*p),
{
    let sink = chars_of_string(&p.sink);
    let src = chars_of_string(&p.source);
    let sink_port: Vec<char> = match &p.sink_port {
        Some(pt) => {
            let mut o = chars_of("pactl set-sink-port '");
            extend(&mut o, sink.as_slice());
            extend_str(&mut o, "' '");
            extend(&mut o, chars_of_string(pt).as_slice());
            extend_str(&mut o, "'; ");
            o
        },
        None => Vec::new(),
    };
    let src_port: Vec<char> = match &p.source_port {
        Some(pt) => {
            let mut o = chars_of("pactl set-source-port '");
            extend(&mut o, src.as_slice());
            extend_str(&mut o, "' '");
            extend(&mut o, chars_of_string(pt).as_slice());
            extend_str(&mut o, "'; ");
            o
        },
        None => Vec::new(),
    };
    let bc = chars_of_string(&p.boost_ctl);
    let boost: Vec<char> = if bc.len() == 0 {
        Vec::new()
    } else {
        let mut o = chars_of("amixer -c0 sset '");
        extend(&mut o, bc.as_slice());
        extend_str(&mut o, "' ");
        push_decimal(&mut o, p.boost_val as u64);
        extend_str(&mut o, " >/dev/null; ");
        o
    };
    let mut o: Vec<char> = Vec::new();
    extend_str(&mut o, "pactl set-default-sink '");
    extend(&mut o, sink.as_slice());
    extend_str(&mut o, "'; \
         pactl list short sink-inputs | cut -f1 | while read -r i; do pactl move-sink-input \"$i\" '");
    extend(&mut o, sink.as_slice());
    extend_str(&mut o, "' 2>/dev/null||true; done; \
         ");
    extend(&mut o, sink_port.as_slice());
    extend_str(&mut o, "pactl set-sink-volume '");
    extend(&mut o, sink.as_slice());
    extend_str(&mut o, "' ");
    push_decimal(&mut o, p.sink_volume_pct as u64);
    extend_str(&mut o, "%; \
         ");
    extend(&mut o, src_port.as_slice());
    extend_str(&mut o, "pactl set-source-volume '");
    extend(&mut o, src.as_slice());
    extend_str(&mut o, "' ");
    push_decimal(&mut o, p.source_volume_pct as u64);
    extend_str(&mut o, "%; ");
    extend(&mut o, boost.as_slice());
    extend_str(&mut o, "\
         WANT=");
    extend_str(&mut o, if p.denoise { "1" } else { "0" });
    extend_str(&mut o, "; CUR=$(pactl list short modules | awk '/module-echo-cancel/{print $1; exit}'); \
         if [ \"$WANT\" = 1 ]; then \
           if [ -z \"$CUR\" ]; then \
             pactl set-default-source '");
    extend(&mut o, src.as_slice());
    extend_str(&mut o, "'; \
             pactl load-module module-echo-cancel 'source_name=popmgr_denoise aec_method=webrtc aec_args=\"analog_gain_control=0 digital_gain_control=1 noise_suppression=1\"' >/dev/null; sleep 0.3; \
           fi; \
           pactl set-default-source popmgr_denoise; \
           pactl list short source-outputs | cut -f1 | while read -r i; do pactl move-source-output \"$i\" popmgr_denoise 2>/dev/null||true; done; \
         else \
           if [ -n \"$CUR\" ]; then pactl unload-module $CUR; sleep 0.3; fi; \
           pactl set-default-source '");
    extend(&mut o, src.as_slice());
    extend_str(&mut o, "'; \
           pactl list short source-outputs | cut -f1 | while read -r i; do pactl move-source-output \"$i\" '");
    extend(&mut o, src.as_slice());
    extend_str(&mut o, "' 2>/dev/null||true; done; \
         fi; \
         echo '오디오 설정 불러옴 (저장 ");
    extend(&mut o, chars_of_string(&p.saved_at).as_slice());
    extend_str(&mut o, ")'");
    string_of(o)
}

} // verus!
