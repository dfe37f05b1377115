//! Displays: brightness and contrast of the internal panel (logind) and of
//! external monitors (DDC/CI through ddcutil), the one-time i2c permission
//! setup, and mapping a touchscreen to an output.

use vstd::prelude::*;
use crate::runner::CmdResult;
use crate::text::{
    chars_of, chars_of_string, contains, decimal, eq, eq_str, extend, extend_str, find, find_char,
    join, join_str, lemma_deep_view_chars, lines, lines_of, opt_view, parse_u32, push_decimal,
    push_piece, replace, split_char, starts_with, string_of, subseq, to_string, trim, trim_exec,
    trim_matches_char, trim_start, unicode_lower, words,
};

verus! {

/// The kind of monitor: the internal panel goes through logind and sysfs,
/// an external one through DDC/CI.
#[derive(Debug, Clone, PartialEq)]
pub enum Kind {
    /// The sysfs backlight directory, e.g. intel_backlight.
    Internal { backlight: String },
    /// ddcutil's display number (`-d N`).
    External { display: u32 },
}

#[derive(Debug, Clone, Copy, PartialEq, Eq, Structural)]
pub struct OutputGeometry {
    pub x: i32,
    pub y: i32,
    pub w: u32,
    pub h: u32,
}

#[derive(Debug, Clone, PartialEq)]
pub struct Monitor {
    pub kind: Kind,
    /// A readable name (the model and the like).
    pub name: String,
    /// The DRM connector (eDP-1, DP-1, ...).
    pub connector: String,
    /// The brightness 0..100 the slider shows.
    pub pct: u32,
    /// The raw brightness maximum (max_brightness or the VCP maximum).
    pub raw_max: u32,
    /// An external monitor's contrast 0..100, where supported.
    pub contrast: Option<u32>,
    pub contrast_max: u32,
    pub controls_brightness: bool,
    pub geometry: Option<OutputGeometry>,
}

#[derive(Debug, Clone, PartialEq)]
pub struct TouchDevice {
    pub name: String,
    pub event: String,
    pub phys: String,
    pub external: bool,
}

/// The brightness of the low-power button.
pub const LOW_POWER_PCT: u32 = 10;
/// The brightness of the default button.
pub const DEFAULT_PCT: u32 = 50;

/// Why external monitors cannot be controlled.
#[derive(Debug, Clone, Copy, PartialEq, Eq, Structural)]
pub enum SetupReason {
    NoDdcutil,
    /// No access to /dev/i2c-* (group, udev rule or module missing).
    Permission,
}

// ---------------------------------------------------------------- quoting

pub open spec fn spec_sh_quote(s: Seq<char>) -> Seq<char> {
    "'"@ + replace(s, "'"@, "'\"'\"'"@) + "'"@
}

fn sh_quote_chars(s: &[char]) -> (r: Vec<char>)
    ensures
        r@ == spec_sh_quote(s@),
{
    proof { reveal_strlit("'"); }
    let mut o = chars_of("'");
    extend(&mut o, crate::text::replace_str(s, "'", "'\"'\"'").as_slice());
    extend_str(&mut o, "'");
    o
}

/// `s` as one single-quoted shell word (a quote becomes `'"'"'`).
pub fn sh_quote(s: &str) -> (r: String)
    ensures
        r@ == spec_sh_quote(s@),
{
    string_of(sh_quote_chars(chars_of(s).as_slice()))
}

pub open spec fn spec_udev_escape(s: Seq<char>) -> Seq<char> {
    replace(replace(s, "\\"@, "\\\\"@), "\""@, "\\\""@)
}

fn udev_escape_chars(s: &[char]) -> (r: Vec<char>)
    ensures
        r@ == spec_udev_escape(s@),
{
    proof { reveal_strlit("\\"); reveal_strlit("\""); }
    let a = crate::text::replace_str(s, "\\", "\\\\");
    crate::text::replace_str(a.as_slice(), "\"", "\\\"")
}

/// `s` for a double-quoted udev value (backslashes and quotes escaped).
pub fn udev_escape(s: &str) -> (r: String)
    ensures
        r@ == spec_udev_escape(s@),
{
    string_of(udev_escape_chars(chars_of(s).as_slice()))
}

// ---------------------------------------------------------------- scripts

pub open spec fn spec_reprobe_script() -> Seq<char> {
    "pkexec bash -c \"modprobe i2c-dev; udevadm trigger --subsystem-match=i2c-dev; udevadm trigger; echo 'i2c 모듈 재로드 및 장치 재인식 완료'\""@
}

/// Reloads i2c-dev and triggers udev so that the monitors' i2c devices are found again.
pub fn reprobe_script() -> (r: String)
    ensures
        r@ == spec_reprobe_script(),
{
    string_of(chars_of("pkexec bash -c \"modprobe i2c-dev; udevadm trigger --subsystem-match=i2c-dev; udevadm trigger; echo 'i2c 모듈 재로드 및 장치 재인식 완료'\""))
}

pub open spec fn spec_internal_brightness(backlight: Seq<char>, raw: nat, pct: nat) -> Seq<char> {
    "busctl call org.freedesktop.login1 /org/freedesktop/login1/session/auto \
                 org.freedesktop.login1.Session SetBrightness ssu backlight "@ + backlight + " "@ + decimal(raw) + " \
                 && echo '내장 밝기 "@ + decimal(pct) + "% 적용'"@
}

/// The raw value of an internal panel's brightness, at least 1 so that the
/// screen never goes fully dark.
pub open spec fn internal_raw(pct: u32, raw_max: u32) -> nat {
    let v = (pct as nat * raw_max as nat) / 100;
    if v < 1 { 1 } else { v }
}

pub open spec fn spec_brightness_script(mon: Monitor) -> Seq<char> {
    match mon.kind {
        Kind::Internal { backlight } => spec_internal_brightness(backlight@, internal_raw(mon.pct, mon.raw_max), mon.pct as nat),
        Kind::External { display } => "ddcutil -d "@ + decimal(display as nat) + " setvcp 10 "@
            + decimal((mon.pct as nat * mon.raw_max as nat) / 100) + " && echo '외부("@ + mon.connector@ + ") 밝기 "@
            + decimal(mon.pct as nat) + "% 적용'"@,
    }
}

/// Applies a monitor's brightness: logind for the internal panel, ddcutil
/// for an external monitor.
pub fn brightness_script(mon: &Monitor) -> (r: String)
    ensures
        r@ == spec_brightness_script(*mon),
{
    let mut o: Vec<char> = Vec::new();
    assert(mon.pct as u64 * mon.raw_max as u64 <= u64::MAX) by (nonlinear_arith)
        requires mon.pct <= u32::MAX, mon.raw_max <= u32::MAX;
    let prod: u64 = mon.pct as u64 * mon.raw_max as u64;
    match &mon.kind {
        Kind::Internal { backlight } => {
            let v = prod / 100;
            let raw: u64 = if v < 1 { 1 } else { v };
            let backlight = chars_of_string(backlight);
            let backlight = backlight.as_slice();
            let pct = mon.pct as u64;
            extend_str(&mut o, "busctl call org.freedesktop.login1 /org/freedesktop/login1/session/auto \
                 org.freedesktop.login1.Session SetBrightness ssu backlight ");
    extend(&mut o, backlight);
    extend_str(&mut o, " ");
    push_decimal(&mut o, raw);
    extend_str(&mut o, " \
                 && echo '내장 밝기 ");
    push_decimal(&mut o, pct);
    extend_str(&mut o, "% 적용'");
        },
        Kind::External { display } => {
            extend_str(&mut o, "ddcutil -d ");
            push_decimal(&mut o, *display as u64);
            extend_str(&mut o, " setvcp 10 ");
            push_decimal(&mut o, prod / 100);
            extend_str(&mut o, " && echo '외부(");
            extend(&mut o, chars_of_string(&mon.connector).as_slice());
            extend_str(&mut o, ") 밝기 ");
            push_decimal(&mut o, mon.pct as u64);
            extend_str(&mut o, "% 적용'");
        },
    }
    string_of(o)
}

pub open spec fn brightness_scripts(ms: Seq<Monitor>) -> Seq<Seq<char>> {
    ms.map_values(|m: Monitor| spec_brightness_script(m))
}

pub open spec fn spec_preset_script(ms: Seq<Monitor>) -> Seq<char> {
    join(brightness_scripts(ms), " ; "@)
}

/// Applies every monitor's brightness at once.
pub fn preset_script(monitors: &Vec<Monitor>) -> (r: String)
    ensures
        r@ == spec_preset_script(monitors@),
{
    let mut parts: Vec<Vec<char>> = Vec::new();
    let mut i: usize = 0;
    while i < monitors.len()
        invariant
            i <= monitors.len(),
            parts.deep_view() == brightness_scripts(monitors@.take(i as int)),
        decreases monitors.len() - i,
    {
        let b = brightness_script(&monitors[i]);
        push_piece(&mut parts, chars_of_string(&b));
        assert(brightness_scripts(monitors@.take(i + 1)) =~= brightness_scripts(monitors@.take(i as int)).push(b@));
        i += 1;
    }
    assert(monitors@.take(monitors.len() as int) =~= monitors@);
    string_of(join_str(&parts, " ; "))
}

pub open spec fn spec_contrast_script(mon: Monitor) -> Option<Seq<char>> {
    match mon.kind {
        Kind::Internal { .. } => None,
        Kind::External { display } => match mon.contrast {
            None => None,
            Some(c) => Some("ddcutil -d "@ + decimal(display as nat) + " setvcp 12 "@
                + decimal((c as nat * (if mon.contrast_max < 1 { 1 } else { mon.contrast_max as nat })) / 100)
                + " && echo '외부("@ + mon.connector@ + ") 명암 "@ + decimal(c as nat) + "% 적용'"@),
        },
    }
}

/// Applies an external monitor's contrast.
pub fn contrast_script(mon: &Monitor) -> (r: Option<String>)
    ensures
        opt_view(r) == spec_contrast_script(*mon),
{
    let display = match &mon.kind {
        Kind::Internal { .. } => { return None; },
        Kind::External { display } => *display,
    };
    let c = match mon.contrast {
        None => { return None; },
        Some(c) => c,
    };
    let cmax: u64 = if mon.contrast_max < 1 { 1 } else { mon.contrast_max as u64 };
    let mut o = chars_of("ddcutil -d ");
    push_decimal(&mut o, display as u64);
    extend_str(&mut o, " setvcp 12 ");
    assert(c as u64 * cmax <= u64::MAX) by (nonlinear_arith)
        requires c <= u32::MAX, cmax <= u32::MAX;
    push_decimal(&mut o, (c as u64 * cmax) / 100);
    extend_str(&mut o, " && echo '외부(");
    extend(&mut o, chars_of_string(&mon.connector).as_slice());
    extend_str(&mut o, ") 명암 ");
    push_decimal(&mut o, c as u64);
    extend_str(&mut o, "% 적용'");
    Some(string_of(o))
}

pub open spec fn spec_setup_inner(user: Seq<char>) -> Seq<char> {
    "set -e; \
         modprobe i2c-dev || true; \
         echo i2c-dev > /etc/modules-load.d/i2c-dev.conf; \
         getent group i2c >/dev/null || groupadd i2c; \
         printf 'KERNEL==\\\"i2c-[0-9]*\\\", GROUP=\\\"i2c\\\", MODE=\\\"0660\\\"\\n' > /etc/udev/rules.d/60-ddcutil-i2c.rules; \
         udevadm control --reload-rules; \
         udevadm trigger; \
         usermod -aG i2c '"@ + user + "'; \
         echo '권한 설정 완료 — 로그아웃 후 재로그인하면 외부 모니터 밝기 조절이 활성화됩니다.'"@
}

pub open spec fn spec_setup_script(user: Seq<char>) -> Seq<char> {
    "pkexec bash -c \""@ + replace(spec_setup_inner(user), "\""@, "\\\""@) + "\""@
}

/// The one-time setup, as root, that gives `user` access to the monitors'
/// i2c devices.
pub fn setup_script(user: &str) -> (r: String)
    ensures
        r@ == spec_setup_script(user@),
{
    let user = chars_of(user);
    let user = user.as_slice();
    let mut o: Vec<char> = Vec::new();
    extend_str(&mut o, "set -e; \
         modprobe i2c-dev || true; \
         echo i2c-dev > /etc/modules-load.d/i2c-dev.conf; \
         getent group i2c >/dev/null || groupadd i2c; \
         printf 'KERNEL==\\\"i2c-[0-9]*\\\", GROUP=\\\"i2c\\\", MODE=\\\"0660\\\"\\n' > /etc/udev/rules.d/60-ddcutil-i2c.rules; \
         udevadm control --reload-rules; \
         udevadm trigger; \
         usermod -aG i2c '");
    extend(&mut o, user);
    extend_str(&mut o, "'; \
         echo '권한 설정 완료 — 로그아웃 후 재로그인하면 외부 모니터 밝기 조절이 활성화됩니다.'");
    proof { reveal_strlit("\""); }
    let mut out = chars_of("pkexec bash -c \"");
    extend(&mut out, crate::text::replace_str(o.as_slice(), "\"", "\\\"").as_slice());
    extend_str(&mut out, "\"");
    string_of(out)
}

pub const TOUCH_RULE_COMMENT: &'static str = "# popmgr: map external touchscreen to selected output";

pub open spec fn spec_touch_rule(udev_name: Seq<char>, matrix: Seq<char>) -> Seq<char> {
    "ACTION==\"add|change\", SUBSYSTEM==\"input\", KERNEL==\"event*\", ATTRS{name}==\""@ + udev_name + "\", ENV{ID_INPUT_TOUCHSCREEN}==\"1\", ENV{LIBINPUT_CALIBRATION_MATRIX}=\""@ + spec_udev_escape(matrix) + "\""@
}

pub open spec fn spec_touch_inner(rule: Seq<char>, event: Seq<char>) -> Seq<char> {
    "printf '%s\\n' "@ + spec_sh_quote(TOUCH_RULE_COMMENT@) + " "@ + spec_sh_quote(rule) + " > /etc/udev/rules.d/99-popmgr-touchscreen-map.rules; udevadm control --reload-rules; udevadm trigger --subsystem-match=input --action=change; devpath=$(readlink -f /sys/class/input/"@ + event + "/device); usbdev=$devpath; while [ \"$usbdev\" != \"/\" ] && [ ! -e \"$usbdev/authorized\" ]; do usbdev=$(dirname \"$usbdev\"); done; if [ -w \"$usbdev/authorized\" ]; then printf '0' > \"$usbdev/authorized\"; sleep 1; printf '1' > \"$usbdev/authorized\"; fi"@
}

pub open spec fn spec_touch_wayland(inner: Seq<char>, matrix: Seq<char>) -> Seq<char> {
    "if [ \"${XDG_SESSION_TYPE:-}\" = wayland ]; then \
                 if command -v pkexec >/dev/null 2>&1; then \
                     pkexec bash -c "@ + spec_sh_quote(inner) + "; \
                     echo \"Wayland 보정 행렬 규칙 적용: $dev -> $out ("@ + matrix + "). USB 장치를 재시작해 다시 읽게 했습니다 — COSMIC이 터치를 가상 화면 전체 좌표로 처리하는 경우에만 $out 영역으로 좁혀집니다. 안 되면 여전히 컴포지터의 공식 지원이 없다는 뜻입니다.\"; \
                     exit 0; \
                 fi; \
             fi; "@
}

pub open spec fn spec_touch_outer(dev: Seq<char>, out: Seq<char>, wayland: Seq<char>) -> Seq<char> {
    "set -u; \
         dev="@ + dev + "; out="@ + out + "; mapped=0; \
         if command -v xinput >/dev/null 2>&1 && command -v xrandr >/dev/null 2>&1 && xrandr --query >/dev/null 2>&1; then \
             xinput map-to-output \"$dev\" \"$out\" && mapped=1 && echo \"XInput 터치 매핑 적용: $dev -> $out\"; \
         fi; \
         if command -v cosmic-randr >/dev/null 2>&1; then \
             cosmic-randr xwayland --primary \"$out\" >/dev/null 2>&1 || true; \
         fi; \
         if [ \"$mapped\" = 1 ]; then \
             exit 0; \
         fi; \
         "@ + wayland + " \
         if [ \"${XDG_SESSION_TYPE:-}\" = wayland ]; then \
             echo \"현재 COSMIC Wayland 세션입니다. 출력 geometry를 읽지 못해 터치 보정 규칙을 만들 수 없습니다. 새로고침 후 다시 시도하세요. 감지된 장치: $dev, 대상 출력: $out\"; \
         else \
             echo \"xinput/xrandr로 터치 매핑을 적용하지 못했습니다. xinput 패키지와 DISPLAY 접근 상태를 확인하세요. 장치: $dev, 출력: $out\"; \
         fi; \
         exit 1"@
}

pub open spec fn spec_map_touch_script(name: Seq<char>, event: Seq<char>, connector: Seq<char>, matrix: Option<Seq<char>>) -> Seq<char> {
    let wayland = match matrix {
        Some(m) => spec_touch_wayland(spec_touch_inner(spec_touch_rule(spec_udev_escape(name), m), event), m),
        None => seq![],
    };
    spec_touch_outer(spec_sh_quote(name), spec_sh_quote(connector), wayland)
}

fn touch_rule(udev_name: &[char], matrix: &[char]) -> (r: Vec<char>)
    ensures
        r@ == spec_touch_rule(udev_name@, matrix@),
{
    let mut o: Vec<char> = Vec::new();
    extend_str(&mut o, "ACTION==\"add|change\", SUBSYSTEM==\"input\", KERNEL==\"event*\", ATTRS{name}==\"");
    extend(&mut o, udev_name);
    extend_str(&mut o, "\", ENV{ID_INPUT_TOUCHSCREEN}==\"1\", ENV{LIBINPUT_CALIBRATION_MATRIX}=\"");
    extend(&mut o, udev_escape_chars(matrix).as_slice());
    extend_str(&mut o, "\"");
    o
}

fn touch_inner(rule: &[char], event: &[char]) -> (r: Vec<char>)
    ensures
        r@ == spec_touch_inner(rule@, event@),
{
    let mut o: Vec<char> = Vec::new();
    extend_str(&mut o, "printf '%s\\n' ");
    extend(&mut o, sh_quote_chars(chars_of(TOUCH_RULE_COMMENT).as_slice()).as_slice());
    extend_str(&mut o, " ");
    extend(&mut o, sh_quote_chars(rule).as_slice());
    extend_str(&mut o, " > /etc/udev/rules.d/99-popmgr-touchscreen-map.rules; udevadm control --reload-rules; udevadm trigger --subsystem-match=input --action=change; devpath=$(readlink -f /sys/class/input/");
    extend(&mut o, event);
    extend_str(&mut o, "/device); usbdev=$devpath; while [ \"$usbdev\" != \"/\" ] && [ ! -e \"$usbdev/authorized\" ]; do usbdev=$(dirname \"$usbdev\"); done; if [ -w \"$usbdev/authorized\" ]; then printf '0' > \"$usbdev/authorized\"; sleep 1; printf '1' > \"$usbdev/authorized\"; fi");
    o
}

fn touch_wayland(inner: &[char], matrix: &[char]) -> (r: Vec<char>)
    ensures
        r@ == spec_touch_wayland(inner@, matrix@),
{
    let mut o: Vec<char> = Vec::new();
    extend_str(&mut o, "if [ \"${XDG_SESSION_TYPE:-}\" = wayland ]; then \
                 if command -v pkexec >/dev/null 2>&1; then \
                     pkexec bash -c ");
    extend(&mut o, sh_quote_chars(inner).as_slice());
    extend_str(&mut o, "; \
                     echo \"Wayland 보정 행렬 규칙 적용: $dev -> $out (");
    extend(&mut o, matrix);
    extend_str(&mut o, "). USB 장치를 재시작해 다시 읽게 했습니다 — COSMIC이 터치를 가상 화면 전체 좌표로 처리하는 경우에만 $out 영역으로 좁혀집니다. 안 되면 여전히 컴포지터의 공식 지원이 없다는 뜻입니다.\"; \
                     exit 0; \
                 fi; \
             fi; ");
    o
}

/// Maps a touchscreen to an output: through XInput where X is reachable,
/// else (on Wayland, with the output's calibration `matrix` text) through a
/// libinput calibration rule installed as root.
pub fn map_touch_script(touch: &TouchDevice, mon: &Monitor, matrix: Option<&str>) -> (r: String)
    ensures
        r@ == spec_map_touch_script(touch.name@, touch.event@, mon.connector@,
            match matrix { Some(m) => Some(m@), None => None }),
{
    let name = chars_of_string(&touch.name);
    let dev = sh_quote_chars(name.as_slice());
    let out = sh_quote_chars(chars_of_string(&mon.connector).as_slice());
    let wayland: Vec<char> = match matrix {
        Some(m) => {
            let mc = chars_of(m);
            let rule = touch_rule(udev_escape_chars(name.as_slice()).as_slice(), mc.as_slice());
            let inner = touch_inner(rule.as_slice(), chars_of_string(&touch.event).as_slice());
            touch_wayland(inner.as_slice(), mc.as_slice())
        },
        None => Vec::new(),
    };
    let dev = dev.as_slice();
    let out = out.as_slice();
    let wayland = wayland.as_slice();
    let mut o: Vec<char> = Vec::new();
    extend_str(&mut o, "set -u; \
         dev=");
    extend(&mut o, dev);
    extend_str(&mut o, "; out=");
    extend(&mut o, out);
    extend_str(&mut o, "; mapped=0; \
         if command -v xinput >/dev/null 2>&1 && command -v xrandr >/dev/null 2>&1 && xrandr --query >/dev/null 2>&1; then \
             xinput map-to-output \"$dev\" \"$out\" && mapped=1 && echo \"XInput 터치 매핑 적용: $dev -> $out\"; \
         fi; \
         if command -v cosmic-randr >/dev/null 2>&1; then \
             cosmic-randr xwayland --primary \"$out\" >/dev/null 2>&1 || true; \
         fi; \
         if [ \"$mapped\" = 1 ]; then \
             exit 0; \
         fi; \
         ");
    extend(&mut o, wayland);
    extend_str(&mut o, " \
         if [ \"${XDG_SESSION_TYPE:-}\" = wayland ]; then \
             echo \"현재 COSMIC Wayland 세션입니다. 출력 geometry를 읽지 못해 터치 보정 규칙을 만들 수 없습니다. 새로고침 후 다시 시도하세요. 감지된 장치: $dev, 대상 출력: $out\"; \
         else \
             echo \"xinput/xrandr로 터치 매핑을 적용하지 못했습니다. xinput 패키지와 DISPLAY 접근 상태를 확인하세요. 장치: $dev, 출력: $out\"; \
         fi; \
         exit 1");
    string_of(o)
}

// ---------------------------------------------------------------- parsing

pub open spec fn is_ascii_alpha(c: char) -> bool {
    ('a' <= c && c <= 'z') || ('A' <= c && c <= 'Z')
}

/// What follows an escape sequence's final (alphabetic) character.
pub open spec fn after_csi(t: Seq<char>) -> Seq<char>
    decreases t.len(),
{
    if t.len() == 0 {
        seq![]
    } else if is_ascii_alpha(t[0]) {
        t.skip(1)
    } else {
        after_csi(t.skip(1))
    }
}

pub proof fn lemma_after_csi_len(t: Seq<char>)
    ensures
        after_csi(t).len() <= t.len(),
        after_csi(t) == t.skip(t.len() - after_csi(t).len()),
    decreases t.len(),
{
    if t.len() > 0 && !is_ascii_alpha(t[0]) {
        lemma_after_csi_len(t.skip(1));
        assert(t.skip(1).skip(t.skip(1).len() - after_csi(t.skip(1)).len()) =~= t.skip(t.len() - after_csi(t).len()));
    } else if t.len() == 0 {
        assert(t.skip(0) =~= t);
    }
}

/// `s` without its ANSI escape sequences (`ESC [` up to a letter).
pub open spec fn spec_strip_ansi(s: Seq<char>) -> Seq<char>
    decreases s.len(),
{
    if s.len() == 0 {
        seq![]
    } else if s[0] == '\u{1b}' && s.len() > 1 && s[1] == '[' {
        proof { lemma_after_csi_len(s.skip(2)); }
        spec_strip_ansi(after_csi(s.skip(2)))
    } else {
        seq![s[0]] + spec_strip_ansi(s.skip(1))
    }
}

pub fn strip_ansi(s: &str) -> (r: String)
    ensures
        r@ == spec_strip_ansi(s@),
{
    let c = chars_of(s);
    let mut out: Vec<char> = Vec::new();
    let mut i: usize = 0;
    assert(c@.skip(0) =~= c@);
    while i < c.len()
        invariant
            i <= c.len(),
            c@ == s@,
            out@ + spec_strip_ansi(c@.skip(i as int)) == spec_strip_ansi(s@),
        decreases c.len() - i,
    {
        let ghost t = c@.skip(i as int);
        if c[i] == '\u{1b}' && i + 1 < c.len() && c[i + 1] == '[' {
            assert(t[0] == c@[i as int] && t[1] == c@[i + 1]);
            let mut k: usize = i + 2;
            assert(t.skip(2) =~= c@.skip(k as int));
            while k < c.len() && !(('a' <= c[k] && c[k] <= 'z') || ('A' <= c[k] && c[k] <= 'Z'))
                invariant
                    i + 2 <= k <= c.len(),
                    after_csi(t.skip(2)) == after_csi(c@.skip(k as int)),
                decreases c.len() - k,
            {
                assert(c@.skip(k as int).skip(1) =~= c@.skip(k + 1));
                k += 1;
            }
            if k < c.len() {
                assert(c@.skip(k as int).skip(1) =~= c@.skip(k + 1));
                k += 1;
            } else {
                assert(c@.skip(k as int) =~= Seq::<char>::empty());
                assert(after_csi(c@.skip(k as int)) =~= c@.skip(k as int));
            }
            i = k;
        } else {
            let ghost o0 = out@;
            out.push(c[i]);
            assert(t.skip(1) =~= c@.skip(i + 1));
            assert(out@ + spec_strip_ansi(c@.skip(i + 1)) =~= o0 + (seq![t[0]] + spec_strip_ansi(t.skip(1))));
            i += 1;
        }
    }
    assert(c@.skip(c.len() as int) =~= Seq::<char>::empty());
    assert(out@ + Seq::<char>::empty() =~= out@);
    string_of(out)
}

/// The value after `prefix` on the first line that starts with it, trimmed.
pub open spec fn proc_value_of(ls: Seq<Seq<char>>, prefix: Seq<char>) -> Option<Seq<char>>
    decreases ls.len(),
{
    if ls.len() == 0 {
        None
    } else if starts_with(ls[0], prefix) {
        Some(trim(ls[0].skip(prefix.len() as int)))
    } else {
        proc_value_of(ls.drop_first(), prefix)
    }
}

pub fn proc_value(block: &str, prefix: &str) -> (r: Option<String>)
    ensures
        opt_view(r) == proc_value_of(lines(block@), prefix@),
{
    let ls = lines_of(block);
    let ghost lv = ls.deep_view();
    let mut i: usize = 0;
    assert(lv.skip(0) =~= lv);
    while i < ls.len()
        invariant
            i <= ls.len(),
            lv == ls.deep_view(),
            lv == lines(block@),
            proc_value_of(lv.skip(i as int), prefix@) == proc_value_of(lv, prefix@),
        decreases ls.len() - i,
    {
        proof { lemma_deep_view_chars(&ls[i as int]); }
        assert(lv.skip(i as int).drop_first() =~= lv.skip(i + 1));
        assert(lv.skip(i as int)[0] == ls@[i as int]@);
        match crate::text::strip_prefix_str(ls[i].as_slice(), prefix) {
            Some(rest) => { return Some(string_of(trim_exec(rest.as_slice()))); },
            None => {},
        }
        i += 1;
    }
    None
}

fn or_empty(o: Option<String>) -> (r: String)
    ensures
        r@ == (match opt_view(o) { Some(v) => v, None => seq![] }),
{
    match o {
        Some(v) => v,
        None => String::new(),
    }
}

/// The first handler named `event..`.
pub open spec fn first_event(ws: Seq<Seq<char>>) -> Seq<char>
    decreases ws.len(),
{
    if ws.len() == 0 {
        seq![]
    } else if starts_with(ws[0], "event"@) {
        ws[0]
    } else {
        first_event(ws.drop_first())
    }
}

pub open spec fn touch_name_ok(lname: Seq<char>) -> bool {
    !(contains(lname, "touchpad"@) || contains(lname, "mouse"@))
        && (contains(lname, "touch"@) || contains(lname, "finger"@) || contains(lname, "ilitek"@))
}

pub open spec fn touch_view(t: TouchDevice) -> (Seq<char>, Seq<char>, Seq<char>, bool) {
    (t.name@, t.event@, t.phys@, t.external)
}

/// A touchscreen from its block of /proc/bus/input/devices: named like one
/// (not a touchpad or mouse) and with absolute axes.
pub open spec fn spec_parse_touch_block(block: Seq<char>) -> Option<(Seq<char>, Seq<char>, Seq<char>, bool)> {
    let ls = lines(block);
    match proc_value_of(ls, "N: Name="@) {
        None => None,
        Some(raw) => {
            let name = trim_matches_char(raw, '"');
            if !touch_name_ok(unicode_lower(name)) || !contains(block, "B: ABS="@) {
                None
            } else {
                let handlers = match proc_value_of(ls, "H: Handlers="@) { Some(h) => h, None => seq![] };
                let phys = match proc_value_of(ls, "P: Phys="@) { Some(h) => h, None => seq![] };
                let sysfs = match proc_value_of(ls, "S: Sysfs="@) { Some(h) => h, None => seq![] };
                Some((name, first_event(words(handlers)), phys,
                    starts_with(phys, "usb-"@) || contains(sysfs, "/usb"@)))
            }
        },
    }
}

fn first_event_exec(ws: &Vec<Vec<char>>) -> (r: Vec<char>)
    ensures
        r@ == first_event(ws.deep_view()),
{
    let ghost wv = ws.deep_view();
    let mut i: usize = 0;
    assert(wv.skip(0) =~= wv);
    while i < ws.len()
        invariant
            i <= ws.len(),
            wv == ws.deep_view(),
            first_event(wv.skip(i as int)) == first_event(wv),
        decreases ws.len() - i,
    {
        proof { lemma_deep_view_chars(&ws[i as int]); }
        assert(wv.skip(i as int).drop_first() =~= wv.skip(i + 1));
        assert(wv.skip(i as int)[0] == ws@[i as int]@);
        if crate::text::starts_with_str(ws[i].as_slice(), "event") {
            let e = subseq(ws[i].as_slice(), 0, ws[i].len());
            assert(e@ =~= ws@[i as int]@);
            return e;
        }
        i += 1;
    }
    Vec::new()
}

pub fn parse_touch_block(block: &str) -> (r: Option<TouchDevice>)
    ensures
        (match r { Some(t) => Some(touch_view(t)), None => None }) == spec_parse_touch_block(block@),
{
    let raw = match proc_value(block, "N: Name=") {
        None => { return None; },
        Some(v) => v,
    };
    let name = crate::text::trim_matches_exec(chars_of_string(&raw).as_slice(), '"');
    let lname = crate::text::lower(name.as_slice());
    if crate::text::contains_str(lname.as_slice(), "touchpad") || crate::text::contains_str(lname.as_slice(), "mouse") {
        return None;
    }
    if !(crate::text::contains_str(lname.as_slice(), "touch") || crate::text::contains_str(lname.as_slice(), "finger")
        || crate::text::contains_str(lname.as_slice(), "ilitek")) {
        return None;
    }
    let bc = chars_of(block);
    if !crate::text::contains_str(bc.as_slice(), "B: ABS=") {
        return None;
    }
    let handlers = or_empty(proc_value(block, "H: Handlers="));
    let phys = or_empty(proc_value(block, "P: Phys="));
    let sysfs = or_empty(proc_value(block, "S: Sysfs="));
    let ws = crate::text::words_exec(chars_of_string(&handlers).as_slice());
    let event = first_event_exec(&ws);
    let pc = chars_of_string(&phys);
    let external = crate::text::starts_with_str(pc.as_slice(), "usb-")
        || crate::text::contains_str(chars_of_string(&sysfs).as_slice(), "/usb");
    Some(TouchDevice { name: string_of(name), event: string_of(event), phys, external })
}

pub open spec fn touch_devices_of(blocks: Seq<Seq<char>>) -> Seq<(Seq<char>, Seq<char>, Seq<char>, bool)>
    decreases blocks.len(),
{
    if blocks.len() == 0 {
        seq![]
    } else {
        match spec_parse_touch_block(blocks.last()) {
            Some(t) => touch_devices_of(blocks.drop_last()).push(t),
            None => touch_devices_of(blocks.drop_last()),
        }
    }
}

/// The touchscreens of /proc/bus/input/devices (blocks separated by a blank line).
pub fn parse_touch_devices(raw: &str) -> (r: Vec<TouchDevice>)
    ensures
        r@.map_values(|t: TouchDevice| touch_view(t)) == touch_devices_of(crate::text::split_str(raw@, "\n\n"@)),
{
    proof { reveal_strlit("\n\n"); }
    let blocks = crate::text::split_str_exec(chars_of(raw).as_slice(), "\n\n");
    let ghost bv = blocks.deep_view();
    let mut out: Vec<TouchDevice> = Vec::new();
    let mut i: usize = 0;
    assert(bv.take(0) =~= Seq::<Seq<char>>::empty());
    while i < blocks.len()
        invariant
            i <= blocks.len(),
            bv == blocks.deep_view(),
            out@.map_values(|t: TouchDevice| touch_view(t)) == touch_devices_of(bv.take(i as int)),
        decreases blocks.len() - i,
    {
        proof { lemma_deep_view_chars(&blocks[i as int]); }
        assert(bv.take(i + 1).drop_last() =~= bv.take(i as int));
        assert(bv.take(i + 1).last() == blocks@[i as int]@);
        let b = to_string(blocks[i].as_slice());
        match parse_touch_block(b.as_str()) {
            Some(t) => {
                let ghost o0 = out@;
                out.push(t);
                assert(out@.map_values(|t: TouchDevice| touch_view(t)) =~= o0.map_values(|t: TouchDevice| touch_view(t)).push(touch_view(out@.last())));
            },
            None => {},
        }
        i += 1;
    }
    assert(bv.take(blocks.len() as int) =~= bv);
    out
}

/// The last two `-`-separated parts of a DRM entry: `card1-eDP-1` is `eDP-1`.
pub open spec fn spec_drm_connector_name(name: Seq<char>) -> Seq<char> {
    let parts = split_char(name, '-');
    if parts.len() >= 2 {
        parts[parts.len() - 2] + "-"@ + parts[parts.len() - 1]
    } else if parts.len() == 1 {
        parts[0]
    } else {
        seq![]
    }
}

pub fn drm_connector_name(name: &str) -> (r: String)
    ensures
        r@ == spec_drm_connector_name(name@),
{
    let parts = crate::text::split_char_exec(chars_of(name).as_slice(), '-');
    let n = parts.len();
    if n >= 2 {
        proof { lemma_deep_view_chars(&parts[n - 2]); lemma_deep_view_chars(&parts[n - 1]); }
        let mut o = subseq(parts[n - 2].as_slice(), 0, parts[n - 2].len());
        assert(o@ =~= parts@[n - 2]@);
        extend_str(&mut o, "-");
        extend(&mut o, parts[n - 1].as_slice());
        string_of(o)
    } else if n == 1 {
        proof { lemma_deep_view_chars(&parts[0]); }
        to_string(parts[0].as_slice())
    } else {
        String::new()
    }
}

/// A monitor found by `ddcutil detect`.
#[derive(Debug, Clone)]
pub struct DetectedDisplay {
    pub number: u32,
    pub connector: String,
    pub model: String,
}

pub struct DetectState {
    pub found: Seq<(u32, Seq<char>, Seq<char>)>,
    pub cur: Option<(u32, Seq<char>, Seq<char>)>,
    pub invalid: bool,
}

pub open spec fn detect_flush(st: DetectState) -> DetectState {
    DetectState {
        found: match st.cur {
            Some(d) => if !st.invalid { st.found.push(d) } else { st.found },
            None => st.found,
        },
        cur: None,
        invalid: false,
    }
}

pub open spec fn detect_step(st: DetectState, line: Seq<char>) -> DetectState {
    let t = trim(line);
    if starts_with(line, "Display "@) {
        let f = detect_flush(st);
        match parse_u32(trim(line.skip(8))) {
            Some(n) => DetectState { cur: Some((n, seq![], seq![])), ..f },
            None => f,
        }
    } else if t == "Invalid display"@ {
        DetectState { invalid: true, ..detect_flush(st) }
    } else if starts_with(t, "DRM connector:"@) {
        match st.cur {
            Some(d) => {
                let conn = trim(t.skip(14));
                let c2 = match find_char(conn, '-') {
                    Some(j) => conn.skip(j + 1),
                    None => conn,
                };
                DetectState { cur: Some((d.0, c2, d.2)), ..st }
            },
            None => st,
        }
    } else if starts_with(t, "Model:"@) {
        match st.cur {
            Some(d) => DetectState { cur: Some((d.0, d.1, trim(t.skip(6)))), ..st },
            None => st,
        }
    } else {
        st
    }
}

pub open spec fn detect_fold(ls: Seq<Seq<char>>) -> DetectState
    decreases ls.len(),
{
    if ls.len() == 0 {
        DetectState { found: seq![], cur: None, invalid: false }
    } else {
        detect_step(detect_fold(ls.drop_last()), ls.last())
    }
}

/// The valid displays of `ddcutil detect` output (a block under `Invalid
/// display`, such as the internal panel, is left out).
pub open spec fn spec_parse_displays(out: Seq<char>) -> Seq<(u32, Seq<char>, Seq<char>)> {
    detect_flush(detect_fold(lines(out))).found
}

pub open spec fn detected_view(d: DetectedDisplay) -> (u32, Seq<char>, Seq<char>) {
    (d.number, d.connector@, d.model@)
}

pub open spec fn detect_state_of(found: Seq<DetectedDisplay>, cur: Option<DetectedDisplay>, invalid: bool) -> DetectState {
    DetectState {
        found: found.map_values(|d: DetectedDisplay| detected_view(d)),
        cur: match cur { Some(d) => Some(detected_view(d)), None => None },
        invalid,
    }
}

fn detect_flush_exec(found: &mut Vec<DetectedDisplay>, cur: &mut Option<DetectedDisplay>, invalid: &mut bool)
    ensures
        detect_state_of(final(found)@, *final(cur), *final(invalid))
            == detect_flush(detect_state_of(old(found)@, *old(cur), *old(invalid))),
{
    let mut taken: Option<DetectedDisplay> = None;
    std::mem::swap(&mut taken, cur);
    match taken {
        Some(d) => {
            if !*invalid {
                let ghost f0 = found@;
                found.push(d);
                assert(found@.map_values(|d: DetectedDisplay| detected_view(d)) =~= f0.map_values(|d: DetectedDisplay| detected_view(d)).push(detected_view(found@.last())));
            }
        },
        None => {},
    }
    *invalid = false;
}

pub fn parse_displays(out: &str) -> (r: Vec<DetectedDisplay>)
    ensures
        r@.map_values(|d: DetectedDisplay| detected_view(d)) == spec_parse_displays(out@),
{
    let ls = lines_of(out);
    let ghost lv = ls.deep_view();
    let mut found: Vec<DetectedDisplay> = Vec::new();
    let mut cur: Option<DetectedDisplay> = None;
    let mut invalid = false;
    let mut i: usize = 0;
    assert(lv.take(0) =~= Seq::<Seq<char>>::empty());
    assert(found@.map_values(|d: DetectedDisplay| detected_view(d)) =~= Seq::<(u32, Seq<char>, Seq<char>)>::empty());
    while i < ls.len()
        invariant
            i <= ls.len(),
            lv == ls.deep_view(),
            lv == lines(out@),
            detect_fold(lv.take(i as int)) == detect_state_of(found@, cur, invalid),
        decreases ls.len() - i,
    {
        proof { lemma_deep_view_chars(&ls[i as int]); reveal_strlit("Display "); reveal_strlit("DRM connector:"); reveal_strlit("Model:"); }
        assert(lv.take(i + 1).drop_last() =~= lv.take(i as int));
        assert(lv.take(i + 1).last() == ls@[i as int]@);
        let line = &ls[i];
        let t = trim_exec(line.as_slice());
        let ghost f0 = found@.map_values(|d: DetectedDisplay| detected_view(d));
        if crate::text::starts_with_str(line.as_slice(), "Display ") {
            detect_flush_exec(&mut found, &mut cur, &mut invalid);
            let rest = subseq(line.as_slice(), 8, line.len());
            assert(rest@ =~= line@.skip(8));
            match crate::text::parse_u32_exec(trim_exec(rest.as_slice()).as_slice()) {
                Some(n) => {
                    cur = Some(DetectedDisplay { number: n, connector: String::new(), model: String::new() });
                },
                None => {},
            }
        } else if eq_str(t.as_slice(), "Invalid display") {
            detect_flush_exec(&mut found, &mut cur, &mut invalid);
            invalid = true;
        } else if crate::text::starts_with_str(t.as_slice(), "DRM connector:") {
            match cur {
                Some(d) => {
                    let rest = subseq(t.as_slice(), 14, t.len());
                    assert(rest@ =~= t@.skip(14));
                    let conn = trim_exec(rest.as_slice());
                    let c2 = match crate::text::find_char_exec(conn.as_slice(), '-') {
                        Some(j) => {
                            proof { crate::text::lemma_find_char(conn@, '-'); }
                            assert(j < conn.len());
                            let x = subseq(conn.as_slice(), j + 1, conn.len());
                            assert(x@ =~= conn@.skip(j + 1));
                            x
                        },
                        None => conn,
                    };
                    cur = Some(DetectedDisplay { number: d.number, connector: string_of(c2), model: d.model });
                },
                None => {},
            }
        } else if crate::text::starts_with_str(t.as_slice(), "Model:") {
            match cur {
                Some(d) => {
                    let rest = subseq(t.as_slice(), 6, t.len());
                    assert(rest@ =~= t@.skip(6));
                    cur = Some(DetectedDisplay { number: d.number, connector: d.connector, model: string_of(trim_exec(rest.as_slice())) });
                },
                None => {},
            }
        }
        i += 1;
    }
    assert(lv.take(ls.len() as int) =~= lv);
    detect_flush_exec(&mut found, &mut cur, &mut invalid);
    found
}

pub open spec fn is_digit_char(c: char) -> bool {
    '0' <= c && c <= '9'
}

pub open spec fn digit_run_len(s: Seq<char>) -> nat
    decreases s.len(),
{
    if s.len() > 0 && is_digit_char(s[0]) { 1 + digit_run_len(s.drop_first()) } else { 0 }
}

/// The number right after `key` (white space skipped).
pub open spec fn spec_extract_after(line: Seq<char>, key: Seq<char>) -> Option<u32> {
    match find(line, key) {
        None => None,
        Some(i) => {
            let tail = trim_start(line.skip(i + key.len()));
            parse_u32(tail.take(digit_run_len(tail) as int))
        },
    }
}

proof fn lemma_digit_run(s: Seq<char>, k: int)
    requires
        0 <= k <= s.len(),
        forall|j: int| 0 <= j < k ==> is_digit_char(#[trigger] s[j]),
        k == s.len() || !is_digit_char(s[k]),
    ensures
        digit_run_len(s) == k,
    decreases k,
{
    if k > 0 {
        lemma_digit_run(s.drop_first(), k - 1);
    }
}

fn extract_after_chars(line: &[char], key: &str) -> (r: Option<u32>)
    ensures
        r == spec_extract_after(line@, key@),
{
    let k = chars_of(key);
    match crate::text::find_exec(line, k.as_slice()) {
        None => None,
        Some(i) => {
            proof { crate::text::lemma_find(line@, k@); }
            assert(i + k.len() <= line.len());
            let after = subseq(line, i + k.len(), line.len());
            assert(after@ =~= line@.skip(i + k@.len()));
            let tail = crate::text::trim_start_exec(after.as_slice());
            let mut n: usize = 0;
            while n < tail.len() && '0' <= tail[n] && tail[n] <= '9'
                invariant
                    n <= tail.len(),
                    forall|j: int| 0 <= j < n ==> is_digit_char(#[trigger] tail@[j]),
                decreases tail.len() - n,
            {
                n += 1;
            }
            proof { lemma_digit_run(tail@, n as int); }
            let num = subseq(tail.as_slice(), 0, n);
            assert(num@ =~= tail@.take(n as int));
            crate::text::parse_u32_exec(num.as_slice())
        },
    }
}

/// `v` is the number right after the first `key` in `l`: past `key`, some
/// white space, then a maximal run of decimal digits whose value is `v`.
pub open spec fn number_at(l: Seq<char>, key: Seq<char>, v: u32, i: int, w: int, n: int) -> bool {
    let a = i + key.len() + w;
    &&& crate::text::matches_at(l, key, i)
    &&& forall|j: int| 0 <= j < i ==> !crate::text::matches_at(l, key, j)
    &&& 0 <= w && 0 < n && a + n <= l.len()
    &&& forall|t: int| i + key.len() <= t < a ==> crate::text::is_ws(#[trigger] l[t])
    &&& forall|t: int| a <= t < a + n ==> is_digit_char(#[trigger] l[t])
    &&& (a + n == l.len() || !is_digit_char(l[a + n]))
    &&& v == crate::text::digits_value(l.subrange(a, a + n))
}

pub open spec fn number_after(l: Seq<char>, key: Seq<char>, v: u32) -> bool {
    exists|i: int, w: int, n: int| #[trigger] number_at(l, key, v, i, w, n)
}

/// The white space at the start of `s`.
pub open spec fn ws_run(s: Seq<char>) -> nat
    decreases s.len(),
{
    if s.len() > 0 && crate::text::is_ws(s[0]) { 1 + ws_run(s.drop_first()) } else { 0 }
}

proof fn lemma_ws_run(s: Seq<char>)
    ensures
        ws_run(s) <= s.len(),
        trim_start(s) == s.skip(ws_run(s) as int),
        forall|t: int| 0 <= t < ws_run(s) ==> crate::text::is_ws(#[trigger] s[t]),
        ws_run(s) == s.len() || !crate::text::is_ws(s[ws_run(s) as int]),
    decreases s.len(),
{
    if s.len() > 0 && crate::text::is_ws(s[0]) {
        lemma_ws_run(s.drop_first());
        assert(s.drop_first().skip(ws_run(s.drop_first()) as int) =~= s.skip(ws_run(s) as int));
        assert forall|t: int| 0 <= t < ws_run(s) implies crate::text::is_ws(#[trigger] s[t]) by {
            if t > 0 {
                assert(s[t] == s.drop_first()[t - 1]);
            }
        }
    } else {
        assert(s.skip(0) =~= s);
    }
}

proof fn lemma_ws_run_exact(s: Seq<char>, w: int)
    requires
        0 <= w < s.len(),
        forall|t: int| 0 <= t < w ==> crate::text::is_ws(#[trigger] s[t]),
        !crate::text::is_ws(s[w]),
    ensures
        ws_run(s) == w,
    decreases w,
{
    if w > 0 {
        assert forall|t: int| 0 <= t < w - 1 implies crate::text::is_ws(#[trigger] s.drop_first()[t]) by {
            assert(s.drop_first()[t] == s[t + 1]);
        }
        lemma_ws_run_exact(s.drop_first(), w - 1);
    }
}

proof fn lemma_digit_run_props(s: Seq<char>)
    ensures
        digit_run_len(s) <= s.len(),
        forall|t: int| 0 <= t < digit_run_len(s) ==> is_digit_char(#[trigger] s[t]),
        digit_run_len(s) == s.len() || !is_digit_char(s[digit_run_len(s) as int]),
    decreases s.len(),
{
    if s.len() > 0 && is_digit_char(s[0]) {
        lemma_digit_run_props(s.drop_first());
        assert forall|t: int| 0 <= t < digit_run_len(s) implies is_digit_char(#[trigger] s[t]) by {
            if t > 0 {
                assert(s[t] == s.drop_first()[t - 1]);
            }
        }
    }
}

/// The number right after `key` as read is the number right after it as
/// described: both say the same of every line.
pub proof fn lemma_extract_after_means(l: Seq<char>, key: Seq<char>, v: u32)
    ensures
        spec_extract_after(l, key) == Some(v) <==> number_after(l, key, v),
{
    crate::text::lemma_find(l, key);
    if spec_extract_after(l, key) == Some(v) {
        let i = find(l, key)->Some_0;
        let s1 = l.skip(i + key.len());
        lemma_ws_run(s1);
        let w = ws_run(s1) as int;
        let tail = trim_start(s1);
        lemma_digit_run_props(tail);
        let n = digit_run_len(tail) as int;
        let d = tail.take(n);
        assert(n > 0) by {
            if n == 0 {
                assert(d.len() == 0);
            }
        }
        let a = i + key.len() + w;
        assert(d =~= l.subrange(a, a + n));
        assert forall|t: int| i + key.len() <= t < a implies crate::text::is_ws(#[trigger] l[t]) by {
            assert(l[t] == s1[t - i - key.len()]);
        }
        assert forall|t: int| a <= t < a + n implies is_digit_char(#[trigger] l[t]) by {
            assert(l[t] == tail[t - a]);
        }
        if a + n < l.len() {
            assert(l[a + n] == tail[n]);
        }
        assert(d[0] != '+');
        assert(crate::text::all_digits(d)) by {
            assert forall|t: int| 0 <= t < d.len() implies crate::text::is_digit(#[trigger] d[t]) by {
                assert(d[t] == tail[t]);
            }
        }
        assert(number_at(l, key, v, i, w, n));
    }
    if number_after(l, key, v) {
        let (i, w, n) = choose|i: int, w: int, n: int| #[trigger] number_at(l, key, v, i, w, n);
        let fi = find(l, key)->Some_0;
        assert(find(l, key) is Some) by {
            if find(l, key) is None {
                assert(crate::text::matches_at(l, key, i));
            }
        }
        assert(fi == i) by {
            if fi < i {
                assert(!crate::text::matches_at(l, key, fi));
            } else if fi > i {
                assert(!crate::text::matches_at(l, key, i));
            }
        }
        let s1 = l.skip(i + key.len());
        let a = i + key.len() + w;
        assert forall|t: int| 0 <= t < w implies crate::text::is_ws(#[trigger] s1[t]) by {
            assert(s1[t] == l[i + key.len() + t]);
        }
        assert(s1[w] == l[a]);
        assert(is_digit_char(l[a]));
        assert(!crate::text::is_ws(s1[w]));
        lemma_ws_run_exact(s1, w);
        lemma_ws_run(s1);
        let tail = trim_start(s1);
        assert(tail == s1.skip(w));
        assert forall|t: int| 0 <= t < n implies is_digit_char(#[trigger] tail[t]) by {
            assert(tail[t] == l[a + t]);
        }
        if a + n < l.len() {
            assert(tail[n] == l[a + n]);
        }
        lemma_digit_run(tail, n);
        let d = tail.take(n);
        assert(d =~= l.subrange(a, a + n));
        assert(d[0] != '+');
        assert(crate::text::all_digits(d)) by {
            assert forall|t: int| 0 <= t < d.len() implies crate::text::is_digit(#[trigger] d[t]) by {
                assert(d[t] == tail[t]);
            }
        }
    }
}

pub fn extract_after(line: &str, key: &str) -> (r: Option<u32>)
    ensures
        r == spec_extract_after(line@, key@),
{
    extract_after_chars(chars_of(line).as_slice(), key)
}

pub open spec fn hex_digit(d: int) -> char {
    if d < 10 { ('0' as int + d) as char } else { ('a' as int + (d - 10)) as char }
}

/// `0x` and the code as two lowercase hex digits.
pub open spec fn vcp_needle(code: u8) -> Seq<char> {
    seq!['0', 'x', hex_digit(code as int / 16), hex_digit(code as int % 16)]
}

fn hex_digit_exec(d: u8) -> (c: char)
    requires
        d < 16,
    ensures
        c == hex_digit(d as int),
{
    if d < 10 {
        let v = 48 + d;
        v as char
    } else {
        let v = 97 + (d - 10);
        v as char
    }
}

/// The (current, maximum) of VCP `code` on the first line of `getvcp`
/// output (lower-cased) that names it.
pub open spec fn vcp_of(ls: Seq<Seq<char>>, code: u8) -> Option<(u32, u32)>
    decreases ls.len(),
{
    if ls.len() == 0 {
        None
    } else {
        let l = unicode_lower(ls[0]);
        if crate::text::contains(l, vcp_needle(code)) {
            match (spec_extract_after(l, "current value ="@), spec_extract_after(l, "max value ="@)) {
                (Some(c), Some(m)) => Some((c, m)),
                _ => None,
            }
        } else {
            vcp_of(ls.drop_first(), code)
        }
    }
}

pub open spec fn spec_parse_vcp(out: Seq<char>, code: u8) -> Option<(u32, u32)> {
    vcp_of(lines(out), code)
}

/// Whether a line of `getvcp` output (lower-cased) names VCP `code`.
pub open spec fn names_vcp(line: Seq<char>, code: u8) -> bool {
    crate::text::contains(unicode_lower(line), vcp_needle(code))
}

/// The first line that names VCP `code`.
pub open spec fn first_naming(ls: Seq<Seq<char>>, code: u8, k: int) -> bool {
    0 <= k < ls.len() && names_vcp(ls[k], code) && forall|j: int| 0 <= j < k ==> !names_vcp(#[trigger] ls[j], code)
}

proof fn lemma_vcp_of(ls: Seq<Seq<char>>, code: u8, c: u32, m: u32)
    ensures
        vcp_of(ls, code) == Some((c, m)) <==> exists|k: int| #[trigger] first_naming(ls, code, k)
            && number_after(unicode_lower(ls[k]), "current value ="@, c)
            && number_after(unicode_lower(ls[k]), "max value ="@, m),
    decreases ls.len(),
{
    if ls.len() > 0 {
        let l = unicode_lower(ls[0]);
        lemma_extract_after_means(l, "current value ="@, c);
        lemma_extract_after_means(l, "max value ="@, m);
        lemma_vcp_of(ls.drop_first(), code, c, m);
        if names_vcp(ls[0], code) {
            if vcp_of(ls, code) == Some((c, m)) {
                assert(first_naming(ls, code, 0));
            }
            if exists|k: int| #[trigger] first_naming(ls, code, k)
                && number_after(unicode_lower(ls[k]), "current value ="@, c)
                && number_after(unicode_lower(ls[k]), "max value ="@, m) {
                let k = choose|k: int| #[trigger] first_naming(ls, code, k)
                    && number_after(unicode_lower(ls[k]), "current value ="@, c)
                    && number_after(unicode_lower(ls[k]), "max value ="@, m);
                assert(k == 0) by {
                    if k > 0 {
                        assert(!names_vcp(ls[0], code));
                    }
                }
            }
        } else {
            let t = ls.drop_first();
            if vcp_of(ls, code) == Some((c, m)) {
                let k = choose|k: int| #[trigger] first_naming(t, code, k)
                    && number_after(unicode_lower(t[k]), "current value ="@, c)
                    && number_after(unicode_lower(t[k]), "max value ="@, m);
                assert forall|j: int| 0 <= j < k + 1 implies !names_vcp(#[trigger] ls[j], code) by {
                    if j > 0 {
                        assert(ls[j] == t[j - 1]);
                    }
                }
                assert(ls[k + 1] == t[k]);
                assert(first_naming(ls, code, k + 1));
            }
            if exists|k: int| #[trigger] first_naming(ls, code, k)
                && number_after(unicode_lower(ls[k]), "current value ="@, c)
                && number_after(unicode_lower(ls[k]), "max value ="@, m) {
                let k = choose|k: int| #[trigger] first_naming(ls, code, k)
                    && number_after(unicode_lower(ls[k]), "current value ="@, c)
                    && number_after(unicode_lower(ls[k]), "max value ="@, m);
                assert(k > 0);
                assert(t[k - 1] == ls[k]);
                assert forall|j: int| 0 <= j < k - 1 implies !names_vcp(#[trigger] t[j], code) by {
                    assert(t[j] == ls[j + 1]);
                }
                assert(first_naming(t, code, k - 1));
            }
        }
    }
}

/// Reading a VCP value: the result is (current, maximum) exactly when the
/// first line of the output that names the code (compared lower-cased)
/// holds the current value as the number right after "current value =" and
/// the maximum as the number right after "max value =".
pub proof fn law_vcp_current_then_max(out: Seq<char>, code: u8, c: u32, m: u32)
    ensures
        spec_parse_vcp(out, code) == Some((c, m)) <==> exists|k: int| #[trigger] first_naming(lines(out), code, k)
            && number_after(unicode_lower(lines(out)[k]), "current value ="@, c)
            && number_after(unicode_lower(lines(out)[k]), "max value ="@, m),
{
    lemma_vcp_of(lines(out), code, c, m);
}

pub fn parse_vcp(out: &str, code: u8) -> (r: Option<(u32, u32)>)
    ensures
        r == spec_parse_vcp(out@, code),
{
    let needle: Vec<char> = vec!['0', 'x', hex_digit_exec(code / 16), hex_digit_exec(code % 16)];
    assert(needle@ =~= vcp_needle(code));
    let ls = lines_of(out);
    let ghost lv = ls.deep_view();
    let mut i: usize = 0;
    assert(lv.skip(0) =~= lv);
    while i < ls.len()
        invariant
            i <= ls.len(),
            lv == ls.deep_view(),
            lv == lines(out@),
            needle@ == vcp_needle(code),
            vcp_of(lv.skip(i as int), code) == vcp_of(lv, code),
        decreases ls.len() - i,
    {
        proof { lemma_deep_view_chars(&ls[i as int]); }
        assert(lv.skip(i as int).drop_first() =~= lv.skip(i + 1));
        assert(lv.skip(i as int)[0] == ls@[i as int]@);
        let l = crate::text::lower(ls[i].as_slice());
        if crate::text::find_exec(l.as_slice(), needle.as_slice()).is_some() {
            let c = extract_after_chars(l.as_slice(), "current value =");
            let m = extract_after_chars(l.as_slice(), "max value =");
            return match (c, m) {
                (Some(c), Some(m)) => Some((c, m)),
                _ => None,
            };
        }
        i += 1;
    }
    None
}

// ---------------------------------------------------------------- monitors

pub open spec fn percent_of(v: u32, max: u32) -> u32 {
    let p = (v as nat * 100) / (max as nat);
    if p > 100 { 100 } else { p as u32 }
}

/// The internal panel of a sysfs backlight, when it reports a brightness and
/// a non-zero maximum.
pub fn internal_monitor(backlight: &str, connector: &str, cur: Option<u32>, max: Option<u32>) -> (r: Option<Monitor>)
    requires
        cur matches Some(c) ==> c * 100 <= u32::MAX,
    ensures
        r is Some <==> (cur is Some && max is Some && max.unwrap() != 0),
        r matches Some(mon) ==> mon.kind == (Kind::Internal { backlight: mon.kind->backlight })
            && mon.kind->backlight@ == backlight@
            && mon.name@ == "내장 디스플레이"@ && mon.connector@ == connector@
            && mon.pct == percent_of(cur.unwrap(), max.unwrap()) && mon.raw_max == max.unwrap()
            && mon.contrast is None && mon.contrast_max == 0 && mon.controls_brightness && mon.geometry is None,
{
    let (c, m) = match (cur, max) {
        (Some(c), Some(m)) => (c, m),
        _ => { return None; },
    };
    if m == 0 {
        return None;
    }
    let p = c * 100 / m;
    let pct = if p > 100 { 100 } else { p };
    Some(Monitor {
        kind: Kind::Internal { backlight: string_of(chars_of(backlight)) },
        name: string_of(chars_of("내장 디스플레이")),
        connector: string_of(chars_of(connector)),
        pct,
        raw_max: m,
        contrast: None,
        contrast_max: 0,
        controls_brightness: true,
        geometry: None,
    })
}

/// Whether every value `getvcp` reports can be scaled to a percentage.
pub open spec fn vcp_fits(out: Seq<char>) -> bool {
    &&& (spec_parse_vcp(out, 0x10u8) matches Some((c, _)) ==> c * 100 <= u32::MAX)
    &&& (spec_parse_vcp(out, 0x12u8) matches Some((c, _)) ==> c * 100 <= u32::MAX)
}

/// An external monitor from `ddcutil detect` and its `getvcp 10 12` output
/// (brightness 50 of 100 when it reports none).
pub fn external_monitor(d: DetectedDisplay, vcp_output: &str) -> (r: Monitor)
    requires
        vcp_fits(vcp_output@),
    ensures
        r.kind == (Kind::External { display: d.number }),
        r.name@ == (if d.model@.len() == 0 { "외부 모니터 "@ + decimal(d.number as nat) } else { d.model@ }),
        r.connector@ == d.connector@,
        ({
            let (b, bmax) = match spec_parse_vcp(vcp_output@, 0x10u8) { Some(v) => v, None => (50u32, 100u32) };
            &&& r.pct == (if bmax > 0 { percent_of(b, bmax) } else { 50 })
            &&& r.raw_max == (if bmax < 1 { 1 } else { bmax })
        }),
        r.contrast == (match spec_parse_vcp(vcp_output@, 0x12u8) {
            Some((c, cm)) => Some(if cm > 0 { percent_of(c, cm) } else { c }),
            None => None,
        }),
        r.contrast_max == (match spec_parse_vcp(vcp_output@, 0x12u8) {
            Some((_, cm)) => if cm < 1 { 1 } else { cm },
            None => 100,
        }),
        r.controls_brightness && r.geometry is None,
{
    let (b, bmax) = match parse_vcp(vcp_output, 0x10) {
        Some(v) => v,
        None => (50, 100),
    };
    let contrast = parse_vcp(vcp_output, 0x12);
    let pct = if bmax > 0 {
        let p = b * 100 / bmax;
        if p > 100 { 100 } else { p }
    } else {
        50
    };
    let name = if d.model.unicode_len() == 0 {
        let mut o = chars_of("외부 모니터 ");
        push_decimal(&mut o, d.number as u64);
        string_of(o)
    } else {
        d.model
    };
    let (cv, cmax) = match contrast {
        Some((c, cm)) => {
            let v = if cm > 0 {
                let p = c * 100 / cm;
                if p > 100 { 100 } else { p }
            } else {
                c
            };
            (Some(v), if cm < 1 { 1 } else { cm })
        },
        None => (None, 100),
    };
    Monitor {
        kind: Kind::External { display: d.number },
        name,
        connector: d.connector,
        pct,
        raw_max: if bmax < 1 { 1 } else { bmax },
        contrast: cv,
        contrast_max: cmax,
        controls_brightness: true,
        geometry: None,
    }
}

/// Whether a DRM entry is a connected connector other than the internal panel.
pub open spec fn is_external_connector(fname: Seq<char>, connected: bool) -> bool {
    contains(fname, "-"@) && !contains(fname, "eDP"@) && connected
}

pub fn external_connector(fname: &str, connected: bool) -> (r: bool)
    ensures
        r == is_external_connector(fname@, connected),
{
    let f = chars_of(fname);
    crate::text::contains_str(f.as_slice(), "-") && !crate::text::contains_str(f.as_slice(), "eDP") && connected
}

/// A connected external output that DDC/CI did not list: shown, without
/// brightness control.
pub fn drm_fallback(monitors: &Vec<Monitor>, fname: &str, connected: bool) -> (r: Option<Monitor>)
    ensures
        r is Some <==> is_external_connector(fname@, connected)
            && !(exists|k: int| 0 <= k < monitors@.len() && #[trigger] monitors@[k].connector@ == spec_drm_connector_name(fname@)),
        r matches Some(m) ==> m.kind == (Kind::External { display: 0 })
            && m.name@ == "외부 모니터 "@ + spec_drm_connector_name(fname@)
            && m.connector@ == spec_drm_connector_name(fname@)
            && m.pct == 50 && m.raw_max == 100 && m.contrast is None && m.contrast_max == 0
            && !m.controls_brightness && m.geometry is None,
{
    if !external_connector(fname, connected) {
        return None;
    }
    let connector = drm_connector_name(fname);
    let cc = chars_of_string(&connector);
    let mut i: usize = 0;
    while i < monitors.len()
        invariant
            i <= monitors.len(),
            cc@ == spec_drm_connector_name(fname@),
            forall|k: int| 0 <= k < i ==> #[trigger] monitors@[k].connector@ != cc@,
        decreases monitors.len() - i,
    {
        if eq(chars_of_string(&monitors[i].connector).as_slice(), cc.as_slice()) {
            return None;
        }
        i += 1;
    }
    let mut name = chars_of("외부 모니터 ");
    extend(&mut name, cc.as_slice());
    Some(Monitor {
        kind: Kind::External { display: 0 },
        name: string_of(name),
        connector,
        pct: 50,
        raw_max: 100,
        contrast: None,
        contrast_max: 0,
        controls_brightness: false,
        geometry: None,
    })
}

/// The geometry listed for `connector`.
pub open spec fn geometry_for(gs: Seq<(String, OutputGeometry)>, connector: Seq<char>) -> Option<OutputGeometry>
    decreases gs.len(),
{
    if gs.len() == 0 {
        None
    } else if gs[0].0@ == connector {
        Some(gs[0].1)
    } else {
        geometry_for(gs.drop_first(), connector)
    }
}

fn geometry_for_exec(gs: &Vec<(String, OutputGeometry)>, connector: &[char]) -> (r: Option<OutputGeometry>)
    ensures
        r == geometry_for(gs@, connector@),
{
    let mut i: usize = 0;
    assert(gs@.skip(0) =~= gs@);
    while i < gs.len()
        invariant
            i <= gs.len(),
            geometry_for(gs@.skip(i as int), connector@) == geometry_for(gs@, connector@),
        decreases gs.len() - i,
    {
        assert(gs@.skip(i as int).drop_first() =~= gs@.skip(i + 1));
        assert(gs@.skip(i as int)[0] == gs@[i as int]);
        if eq(chars_of_string(&gs[i].0).as_slice(), connector) {
            return Some(gs[i].1);
        }
        i += 1;
    }
    None
}

/// Gives each monitor the geometry listed for its connector (or none).
pub fn apply_output_geometries(monitors: &mut Vec<Monitor>, geometries: &Vec<(String, OutputGeometry)>)
    ensures
        final(monitors)@.len() == old(monitors)@.len(),
        forall|k: int| 0 <= k < old(monitors)@.len() ==> #[trigger] final(monitors)@[k]
            == (Monitor { geometry: geometry_for(geometries@, old(monitors)@[k].connector@), ..old(monitors)@[k] }),
{
    let ghost m0 = monitors@;
    let mut i: usize = 0;
    while i < monitors.len()
        invariant
            i <= monitors.len(),
            monitors@.len() == m0.len(),
            forall|k: int| 0 <= k < i ==> #[trigger] monitors@[k]
                == (Monitor { geometry: geometry_for(geometries@, m0[k].connector@), ..m0[k] }),
            forall|k: int| i <= k < m0.len() ==> #[trigger] monitors@[k] == m0[k],
        decreases monitors.len() - i,
    {
        let mut m = monitors.remove(i);
        let g = geometry_for_exec(geometries, chars_of_string(&m.connector).as_slice());
        m.geometry = g;
        monitors.insert(i, m);
        i += 1;
    }
}

// ---------------------------------------------------------------- the tab

#[derive(Debug, Clone)]
pub struct DisplayScan {
    pub monitors: Vec<Monitor>,
    pub touches: Vec<TouchDevice>,
    pub setup: Option<SetupReason>,
    pub session_type: String,
    pub xinput_available: bool,
}

#[derive(Debug, Clone)]
pub enum DisplayMsg {
    Refresh,
    Refreshed(DisplayScan),
    /// A slider moves (index, value); nothing is applied yet.
    SetBrightness(usize, u32),
    /// The slider is released: apply (index).
    CommitBrightness(usize),
    SetContrast(usize, u32),
    CommitContrast(usize),
    SetupPermissions,
    /// Reload i2c-dev and trigger udev, then rescan.
    Reprobe,
    /// Every monitor to one brightness (the low-power and default buttons).
    ApplyBrightnessPreset(u32),
    Applied(CmdResult),
    /// Applied, and a rescan is due (permissions, reprobe).
    AppliedRescan(CmdResult),
    MapTouchToOutput { touch_idx: usize, monitor_idx: usize },
}

/// The outside work that an event asks for.
#[derive(Debug)]
pub enum DisplayAction {
    Idle,
    /// Scan; answer `Refreshed`.
    Scan,
    /// Run the script; answer `Applied`.
    Run(String),
    /// Run the script; answer `AppliedRescan`.
    RunRescan(String),
    /// Run `setup_script` for the session user; answer `AppliedRescan`.
    SetupPermissions,
    /// Map the touchscreen to the monitor with `map_touch_script` and the
    /// output's calibration matrix; answer `Applied`.
    MapTouch { touch_idx: usize, monitor_idx: usize },
}

pub struct DisplayState {
    pub monitors: Vec<Monitor>,
    pub touches: Vec<TouchDevice>,
    pub setup: Option<SetupReason>,
    pub scanned: bool,
    pub running: Option<String>,
    pub session_type: String,
    pub xinput_available: bool,
}

/// Every monitor set to `pct`.
pub open spec fn with_pct(ms: Seq<Monitor>, pct: u32) -> Seq<Monitor> {
    ms.map_values(|m: Monitor| Monitor { pct, ..m })
}

pub open spec fn spec_preset_label(t: u32) -> Seq<char> {
    "밝기 프리셋 적용 중... ("@ + decimal(t as nat) + "%)"@
}

pub open spec fn spec_map_label(touch: Seq<char>, connector: Seq<char>) -> Seq<char> {
    touch + " 터치를 "@ + connector + "에 매핑 중..."@
}

/// Whether the update leaves the scan results alone.
pub open spec fn keeps_scan(a: DisplayState, b: DisplayState) -> bool {
    a.touches == b.touches && a.setup == b.setup && a.scanned == b.scanned
        && a.session_type == b.session_type && a.xinput_available == b.xinput_available
}

/// Sets every monitor's brightness to `t`.
fn set_all_pct(monitors: &mut Vec<Monitor>, t: u32)
    ensures
        final(monitors)@ == with_pct(old(monitors)@, t),
{
    let ghost m0 = monitors@;
    let mut i: usize = 0;
    while i < monitors.len()
        invariant
            i <= monitors@.len(),
            monitors@.len() == m0.len(),
            m0 == old(monitors)@,
            forall|k: int| 0 <= k < i ==> #[trigger] monitors@[k] == (Monitor { pct: t, ..m0[k] }),
            forall|k: int| i <= k < m0.len() ==> #[trigger] monitors@[k] == m0[k],
        decreases monitors@.len() - i,
    {
        let mut m = monitors.remove(i);
        m.pct = t;
        monitors.insert(i, m);
        i += 1;
    }
    assert(monitors@ =~= with_pct(m0, t));
}

impl DisplayState {
    pub fn new() -> (s: Self)
        ensures
            s.monitors@.len() == 0 && s.touches@.len() == 0 && s.setup is None && !s.scanned,
            s.running is None && s.session_type@.len() == 0 && !s.xinput_available,
    {
        DisplayState {
            monitors: Vec::new(),
            touches: Vec::new(),
            setup: None,
            scanned: false,
            running: None,
            session_type: String::new(),
            xinput_available: false,
        }
    }

    /// The next state and the work to do for an event.  A scan does not
    /// overwrite what the user is changing while a task runs; sliders change
    /// the shown value and apply on release.
    pub fn update(&mut self, msg: DisplayMsg) -> (r: (DisplayAction, Option<CmdResult>))
        ensures
            match msg {
                DisplayMsg::Refresh => r.0 is Scan && r.1 is None && *final(self) == *old(self),
                DisplayMsg::Refreshed(sc) => {
                    &&& r.0 is Idle && r.1 is None && final(self).scanned && final(self).running == old(self).running
                    &&& if old(self).running is None {
                        final(self).monitors == sc.monitors && final(self).touches == sc.touches
                            && final(self).setup == sc.setup && final(self).session_type == sc.session_type
                            && final(self).xinput_available == sc.xinput_available
                    } else {
                        final(self).monitors == old(self).monitors && final(self).touches == old(self).touches
                            && final(self).setup == old(self).setup && final(self).session_type == old(self).session_type
                            && final(self).xinput_available == old(self).xinput_available
                    }
                },
                DisplayMsg::SetBrightness(i, v) => {
                    &&& r.0 is Idle && r.1 is None && keeps_scan(*old(self), *final(self))
                    &&& final(self).running == old(self).running
                    &&& final(self).monitors@ == (if i < old(self).monitors@.len() {
                        old(self).monitors@.update(i as int, Monitor { pct: v, ..old(self).monitors@[i as int] })
                    } else {
                        old(self).monitors@
                    })
                },
                DisplayMsg::CommitBrightness(i) => {
                    &&& r.1 is None && *final(self) == *old(self)
                    &&& if i < old(self).monitors@.len() {
                        r.0 matches DisplayAction::Run(sc) && sc@ == spec_brightness_script(old(self).monitors@[i as int])
                    } else {
                        r.0 is Idle
                    }
                },
                DisplayMsg::SetContrast(i, v) => {
                    &&& r.0 is Idle && r.1 is None && keeps_scan(*old(self), *final(self))
                    &&& final(self).running == old(self).running
                    &&& final(self).monitors@ == (if i < old(self).monitors@.len() {
                        old(self).monitors@.update(i as int, Monitor { contrast: Some(v), ..old(self).monitors@[i as int] })
                    } else {
                        old(self).monitors@
                    })
                },
                DisplayMsg::CommitContrast(i) => {
                    &&& r.1 is None && *final(self) == *old(self)
                    &&& if i < old(self).monitors@.len() && spec_contrast_script(old(self).monitors@[i as int]) is Some {
                        r.0 matches DisplayAction::Run(sc) && Some(sc@) == spec_contrast_script(old(self).monitors@[i as int])
                    } else {
                        r.0 is Idle
                    }
                },
                DisplayMsg::SetupPermissions => r.0 is SetupPermissions && r.1 is None
                    && final(self).monitors == old(self).monitors && keeps_scan(*old(self), *final(self))
                    && opt_view(final(self).running) == Some("외부 모니터 제어 권한 설정 중... (관리자 인증)"@),
                DisplayMsg::Reprobe => r.1 is None
                    && (r.0 matches DisplayAction::RunRescan(sc) && sc@ == spec_reprobe_script())
                    && final(self).monitors == old(self).monitors && keeps_scan(*old(self), *final(self))
                    && opt_view(final(self).running) == Some("i2c 모듈 재로드 및 모니터 재인식 중... (관리자 인증)"@),
                DisplayMsg::ApplyBrightnessPreset(t) => {
                    &&& r.1 is None && keeps_scan(*old(self), *final(self))
                    &&& final(self).monitors@ == with_pct(old(self).monitors@, t)
                    &&& opt_view(final(self).running) == Some(spec_preset_label(t))
                    &&& r.0 matches DisplayAction::Run(sc) && sc@ == spec_preset_script(with_pct(old(self).monitors@, t))
                },
                DisplayMsg::Applied(res) => r.0 is Idle && r.1 == Some(res) && final(self).running is None
                    && final(self).monitors == old(self).monitors && keeps_scan(*old(self), *final(self)),
                DisplayMsg::AppliedRescan(res) => r.0 is Scan && r.1 == Some(res) && final(self).running is None
                    && final(self).monitors == old(self).monitors && keeps_scan(*old(self), *final(self)),
                DisplayMsg::MapTouchToOutput { touch_idx, monitor_idx } => {
                    &&& r.1 is None && final(self).monitors == old(self).monitors && keeps_scan(*old(self), *final(self))
                    &&& if touch_idx < old(self).touches@.len() && monitor_idx < old(self).monitors@.len() {
                        &&& r.0 == (DisplayAction::MapTouch { touch_idx, monitor_idx })
                        &&& opt_view(final(self).running) == Some(spec_map_label(
                            old(self).touches@[touch_idx as int].name@, old(self).monitors@[monitor_idx as int].connector@))
                    } else {
                        r.0 is Idle && final(self).running == old(self).running
                    }
                },
            },
    {
        match msg {
            DisplayMsg::Refresh => (DisplayAction::Scan, None),
            DisplayMsg::Refreshed(sc) => {
                if self.running.is_none() {
                    self.monitors = sc.monitors;
                    self.touches = sc.touches;
                    self.setup = sc.setup;
                    self.session_type = sc.session_type;
                    self.xinput_available = sc.xinput_available;
                }
                self.scanned = true;
                (DisplayAction::Idle, None)
            },
            DisplayMsg::SetBrightness(i, v) => {
                if i < self.monitors.len() {
                    let mut m = self.monitors.remove(i);
                    m.pct = v;
                    self.monitors.insert(i, m);
                }
                (DisplayAction::Idle, None)
            },
            DisplayMsg::CommitBrightness(i) => {
                if i < self.monitors.len() {
                    (DisplayAction::Run(brightness_script(&self.monitors[i])), None)
                } else {
                    (DisplayAction::Idle, None)
                }
            },
            DisplayMsg::SetContrast(i, v) => {
                if i < self.monitors.len() {
                    let mut m = self.monitors.remove(i);
                    m.contrast = Some(v);
                    self.monitors.insert(i, m);
                }
                (DisplayAction::Idle, None)
            },
            DisplayMsg::CommitContrast(i) => {
                if i < self.monitors.len() {
                    match contrast_script(&self.monitors[i]) {
                        Some(sc) => (DisplayAction::Run(sc), None),
                        None => (DisplayAction::Idle, None),
                    }
                } else {
                    (DisplayAction::Idle, None)
                }
            },
            DisplayMsg::SetupPermissions => {
                self.running = Some(string_of(chars_of("외부 모니터 제어 권한 설정 중... (관리자 인증)")));
                (DisplayAction::SetupPermissions, None)
            },
            DisplayMsg::Reprobe => {
                self.running = Some(string_of(chars_of("i2c 모듈 재로드 및 모니터 재인식 중... (관리자 인증)")));
                (DisplayAction::RunRescan(reprobe_script()), None)
            },
            DisplayMsg::ApplyBrightnessPreset(t) => {
                set_all_pct(&mut self.monitors, t);
                let mut label = chars_of("밝기 프리셋 적용 중... (");
                push_decimal(&mut label, t as u64);
                extend_str(&mut label, "%)");
                self.running = Some(string_of(label));
                (DisplayAction::Run(preset_script(&self.monitors)), None)
            },
            DisplayMsg::Applied(res) => {
                self.running = None;
                (DisplayAction::Idle, Some(res))
            },
            DisplayMsg::AppliedRescan(res) => {
                self.running = None;
                (DisplayAction::Scan, Some(res))
            },
            DisplayMsg::MapTouchToOutput { touch_idx, monitor_idx } => {
                if touch_idx < self.touches.len() && monitor_idx < self.monitors.len() {
                    let mut label = chars_of_string(&self.touches[touch_idx].name);
                    extend_str(&mut label, " 터치를 ");
                    extend(&mut label, chars_of_string(&self.monitors[monitor_idx].connector).as_slice());
                    extend_str(&mut label, "에 매핑 중...");
                    self.running = Some(string_of(label));
                    (DisplayAction::MapTouch { touch_idx, monitor_idx }, None)
                } else {
                    (DisplayAction::Idle, None)
                }
            },
        }
    }
}

} // verus!
