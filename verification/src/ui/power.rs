//! Power: suspend now or on a timer, keep the machine awake, and the battery
//! guard, a system timer that suspends before the battery runs out.

use vstd::prelude::*;
use crate::runner::CmdResult;
use crate::text::{
    chars_of, chars_of_string, contains, decimal, digits_value, eq_str, extend, extend_str, lemma_deep_view_chars,
    lines, lines_of, opt_view, parse_u32, push_decimal, starts_with, string_of, to_string, trim,
    trim_exec, words,
};

verus! {

/// The longest the machine is kept awake, so that a crashed tool cannot
/// leave an inhibitor behind for ever.
pub const MAX_INHIBIT_SECS: u64 = 43200;

pub const DEFAULT_THRESHOLD: u32 = 5;
pub const GUARD_MARKER: &'static str = "# popmgr-battery-guard: v1";
pub const GUARD_SCRIPT_PATH: &'static str = "/usr/local/lib/popmgr/battery-guard.sh";
pub const GUARD_CONF_PATH: &'static str = "/etc/popmgr/battery-guard.conf";
pub const GUARD_SERVICE_PATH: &'static str = "/etc/systemd/system/popmgr-battery-guard.service";
pub const GUARD_TIMER_PATH: &'static str = "/etc/systemd/system/popmgr-battery-guard.timer";
pub const GUARD_HOOK_PATH: &'static str = "/etc/systemd/system-sleep/zz-popmgr-battery-guard";
pub const GUARD_TIMER: &'static str = "popmgr-battery-guard.timer";

/// The guard: one line out, its first word the verdict (OK / SKIP /
/// WOULD_SUSPEND / SUSPEND).  PSU_ROOT, CONF, STATE_DIR, DRY_RUN and NOW
/// can be overridden to try it.
pub const GUARD_SCRIPT: &'static str = r#"#!/bin/sh
# popmgr-battery-guard: v1
# 배터리 방전 중 잔량이 THRESHOLD% 이하면 UPower 의 강제 전원 차단 전에 절전한다.
PSU_ROOT="${PSU_ROOT:-/sys/class/power_supply}"
CONF="${CONF:-/etc/popmgr/battery-guard.conf}"
STATE_DIR="${STATE_DIR:-/run}"
NOW="${NOW:-$(date +%s)}"

THRESHOLD=5
GRACE_SECS=180
[ -r "$CONF" ] && . "$CONF"
case "$THRESHOLD" in ''|*[!0-9]*) THRESHOLD=5 ;; esac
case "$GRACE_SECS" in ''|*[!0-9]*) GRACE_SECS=180 ;; esac
[ "$THRESHOLD" -lt 1 ] && THRESHOLD=1
[ "$THRESHOLD" -gt 30 ] && THRESHOLD=30

# 시스템 배터리만 대상(scope=Device 인 무선 마우스 등 주변기기 배터리 제외)
bats=""
ac_online=0
for d in "$PSU_ROOT"/*; do
  [ -r "$d/type" ] || continue
  case "$(cat "$d/type")" in
    Battery)
      if [ -r "$d/scope" ] && [ "$(cat "$d/scope")" != "System" ]; then continue; fi
      bats="$bats $d"
      ;;
    Mains)
      [ "$(cat "$d/online" 2>/dev/null)" = "1" ] && ac_online=1
      ;;
  esac
done

[ -n "$bats" ] || { echo "SKIP no-battery"; exit 0; }
[ "$ac_online" = 1 ] && { echo "SKIP on-ac"; exit 0; }

sum=0
n=0
for d in $bats; do
  [ "$(cat "$d/status" 2>/dev/null)" = "Discharging" ] || { echo "SKIP not-discharging"; exit 0; }
  c="$(cat "$d/capacity" 2>/dev/null)"
  case "$c" in ''|*[!0-9]*) echo "SKIP no-capacity"; exit 0 ;; esac
  sum=$((sum + c))
  n=$((n + 1))
done
cap=$((sum / n))
[ "$cap" -gt "$THRESHOLD" ] && { echo "OK ${cap}%"; exit 0; }

# 복귀 직후 유예: 없으면 1분 뒤 다시 잠들어 저장·충전기 연결을 할 수 없다
resumed="$(cat "$STATE_DIR/popmgr-battery-guard.resumed" 2>/dev/null)"
case "$resumed" in ''|*[!0-9]*) resumed=0 ;; esac
if [ "$resumed" -gt $((NOW - GRACE_SECS)) ]; then echo "SKIP grace"; exit 0; fi

if [ "$DRY_RUN" = 1 ]; then echo "WOULD_SUSPEND ${cap}%"; exit 0; fi
logger -t popmgr-battery-guard "battery ${cap}% <= ${THRESHOLD}% -> suspend" 2>/dev/null
# 복귀 훅이 실패해도 유예가 동작하도록 절전 직전에 기록
echo "$NOW" > "$STATE_DIR/popmgr-battery-guard.resumed"
# -i: 억제(절전 방지) 무시 — 여기서 안 자면 곧 UPower 가 전원을 끈다
systemctl suspend -i
echo "SUSPEND ${cap}%"
"#;

/// Records the resume time so that the guard does not suspend again at once.
pub const GUARD_HOOK: &'static str = r#"#!/bin/sh
# popmgr-battery-guard-hook: v1
# 복귀 시각을 기록해 battery-guard 가 복귀 직후 다시 절전하지 않게 한다.
[ "$1" = "post" ] || exit 0
date +%s > /run/popmgr-battery-guard.resumed
"#;

pub const GUARD_SERVICE: &'static str = "[Unit]
Description=popmgr battery guard (suspend before critical power-off)

[Service]
Type=oneshot
ExecStart=/usr/local/lib/popmgr/battery-guard.sh
";

/// Runs the guard every minute.
pub const GUARD_TIMER_UNIT: &'static str = "[Unit]
Description=popmgr battery guard check every minute

[Timer]
OnBootSec=1min
OnUnitActiveSec=1min
AccuracySec=15s

[Install]
WantedBy=timers.target
";


/// Stops the timer and removes every file of the guard.
pub const GUARD_UNINSTALL_SCRIPT: &'static str = "systemctl disable --now popmgr-battery-guard.timer 2>/dev/null; rm -f /usr/local/lib/popmgr/battery-guard.sh /etc/popmgr/battery-guard.conf /etc/systemd/system/popmgr-battery-guard.service /etc/systemd/system/popmgr-battery-guard.timer /etc/systemd/system-sleep/zz-popmgr-battery-guard; rm -f /run/popmgr-battery-guard.resumed; systemctl daemon-reload";

/// The report once the guard was removed.
pub const GUARD_OFF_MESSAGE: &'static str = "배터리 자동 절전 꺼짐";

/// How far the battery guard is installed.
#[derive(Debug, Clone, Copy, PartialEq, Eq, Structural)]
pub enum GuardState {
    Missing,
    /// The files are there, but of an older version or with the timer off.
    Inactive,
    Active,
}

#[derive(Debug, Clone)]
pub struct GuardStatus {
    pub state: GuardState,
    pub threshold: Option<u32>,
    pub battery: String,
}

// ---------------------------------------------------------------- inputs

pub open spec fn is_ascii_digit(c: char) -> bool {
    '0' <= c && c <= '9'
}

/// The ASCII digits of `s`, in order.
pub open spec fn ascii_digits(s: Seq<char>) -> Seq<char>
    decreases s.len(),
{
    if s.len() == 0 {
        seq![]
    } else if is_ascii_digit(s.last()) {
        ascii_digits(s.drop_last()).push(s.last())
    } else {
        ascii_digits(s.drop_last())
    }
}

/// The first `n` ASCII digits of `s`.
pub open spec fn first_digits(s: Seq<char>, n: nat) -> Seq<char> {
    let d = ascii_digits(s);
    if d.len() <= n { d } else { d.take(n as int) }
}

/// The first `n` ASCII digits of `s`, as an input box keeps them.
pub fn keep_digits(s: &str, n: usize) -> (r: String)
    ensures
        r@ == first_digits(s@, n as nat),
{
    let c = chars_of(s);
    let mut d: Vec<char> = Vec::new();
    let mut i: usize = 0;
    while i < c.len()
        invariant
            i <= c.len(),
            d@ == ascii_digits(c@.take(i as int)),
        decreases c.len() - i,
    {
        assert(c@.take(i + 1).drop_last() =~= c@.take(i as int));
        if '0' <= c[i] && c[i] <= '9' {
            d.push(c[i]);
        }
        i += 1;
    }
    assert(c@.take(c.len() as int) =~= c@);
    if d.len() <= n {
        string_of(d)
    } else {
        to_string(crate::text::subseq(d.as_slice(), 0, n).as_slice())
    }
}

pub open spec fn spec_parse_threshold(s: Seq<char>) -> u32 {
    let d = ascii_digits(s);
    if d.len() == 0 {
        DEFAULT_THRESHOLD
    } else {
        let v = digits_value(d);
        if v < 1 { 1 } else if v > 30 { 30 } else { v as u32 }
    }
}

/// The value of a digit string, capped at 31: enough to clamp to 1..=30.
pub open spec fn capped_value(d: Seq<char>) -> nat {
    let v = digits_value(d);
    if v > 31 { 31 } else { v }
}

/// The threshold typed in: its digits as a number clamped to 1..=30, or the
/// default when there are no digits.
pub fn parse_threshold(s: &str) -> (r: u32)
    ensures
        r == spec_parse_threshold(s@),
        1 <= r <= 30,
{
    let c = chars_of(s);
    let mut any = false;
    let mut v: u32 = 0;
    let mut i: usize = 0;
    while i < c.len()
        invariant
            i <= c.len(),
            any == (ascii_digits(c@.take(i as int)).len() > 0),
            v == capped_value(ascii_digits(c@.take(i as int))),
        decreases c.len() - i,
    {
        let ghost d = ascii_digits(c@.take(i as int));
        assert(c@.take(i + 1).drop_last() =~= c@.take(i as int));
        assert(c@.take(i + 1).last() == c@[i as int]);
        if '0' <= c[i] && c[i] <= '9' {
            let k: u32 = (c[i] as u32) - ('0' as u32);
            assert(d.push(c@[i as int]).drop_last() =~= d);
            assert(digits_value(d.push(c@[i as int])) == digits_value(d) * 10 + k);
            let w: u32 = v * 10 + k;
            v = if w > 31 { 31 } else { w };
            any = true;
        }
        i += 1;
    }
    assert(c@.take(c.len() as int) =~= c@);
    if !any {
        DEFAULT_THRESHOLD
    } else if v < 1 {
        1
    } else if v > 30 {
        30
    } else {
        v
    }
}

/// The value of the first `THRESHOLD=` line of the guard's configuration.
pub open spec fn conf_threshold_of(ls: Seq<Seq<char>>) -> Option<u32>
    decreases ls.len(),
{
    if ls.len() == 0 {
        None
    } else if starts_with(trim(ls[0]), "THRESHOLD="@) {
        parse_u32(trim(trim(ls[0]).skip(10)))
    } else {
        conf_threshold_of(ls.drop_first())
    }
}

pub fn parse_conf_threshold(conf: &str) -> (r: Option<u32>)
    ensures
        r == conf_threshold_of(lines(conf@)),
{
    let ls = lines_of(conf);
    let ghost lv = ls.deep_view();
    let mut i: usize = 0;
    assert(lv.skip(0) =~= lv);
    while i < ls.len()
        invariant
            i <= ls.len(),
            lv == ls.deep_view(),
            lv == lines(conf@),
            conf_threshold_of(lv.skip(i as int)) == conf_threshold_of(lv),
        decreases ls.len() - i,
    {
        proof { lemma_deep_view_chars(&ls[i as int]); reveal_strlit("THRESHOLD="); }
        assert(lv.skip(i as int).drop_first() =~= lv.skip(i + 1));
        assert(lv.skip(i as int)[0] == ls@[i as int]@);
        let t = trim_exec(ls[i].as_slice());
        match crate::text::strip_prefix_str(t.as_slice(), "THRESHOLD=") {
            Some(v) => {
                return crate::text::parse_u32_exec(trim_exec(v.as_slice()).as_slice());
            },
            None => {},
        }
        i += 1;
    }
    None
}

// ---------------------------------------------------------------- reports

pub open spec fn spec_describe_msg(line: Seq<char>) -> Seq<char> {
    let w = if words(line).len() > 0 { words(line)[0] } else { seq![] };
    if w == "OK"@ {
        "잔량 충분 — 절전 안 함"@
    } else if w == "WOULD_SUSPEND"@ {
        "지금 조건이면 절전함"@
    } else if w == "SKIP"@ {
        if contains(line, "on-ac"@) || contains(line, "not-discharging"@) {
            "전원 연결 중 — 절전 안 함"@
        } else if contains(line, "grace"@) {
            "복귀 직후 유예 중 — 절전 안 함"@
        } else {
            "배터리 정보 없음 — 절전 안 함"@
        }
    } else {
        "알 수 없는 결과"@
    }
}

pub open spec fn spec_describe(line: Seq<char>) -> Seq<char> {
    spec_describe_msg(line) + " ("@ + line + ")"@
}

/// The guard's verdict line in words, followed by the line itself.
pub fn describe(line: &str) -> (r: String)
    ensures
        r@ == spec_describe(line@),
{
    let c = chars_of(line);
    let ws = crate::text::words_exec(c.as_slice());
    let w: Vec<char> = if ws.len() > 0 {
        proof { lemma_deep_view_chars(&ws[0]); }
        crate::text::subseq(ws[0].as_slice(), 0, ws[0].len())
    } else {
        Vec::new()
    };
    assert(w@ =~= (if words(line@).len() > 0 { words(line@)[0] } else { seq![] }));
    let msg: &str = if eq_str(w.as_slice(), "OK") {
        "잔량 충분 — 절전 안 함"
    } else if eq_str(w.as_slice(), "WOULD_SUSPEND") {
        "지금 조건이면 절전함"
    } else if eq_str(w.as_slice(), "SKIP") {
        if crate::text::contains_str(c.as_slice(), "on-ac") || crate::text::contains_str(c.as_slice(), "not-discharging") {
            "전원 연결 중 — 절전 안 함"
        } else if crate::text::contains_str(c.as_slice(), "grace") {
            "복귀 직후 유예 중 — 절전 안 함"
        } else {
            "배터리 정보 없음 — 절전 안 함"
        }
    } else {
        "알 수 없는 결과"
    };
    let mut out = chars_of(msg);
    extend_str(&mut out, " (");
    extend(&mut out, c.as_slice());
    extend_str(&mut out, ")");
    string_of(out)
}

pub open spec fn spec_check_report(line: Seq<char>) -> Seq<char> {
    "배터리 가드 점검: "@ + spec_describe(line)
}

/// The report of a dry run of the guard.
pub fn check_report(line: &str) -> (r: String)
    ensures
        r@ == spec_check_report(line@),
{
    let mut out = chars_of("배터리 가드 점검: ");
    let d = describe(line);
    extend(&mut out, chars_of_string(&d).as_slice());
    string_of(out)
}

pub open spec fn spec_guard_state(script: Option<Seq<char>>, enabled_output: Seq<char>) -> GuardState {
    match script {
        None => GuardState::Missing,
        Some(s) => if contains(s, GUARD_MARKER@) && trim(enabled_output) == "enabled"@ {
            GuardState::Active
        } else {
            GuardState::Inactive
        },
    }
}

/// The guard is active when its current script is installed and its timer enabled.
pub fn guard_state(script: Option<&str>, enabled_output: &str) -> (r: GuardState)
    ensures
        r == spec_guard_state(match script { Some(s) => Some(s@), None => None }, enabled_output@),
{
    match script {
        None => GuardState::Missing,
        Some(s) => {
            let c = chars_of(s);
            let e = trim_exec(chars_of(enabled_output).as_slice());
            if crate::text::contains_str(c.as_slice(), GUARD_MARKER) && eq_str(e.as_slice(), "enabled") {
                GuardState::Active
            } else {
                GuardState::Inactive
            }
        },
    }
}

/// Whether a power supply is a system battery (peripherals such as a
/// wireless mouse report another scope).
pub fn is_system_battery(kind: &str, scope: &str) -> (r: bool)
    ensures
        r == (trim(kind@) == "Battery"@ && (scope@.len() == 0 || trim(scope@) == "System"@)),
{
    let k = trim_exec(chars_of(kind).as_slice());
    if !eq_str(k.as_slice(), "Battery") {
        return false;
    }
    let sc = chars_of(scope);
    sc.len() == 0 || eq_str(trim_exec(sc.as_slice()).as_slice(), "System")
}

pub open spec fn spec_status_label(status: Seq<char>) -> Seq<char> {
    if status == "Charging"@ {
        "충전 중"@
    } else if status == "Discharging"@ {
        "배터리 사용 중"@
    } else if status == "Full"@ {
        "완충"@
    } else if status == "Not charging"@ {
        "충전 안 함(전원 연결)"@
    } else {
        status
    }
}

pub open spec fn spec_battery_line(capacity: Seq<char>, status: Seq<char>) -> Seq<char> {
    "현재 배터리 "@ + trim(capacity) + "% · "@ + spec_status_label(trim(status))
}

/// `현재 배터리 14% · 충전 중` from a battery's capacity and status files.
pub fn battery_line(capacity: &str, status: &str) -> (r: String)
    ensures
        r@ == spec_battery_line(capacity@, status@),
{
    let st = trim_exec(chars_of(status).as_slice());
    let mut out = chars_of("현재 배터리 ");
    extend(&mut out, trim_exec(chars_of(capacity).as_slice()).as_slice());
    extend_str(&mut out, "% · ");
    if eq_str(st.as_slice(), "Charging") {
        extend_str(&mut out, "충전 중");
    } else if eq_str(st.as_slice(), "Discharging") {
        extend_str(&mut out, "배터리 사용 중");
    } else if eq_str(st.as_slice(), "Full") {
        extend_str(&mut out, "완충");
    } else if eq_str(st.as_slice(), "Not charging") {
        extend_str(&mut out, "충전 안 함(전원 연결)");
    } else {
        extend(&mut out, st.as_slice());
    }
    string_of(out)
}

pub open spec fn spec_guard_conf(threshold: u32) -> Seq<char> {
    "THRESHOLD="@ + decimal(threshold as nat) + "\nGRACE_SECS=180\n"@
}

/// The guard's configuration file.
pub fn guard_conf(threshold: u32) -> (r: String)
    ensures
        r@ == spec_guard_conf(threshold),
{
    let mut out = chars_of("THRESHOLD=");
    push_decimal(&mut out, threshold as u64);
    extend_str(&mut out, "\nGRACE_SECS=180\n");
    string_of(out)
}

pub open spec fn spec_guard_install_script(t: Seq<char>) -> Seq<char> {
    "set -e; install -D -m 755 -o root -g root "@ + t + "/battery-guard.sh "@ + GUARD_SCRIPT_PATH@
        + "; install -D -m 644 -o root -g root "@ + t + "/battery-guard.conf "@ + GUARD_CONF_PATH@
        + "; install -D -m 644 -o root -g root "@ + t + "/guard.service "@ + GUARD_SERVICE_PATH@
        + "; install -D -m 644 -o root -g root "@ + t + "/guard.timer "@ + GUARD_TIMER_PATH@
        + "; install -D -m 755 -o root -g root "@ + t + "/guard-hook "@ + GUARD_HOOK_PATH@
        + "; systemctl daemon-reload; systemctl enable --now "@ + GUARD_TIMER@
}

/// Installs the files staged in directory `t` as root and starts the timer.
pub fn guard_install_script(t: &str) -> (r: String)
    ensures
        r@ == spec_guard_install_script(t@),
{
    let mut o = chars_of("set -e; install -D -m 755 -o root -g root ");
    extend_str(&mut o, t);
    extend_str(&mut o, "/battery-guard.sh ");
    extend_str(&mut o, GUARD_SCRIPT_PATH);
    extend_str(&mut o, "; install -D -m 644 -o root -g root ");
    extend_str(&mut o, t);
    extend_str(&mut o, "/battery-guard.conf ");
    extend_str(&mut o, GUARD_CONF_PATH);
    extend_str(&mut o, "; install -D -m 644 -o root -g root ");
    extend_str(&mut o, t);
    extend_str(&mut o, "/guard.service ");
    extend_str(&mut o, GUARD_SERVICE_PATH);
    extend_str(&mut o, "; install -D -m 644 -o root -g root ");
    extend_str(&mut o, t);
    extend_str(&mut o, "/guard.timer ");
    extend_str(&mut o, GUARD_TIMER_PATH);
    extend_str(&mut o, "; install -D -m 755 -o root -g root ");
    extend_str(&mut o, t);
    extend_str(&mut o, "/guard-hook ");
    extend_str(&mut o, GUARD_HOOK_PATH);
    extend_str(&mut o, "; systemctl daemon-reload; systemctl enable --now ");
    extend_str(&mut o, GUARD_TIMER);
    string_of(o)
}

pub open spec fn spec_guard_installed_message(threshold: u32) -> Seq<char> {
    "배터리 자동 절전 켜짐: 방전 중 "@ + decimal(threshold as nat) + "% 이하에서 절전합니다 (1분마다 점검)."@
}

pub fn guard_installed_message(threshold: u32) -> (r: String)
    ensures
        r@ == spec_guard_installed_message(threshold),
{
    let mut o = chars_of("배터리 자동 절전 켜짐: 방전 중 ");
    push_decimal(&mut o, threshold as u64);
    extend_str(&mut o, "% 이하에서 절전합니다 (1분마다 점검).");
    string_of(o)
}

pub open spec fn spec_suspend_script() -> Seq<char> {
    "systemctl suspend && echo '절전모드에서 복귀했습니다'"@
}

/// The session user asks for suspend (normally without pkexec).
pub fn suspend_script() -> (r: String)
    ensures
        r@ == spec_suspend_script(),
{
    string_of(chars_of("systemctl suspend && echo '절전모드에서 복귀했습니다'"))
}

pub open spec fn spec_inhibit_args() -> Seq<Seq<char>> {
    seq![
        "--what=sleep:idle"@, "--who=popmgr"@, "--why=사용자 요청으로 절전 방지"@, "--mode=block"@,
        "sleep"@, decimal(MAX_INHIBIT_SECS as nat),
    ]
}

/// The `systemd-inhibit` arguments that block sleep for at most
/// `MAX_INHIBIT_SECS` seconds.
pub fn inhibit_args() -> (r: Vec<String>)
    ensures
        r@.map_values(|s: String| s@) == spec_inhibit_args(),
{
    let mut secs: Vec<char> = Vec::new();
    push_decimal(&mut secs, MAX_INHIBIT_SECS);
    let r = vec![
        string_of(chars_of("--what=sleep:idle")),
        string_of(chars_of("--who=popmgr")),
        string_of(chars_of("--why=사용자 요청으로 절전 방지")),
        string_of(chars_of("--mode=block")),
        string_of(chars_of("sleep")),
        string_of(secs),
    ];
    assert(r@.map_values(|s: String| s@) =~= spec_inhibit_args());
    r
}

// ---------------------------------------------------------------- the tab

#[derive(Debug, Clone)]
pub enum PowerMsg {
    SuspendNow,
    ToggleInhibit,
    MinutesChanged(String),
    Schedule,
    CancelSchedule,
    Tick,
    Applied(CmdResult),
    GuardRefresh,
    GuardScanned(GuardStatus),
    ThresholdChanged(String),
    GuardInstall,
    GuardUninstall,
    GuardCheck,
    GuardDone(CmdResult),
}

/// The outside work that an event asks for.
#[derive(Debug)]
pub enum PowerAction {
    Idle,
    /// Run the script; answer `Applied`.
    RunSh(String),
    /// Start `systemd-inhibit` with `inhibit_args` and report with `inhibit_spawned`.
    StartInhibit,
    /// Stop the running inhibitor.
    StopInhibit,
    /// Arm the suspend timer for so many minutes from now.
    ArmSchedule(u32),
    /// Drop the suspend timer.
    DisarmSchedule,
    /// Read the guard's state; answer `GuardScanned`.
    ScanGuard,
    /// Stage and install the guard with the threshold; answer `GuardDone`.
    InstallGuard(u32),
    /// Run `GUARD_UNINSTALL_SCRIPT` as root; answer `GuardDone`.
    UninstallGuard,
    /// Dry-run the installed guard (or the built-in script); answer `GuardDone`.
    CheckGuard(bool),
}

/// The power tab.  The inhibitor process and the timer's deadline live with
/// the application; this state knows whether they are on.
pub struct PowerState {
    pub running: Option<String>,
    pub inhibit_active: bool,
    pub minutes_input: String,
    pub scheduled: bool,
    pub schedule_minutes: u32,
    pub guard: Option<GuardStatus>,
    pub threshold_input: String,
}

pub open spec fn spec_inhibit_on_message() -> Seq<char> {
    "절전 방지 켜짐 (최대 "@ + decimal((MAX_INHIBIT_SECS / 3600) as nat) + "시간, 앱 종료 또는 다시 누르면 해제)"@
}

/// The fields an event may change; every other field of the tab stays as it was.
pub open spec fn power_frame(a: PowerState, b: PowerState, msg: PowerMsg) -> bool {
    let running = msg is SuspendNow || msg is Tick || msg is Applied || msg is GuardInstall
        || msg is GuardUninstall || msg is GuardDone;
    let scheduled = msg is Schedule || msg is CancelSchedule || msg is Tick;
    let threshold = msg is GuardScanned || msg is ThresholdChanged || msg is GuardInstall;
    &&& running || b.running == a.running
    &&& msg is ToggleInhibit || b.inhibit_active == a.inhibit_active
    &&& msg is MinutesChanged || b.minutes_input == a.minutes_input
    &&& scheduled || b.scheduled == a.scheduled
    &&& msg is Schedule || b.schedule_minutes == a.schedule_minutes
    &&& msg is GuardScanned || b.guard == a.guard
    &&& threshold || b.threshold_input == a.threshold_input
}

impl PowerState {
    pub fn new() -> (s: Self)
        ensures
            s.running is None && !s.inhibit_active && s.minutes_input@.len() == 0,
            !s.scheduled && s.schedule_minutes == 0 && s.guard is None && s.threshold_input@.len() == 0,
    {
        PowerState {
            running: None,
            inhibit_active: false,
            minutes_input: String::new(),
            scheduled: false,
            schedule_minutes: 0,
            guard: None,
            threshold_input: String::new(),
        }
    }

    pub fn has_schedule(&self) -> (r: bool)
        ensures
            r == self.scheduled,
    {
        self.scheduled
    }

    /// The report once `systemd-inhibit` was started (or failed to start).
    pub fn inhibit_spawned(&mut self, error: Option<String>) -> (r: CmdResult)
        ensures
            final(self).inhibit_active == (error is None),
            final(self).running == old(self).running && final(self).scheduled == old(self).scheduled,
            final(self).guard == old(self).guard,
            match error {
                None => r.success && r.output@ == spec_inhibit_on_message(),
                Some(e) => !r.success && r.output@ == "systemd-inhibit 실행 실패: "@ + e@,
            },
    {
        match error {
            None => {
                self.inhibit_active = true;
                let mut o = chars_of("절전 방지 켜짐 (최대 ");
                push_decimal(&mut o, MAX_INHIBIT_SECS / 3600);
                extend_str(&mut o, "시간, 앱 종료 또는 다시 누르면 해제)");
                CmdResult { success: true, output: string_of(o) }
            },
            Some(e) => {
                self.inhibit_active = false;
                let mut o = chars_of("systemd-inhibit 실행 실패: ");
                extend(&mut o, chars_of_string(&e).as_slice());
                CmdResult { success: false, output: string_of(o) }
            },
        }
    }

    /// The next state and the work to do for an event.  `deadline_passed`
    /// says, for `Tick`, whether the armed timer has run out.
    pub fn update(&mut self, msg: PowerMsg, deadline_passed: bool) -> (r: (PowerAction, Option<CmdResult>))
        ensures
            power_frame(*old(self), *final(self), msg),
            match msg {
                PowerMsg::SuspendNow => r.1 is None && (r.0 matches PowerAction::RunSh(sc) && sc@ == spec_suspend_script())
                    && opt_view(final(self).running) == Some("절전모드 진입 중..."@)
                    && final(self).scheduled == old(self).scheduled,
                PowerMsg::ToggleInhibit => if old(self).inhibit_active {
                    &&& r.0 is StopInhibit && !final(self).inhibit_active
                    &&& r.1 matches Some(res) && res.success && res.output@ == "절전 방지 해제됨"@
                } else {
                    r.0 is StartInhibit && r.1 is None && !final(self).inhibit_active
                },
                PowerMsg::MinutesChanged(t) => r.0 is Idle && r.1 is None
                    && final(self).minutes_input@ == first_digits(t@, 4),
                PowerMsg::Schedule => match parse_u32(old(self).minutes_input@) {
                    None => r.0 is Idle && final(self).scheduled == old(self).scheduled
                        && final(self).schedule_minutes == old(self).schedule_minutes
                        && (r.1 matches Some(res) && !res.success && res.output@ == "분(숫자)을 입력하세요"@),
                    Some(m) => if m == 0 {
                        r.0 is Idle && final(self).scheduled == old(self).scheduled
                            && final(self).schedule_minutes == old(self).schedule_minutes
                            && (r.1 matches Some(res) && !res.success && res.output@ == "1분 이상 입력하세요"@)
                    } else {
                        &&& r.0 matches PowerAction::ArmSchedule(mm) && mm == m
                        &&& final(self).scheduled && final(self).schedule_minutes == m
                        &&& r.1 matches Some(res) && res.success && res.output@ == decimal(m as nat) + "분 후 절전모드 예약됨"@
                    },
                },
                PowerMsg::CancelSchedule => r.0 is DisarmSchedule && !final(self).scheduled
                    && (r.1 matches Some(res) && res.success && res.output@ == "절전모드 예약 취소됨"@),
                PowerMsg::Tick => if old(self).scheduled && deadline_passed {
                    &&& !final(self).scheduled && r.1 is None
                    &&& opt_view(final(self).running) == Some("예약된 절전모드 진입 중..."@)
                    &&& r.0 matches PowerAction::RunSh(sc) && sc@ == spec_suspend_script()
                } else {
                    r.0 is Idle && r.1 is None && final(self).scheduled == old(self).scheduled
                        && final(self).running == old(self).running
                },
                PowerMsg::Applied(res) => r.0 is Idle && r.1 == Some(res) && final(self).running is None,
                PowerMsg::GuardRefresh => r.0 is ScanGuard && r.1 is None,
                PowerMsg::GuardScanned(st) => {
                    &&& r.0 is Idle && r.1 is None && final(self).guard == Some(st)
                    &&& final(self).threshold_input@ == (if old(self).threshold_input@.len() == 0 {
                        match st.threshold {
                            Some(t) => decimal(t as nat),
                            None => old(self).threshold_input@,
                        }
                    } else {
                        old(self).threshold_input@
                    })
                },
                PowerMsg::ThresholdChanged(t) => r.0 is Idle && r.1 is None
                    && final(self).threshold_input@ == first_digits(t@, 2),
                PowerMsg::GuardInstall => {
                    &&& r.1 is None
                    &&& r.0 matches PowerAction::InstallGuard(th) && th == spec_parse_threshold(old(self).threshold_input@)
                    &&& final(self).threshold_input@ == decimal(spec_parse_threshold(old(self).threshold_input@) as nat)
                    &&& opt_view(final(self).running) == Some("배터리 자동 절전 설치 중 (비밀번호 확인)..."@)
                },
                PowerMsg::GuardUninstall => r.0 is UninstallGuard && r.1 is None
                    && opt_view(final(self).running) == Some("배터리 자동 절전 제거 중 (비밀번호 확인)..."@),
                PowerMsg::GuardCheck => r.1 is None && r.0 == PowerAction::CheckGuard(match old(self).guard {
                    Some(g) => g.state != GuardState::Missing,
                    None => false,
                }),
                PowerMsg::GuardDone(res) => r.0 is ScanGuard && r.1 == Some(res) && final(self).running is None,
            },
    {
        match msg {
            PowerMsg::SuspendNow => {
                self.running = Some(string_of(chars_of("절전모드 진입 중...")));
                (PowerAction::RunSh(suspend_script()), None)
            },
            PowerMsg::ToggleInhibit => {
                if self.inhibit_active {
                    self.inhibit_active = false;
                    (PowerAction::StopInhibit, Some(CmdResult { success: true, output: string_of(chars_of("절전 방지 해제됨")) }))
                } else {
                    (PowerAction::StartInhibit, None)
                }
            },
            PowerMsg::MinutesChanged(t) => {
                self.minutes_input = keep_digits(t.as_str(), 4);
                (PowerAction::Idle, None)
            },
            PowerMsg::Schedule => {
                let mins = match crate::text::parse_u32_exec(chars_of_string(&self.minutes_input).as_slice()) {
                    None => {
                        return (PowerAction::Idle, Some(CmdResult { success: false, output: string_of(chars_of("분(숫자)을 입력하세요")) }));
                    },
                    Some(m) => m,
                };
                if mins == 0 {
                    return (PowerAction::Idle, Some(CmdResult { success: false, output: string_of(chars_of("1분 이상 입력하세요")) }));
                }
                self.scheduled = true;
                self.schedule_minutes = mins;
                let mut o: Vec<char> = Vec::new();
                push_decimal(&mut o, mins as u64);
                extend_str(&mut o, "분 후 절전모드 예약됨");
                (PowerAction::ArmSchedule(mins), Some(CmdResult { success: true, output: string_of(o) }))
            },
            PowerMsg::CancelSchedule => {
                self.scheduled = false;
                (PowerAction::DisarmSchedule, Some(CmdResult { success: true, output: string_of(chars_of("절전모드 예약 취소됨")) }))
            },
            PowerMsg::Tick => {
                if self.scheduled && deadline_passed {
                    self.scheduled = false;
                    self.running = Some(string_of(chars_of("예약된 절전모드 진입 중...")));
                    return (PowerAction::RunSh(suspend_script()), None);
                }
                (PowerAction::Idle, None)
            },
            PowerMsg::Applied(res) => {
                self.running = None;
                (PowerAction::Idle, Some(res))
            },
            PowerMsg::GuardRefresh => (PowerAction::ScanGuard, None),
            PowerMsg::GuardScanned(st) => {
                if self.threshold_input.unicode_len() == 0 {
                    match st.threshold {
                        Some(t) => {
                            let mut o: Vec<char> = Vec::new();
                            push_decimal(&mut o, t as u64);
                            self.threshold_input = string_of(o);
                        },
                        None => {},
                    }
                }
                self.guard = Some(st);
                (PowerAction::Idle, None)
            },
            PowerMsg::ThresholdChanged(t) => {
                self.threshold_input = keep_digits(t.as_str(), 2);
                (PowerAction::Idle, None)
            },
            PowerMsg::GuardInstall => {
                let th = parse_threshold(self.threshold_input.as_str());
                let mut o: Vec<char> = Vec::new();
                push_decimal(&mut o, th as u64);
                self.threshold_input = string_of(o);
                self.running = Some(string_of(chars_of("배터리 자동 절전 설치 중 (비밀번호 확인)...")));
                (PowerAction::InstallGuard(th), None)
            },
            PowerMsg::GuardUninstall => {
                self.running = Some(string_of(chars_of("배터리 자동 절전 제거 중 (비밀번호 확인)...")));
                (PowerAction::UninstallGuard, None)
            },
            PowerMsg::GuardCheck => {
                let installed = match &self.guard {
                    Some(g) => g.state != GuardState::Missing,
                    None => false,
                };
                (PowerAction::CheckGuard(installed), None)
            },
            PowerMsg::GuardDone(res) => {
                self.running = None;
                (PowerAction::ScanGuard, Some(res))
            },
        }
    }
}

} // verus!
