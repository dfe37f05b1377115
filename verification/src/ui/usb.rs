//! USB and Bluetooth input devices: the device list, failed ports, the
//! trackball daemon's helper, and Bluetooth HID pairing.

use vstd::prelude::*;
use crate::text::{
    ascii_lower, chars_of, chars_of_string, contains, decimal, decimal_padded, ends_with, eq,
    eq_str, extend, extend_str, find, join, join_str, lemma_deep_view_chars, lines, lines_of,
    parse_i32, parse_u32, push_decimal, push_decimal_padded, push_piece, starts_with,
    strip_trail_char, string_of, subseq, to_string, trim, trim_exec, trim_start, words,
};
use crate::ui::ime_shell::spec_shell_quote;
use crate::ui::monitor::{base64, utf8};

verus! {

/// The root helper, reached only through its NOPASSWD sudoers entry: it
/// checks its arguments and does only the listed jobs.
pub const HELPER_SCRIPT: &'static str = r#"#!/bin/bash
# popmgr 전용 root 헬퍼 (NOPASSWD). 인자를 엄격히 검증하고 정해진 작업만 수행.
set -euo pipefail
MAPPER=/opt/ktrackball/trackball_mapper.py
CONF=/etc/ktrackball/config.toml
ENVF=/etc/environment

case "${1:-}" in
  set-trackball-speed)
    f="${2:-}"
    [[ "$f" =~ ^[0-9]+(\.[0-9]+)?$ ]] || { echo "잘못된 배율"; exit 2; }
    awk "BEGIN{exit !($f>=1.0 && $f<=3.0)}" || { echo "배율 범위(1.0~3.0) 벗어남"; exit 2; }
    [ -f "$MAPPER" ] || { echo "데몬 없음: $MAPPER"; exit 1; }
    [ -f "$CONF" ] || { echo "설정 없음: $CONF"; exit 1; }
    [ -f "${MAPPER}.bak" ] || cp -a "$MAPPER" "${MAPPER}.bak"
    if ! grep -q speed_factor "$MAPPER"; then
      python3 - "$MAPPER" <<'PY'
import sys, io
p = sys.argv[1]
s = io.open(p, encoding="utf-8").read()
a = 'self.precision_factor = float(data.get("precision_factor", 0.35))'
s = s.replace(a, a + '\n        self.speed_factor = float(data.get("speed_factor", 1.0))', 1)
a = 'self._prec_acc_y = 0.0'
s = s.replace(a, a + '\n        self._spd_acc_x = 0.0\n        self._spd_acc_y = 0.0', 1)
old = "        else:\n            for code, val in self._pending_rel:\n                ui.write(e.EV_REL, code, val)\n            ui.syn()\n"
new = "        else:\n            f = self.cfg.speed_factor\n            if f == 1.0:\n                for code, val in self._pending_rel:\n                    ui.write(e.EV_REL, code, val)\n                ui.syn()\n            else:\n                emitted = False\n                for code, val in self._pending_rel:\n                    if code == e.REL_X:\n                        self._spd_acc_x += val * f\n                        out = int(self._spd_acc_x)\n                        self._spd_acc_x -= out\n                    elif code == e.REL_Y:\n                        self._spd_acc_y += val * f\n                        out = int(self._spd_acc_y)\n                        self._spd_acc_y -= out\n                    else:\n                        out = val\n                    if out:\n                        ui.write(e.EV_REL, code, out)\n                        emitted = True\n                if emitted:\n                    ui.syn()\n"
assert old in s, "flush block not found"
s = s.replace(old, new, 1)
io.open(p, "w", encoding="utf-8").write(s)
import py_compile
py_compile.compile(p, doraise=True)
PY
    fi
    if grep -qE '^[[:space:]]*speed_factor' "$CONF"; then
      sed -i -E "s|^[[:space:]]*speed_factor[[:space:]]*=.*|speed_factor = $f|" "$CONF"
    else
      sed -i "0,/^\[/{/^\[/i speed_factor = $f
}" "$CONF"
    fi
    systemctl restart ktrackball.service
    echo "트랙볼 배율 $f 적용"
    ;;
  set-cursor-size)
    n="${2:-}"
    { [[ "$n" =~ ^[0-9]+$ ]] && [ "$n" -ge 16 ] && [ "$n" -le 128 ]; } || { echo "잘못된 크기(16~128)"; exit 2; }
    if grep -qE '^[[:space:]]*XCURSOR_SIZE=' "$ENVF"; then
      sed -i -E "s|^[[:space:]]*XCURSOR_SIZE=.*|XCURSOR_SIZE=$n|" "$ENVF"
    else
      echo "XCURSOR_SIZE=$n" >> "$ENVF"
    fi
    echo "커서 크기 $n 적용(재로그인 필요)"
    ;;
  restart-ktrackball)
    systemctl restart ktrackball.service
    echo "ktrackball 재시작"
    ;;
  sync-trackball-match)
    # 블루투스로 연결하면 장치 이름이 바뀐다(동글: "Kensington Expert Wireless TB Mouse",
    # BT: "ExpertBT5.0 Mouse"). device_match 에 BT 이름이 없으면 데몬이 장치를 못 찾고
    # 종료되어 speed_factor·버튼매핑이 전부 무효가 된다. 누락된 패턴만 덧붙인다.
    [ -f "$CONF" ] || { echo "설정 없음: $CONF"; exit 1; }
    changed=0
    for pat in ExpertBT SlimbladeBT; do
      grep -q "\"$pat\"" "$CONF" && continue
      if grep -qE '^[[:space:]]*device_match[[:space:]]*=' "$CONF"; then
        sed -i -E "s|^([[:space:]]*device_match[[:space:]]*=[[:space:]]*\[)|\1\"$pat\", |" "$CONF"
        changed=1
      fi
    done
    if [ "$changed" -eq 1 ]; then
      systemctl restart ktrackball.service
      echo "device_match 에 블루투스 장치 이름을 추가하고 ktrackball 을 재시작했습니다."
      grep -E '^[[:space:]]*device_match' "$CONF"
    else
      echo "device_match 에 이미 블루투스 이름이 있습니다."
    fi
    ;;
  check)
    echo ok
    ;;
  *)
    echo "알 수 없는 명령: ${1:-}"; exit 1
    ;;
esac
"#;

/// Pairs, trusts and connects a trackball in one bluetoothctl session
/// (separate sessions lose the scan's cache and the pairing stops).
pub const BT_PAIR_SCRIPT: &'static str = r#"
set -u
coproc BTC { stdbuf -oL bluetoothctl 2>&1; }
exec 3>&"${BTC[1]}"
cleanup() { echo "scan off" >&3 2>/dev/null || true; echo "quit" >&3 2>/dev/null || true; }
trap cleanup EXIT

echo "power on" >&3;      sleep 1
echo "agent on" >&3;      sleep 1
echo "default-agent" >&3; sleep 1
echo "scan on" >&3

# HID 후보가 나타날 때까지 최대 45초 대기
MAC=""
for i in $(seq 1 15); do
  sleep 3
  while read -r _ m rest; do
    [ -n "${m:-}" ] || continue
    info=$(bluetoothctl info "$m" 2>/dev/null)
    icon=$(printf '%s\n' "$info" | sed -n 's/^\s*Icon:\s*//p')
    if printf '%s\n' "$info" | grep -q "00001812" \
       || [ "$icon" = "input-mouse" ] \
       || printf '%s\n' "$rest" | grep -qiE "expert|kensington|trackball|slimblade|orbit"; then
      # 이미 연결된 기기는 건너뛴다
      printf '%s\n' "$info" | grep -q "Connected: yes" && continue
      MAC="$m"; NAME="$rest"; break
    fi
  done < <(bluetoothctl devices 2>/dev/null)
  [ -n "$MAC" ] && break
done

if [ -z "$MAC" ]; then
  echo "트랙볼을 찾지 못했습니다."
  echo ""
  echo "Kensington Expert: 상단 버튼 4개를 동시에 3초간 누르면 페어링 모드로 들어갑니다."
  echo "(바닥에 별도 페어링 버튼은 없습니다)"
  echo "페어링 모드로 만든 뒤 다시 눌러주세요."
  exit 1
fi

echo "발견: $NAME ($MAC)"
echo "pair $MAC" >&3;    sleep 12
echo "trust $MAC" >&3;   sleep 3
echo "connect $MAC" >&3; sleep 10

info=$(bluetoothctl info "$MAC" 2>/dev/null)
paired=$(printf '%s\n' "$info" | grep -c "Paired: yes" || true)
conn=$(printf '%s\n'  "$info" | grep -c "Connected: yes" || true)

if [ "$conn" -ge 1 ]; then
  echo "연결 완료: $NAME"
  printf '%s\n' "$info" | grep -E "Name:|Paired:|Trusted:|Connected:"
  # BT 이름은 동글과 다르므로 ktrackball 의 device_match 를 맞춰준다.
  # 이걸 안 하면 데몬이 장치를 못 찾고 죽어 speed_factor·버튼매핑이 전부 무효가 된다.
  if [ -x /usr/local/bin/popmgr-helper ]; then
    echo ""
    sudo -n /usr/local/bin/popmgr-helper sync-trackball-match 2>&1 || \
      echo "(ktrackball 설정 동기화 실패 - USB 탭의 [BT 이름 동기화] 버튼을 눌러주세요)"
  fi
  exit 0
elif [ "$paired" -ge 1 ]; then
  echo "페어링은 됐지만 연결이 안 됐습니다: $NAME"
  echo "목록의 [연결] 버튼을 눌러보세요."
  exit 1
else
  echo "페어링 실패: $NAME"
  echo "페어링 모드(버튼 4개 3초)를 다시 만든 뒤 시도하세요."
  exit 1
fi
"#;

/// Toggles `authorized` of every USB device, so that each really reconnects.
pub const RETRIEVE_ALL_SCRIPT: &'static str = "pkexec bash -c '\
                    set -e; \
                    paths=$(ls -d /sys/bus/usb/devices/*/authorized 2>/dev/null | grep -v /usb[1-9]/authorized); \
                    for p in $paths; do echo 0 > \"$p\" 2>/dev/null || true; done; \
                    sleep 0.5; \
                    for p in $paths; do echo 1 > \"$p\" 2>/dev/null || true; done; \
                    udevadm trigger --subsystem-match=usb; \
                    udevadm settle\
                '";

/// Unbinds and rebinds the xHCI controller.
pub const XHCI_RESET_SCRIPT: &'static str = "pkexec bash -c '\
                    echo 0000:00:14.0 > /sys/bus/pci/drivers/xhci_hcd/unbind && \
                    sleep 2 && \
                    echo 0000:00:14.0 > /sys/bus/pci/drivers/xhci_hcd/bind\
                '";


pub const RESTART_KTRACKBALL_SCRIPT: &'static str = "pkexec systemctl restart ktrackball.service";
pub const BT_SYNC_MATCH_SCRIPT: &'static str = "sudo -n /usr/local/bin/popmgr-helper sync-trackball-match 2>&1";

#[derive(Debug, Clone)]
pub struct UsbDevice {
    pub vid: String,
    pub pid: String,
    pub manufacturer: String,
    pub product: String,
    pub speed: String,
    pub bus: String,
    pub dev: String,
    /// The topology name, e.g. "1-5.1".
    pub sysfs_name: String,
    pub icon: &'static str,
    pub highlight: bool,
}

#[derive(Debug, Clone)]
pub struct UsbFailedPort {
    pub port: String,
}

/// The Bluetooth adapter and the trackballs (HID devices) it knows.
#[derive(Debug, Clone)]
pub struct BtStatus {
    pub powered: bool,
    /// rfkill soft or hard block.
    pub blocked: bool,
    /// Paired or just found HID candidates.
    pub devices: Vec<BtDevice>,
}

#[derive(Debug, Clone)]
pub struct BtDevice {
    pub mac: String,
    pub name: String,
    pub paired: bool,
    pub connected: bool,
    pub trusted: bool,
}

// ---------------------------------------------------------------- Bluetooth card

/// The adapter line of the Bluetooth card.
#[derive(Debug, Clone, Copy, PartialEq, Eq, Structural)]
pub enum BtAdapterState {
    /// rfkill blocks it.
    Blocked,
    On,
    Off,
}

/// How a device is attached.
#[derive(Debug, Clone, Copy, PartialEq, Eq, Structural)]
pub enum BtLink {
    Connected,
    /// Paired but not connected.
    Paired,
    Unpaired,
}

/// One device of the card: its state and the actions it offers.
#[derive(Debug, Clone)]
pub struct BtRow {
    pub name: String,
    pub mac: String,
    pub link: BtLink,
    pub disconnect: bool,
    pub connect: bool,
    pub forget: bool,
}

pub ghost struct BtRowView {
    pub name: Seq<char>,
    pub mac: Seq<char>,
    pub link: BtLink,
    pub disconnect: bool,
    pub connect: bool,
    pub forget: bool,
}

impl View for BtRow {
    type V = BtRowView;

    open spec fn view(&self) -> BtRowView {
        BtRowView {
            name: self.name@,
            mac: self.mac@,
            link: self.link,
            disconnect: self.disconnect,
            connect: self.connect,
            forget: self.forget,
        }
    }
}

/// What the Bluetooth card shows.
#[derive(Debug, Clone)]
pub struct BtPanel {
    pub adapter: BtAdapterState,
    pub rows: Vec<BtRow>,
    /// A trackball is connected over Bluetooth while the daemon is not
    /// running: warn, and offer to sync the device name and restart it.
    pub warn_sync: bool,
}

pub ghost struct BtPanelView {
    pub adapter: BtAdapterState,
    pub rows: Seq<BtRowView>,
    pub warn_sync: bool,
}

impl View for BtPanel {
    type V = BtPanelView;

    open spec fn view(&self) -> BtPanelView {
        BtPanelView { adapter: self.adapter, rows: self.rows@.map_values(|r: BtRow| r@), warn_sync: self.warn_sync }
    }
}

pub open spec fn spec_bt_row(d: BtDevice) -> BtRowView {
    BtRowView {
        name: d.name@,
        mac: d.mac@,
        link: if d.connected { BtLink::Connected } else if d.paired { BtLink::Paired } else { BtLink::Unpaired },
        disconnect: d.connected,
        connect: !d.connected && d.paired,
        forget: d.paired,
    }
}

pub open spec fn any_bt_connected(ds: Seq<BtDevice>) -> bool {
    exists|i: int| 0 <= i < ds.len() && (#[trigger] ds[i]).connected
}

pub open spec fn spec_bt_panel(bt: BtStatus, ktb_running: bool) -> BtPanelView {
    BtPanelView {
        adapter: if bt.blocked { BtAdapterState::Blocked } else if bt.powered { BtAdapterState::On } else { BtAdapterState::Off },
        rows: bt.devices@.map_values(|d: BtDevice| spec_bt_row(d)),
        warn_sync: any_bt_connected(bt.devices@) && !ktb_running,
    }
}

/// The Bluetooth card: the adapter's state; per device its link and the
/// actions offered (disconnect when connected, connect when paired but not
/// connected, forget when paired); and the name-sync warning when a device
/// is connected and the trackball daemon is not running.
pub fn bt_panel(bt: &BtStatus, ktb_running: bool) -> (p: BtPanel)
    ensures
        p@ == spec_bt_panel(*bt, ktb_running),
{
    let adapter = if bt.blocked {
        BtAdapterState::Blocked
    } else if bt.powered {
        BtAdapterState::On
    } else {
        BtAdapterState::Off
    };
    let mut rows: Vec<BtRow> = Vec::new();
    let mut any = false;
    let mut i: usize = 0;
    while i < bt.devices.len()
        invariant
            i <= bt.devices@.len(),
            rows@.map_values(|r: BtRow| r@) == bt.devices@.take(i as int).map_values(|d: BtDevice| spec_bt_row(d)),
            any == any_bt_connected(bt.devices@.take(i as int)),
        decreases bt.devices@.len() - i,
    {
        let d = &bt.devices[i];
        let link = if d.connected { BtLink::Connected } else if d.paired { BtLink::Paired } else { BtLink::Unpaired };
        let row = BtRow {
            name: string_of(chars_of_string(&d.name)),
            mac: string_of(chars_of_string(&d.mac)),
            link,
            disconnect: d.connected,
            connect: !d.connected && d.paired,
            forget: d.paired,
        };
        let ghost before = rows@;
        rows.push(row);
        let ghost t = bt.devices@.take(i + 1);
        assert(t.drop_last() =~= bt.devices@.take(i as int));
        assert(rows@.map_values(|r: BtRow| r@) =~= before.map_values(|r: BtRow| r@).push(spec_bt_row(bt.devices@[i as int])));
        assert(t.map_values(|d: BtDevice| spec_bt_row(d))
            =~= bt.devices@.take(i as int).map_values(|d: BtDevice| spec_bt_row(d)).push(spec_bt_row(bt.devices@[i as int])));
        proof {
            if d.connected {
                assert(t[i as int].connected);
            } else if any {
                let k = choose|k: int| 0 <= k < i && (#[trigger] bt.devices@.take(i as int)[k]).connected;
                assert(t[k].connected);
            } else {
                assert forall|k: int| 0 <= k < t.len() implies !(#[trigger] t[k]).connected by {
                    if k < i {
                        assert(bt.devices@.take(i as int)[k] == t[k]);
                    }
                }
            }
        }
        any = any || d.connected;
        i += 1;
    }
    assert(bt.devices@.take(bt.devices@.len() as int) =~= bt.devices@);
    BtPanel { adapter, rows, warn_sync: any && !ktb_running }
}

// ---------------------------------------------------------------- USB devices

/// Kensington (047d) and Realforce (0853) devices are highlighted.
pub open spec fn spec_device_icon(vid: Seq<char>) -> Seq<char> {
    if vid == "047d"@ { "[M]"@ } else if vid == "0853"@ { "[K]"@ } else { "[U]"@ }
}

/// A device from its sysfs entry: interfaces (`:` in the name), root hubs
/// (`usb..`) and entries without a vendor are no devices.
pub fn usb_device(
    name: &str, vid: &str, pid: &str, manufacturer: &str, product: &str, speed: &str, bus: &str, dev: &str,
) -> (r: Option<UsbDevice>)
    ensures
        r is Some <==> !contains(name@, ":"@) && !starts_with(name@, "usb"@) && vid@.len() > 0,
        r matches Some(d) ==> d.sysfs_name@ == name@ && d.vid@ == vid@ && d.pid@ == pid@
            && d.manufacturer@ == manufacturer@ && d.product@ == product@ && d.speed@ == speed@
            && d.bus@ == bus@ && d.dev@ == dev@
            && d.highlight == (vid@ == "047d"@ || vid@ == "0853"@) && d.icon@ == spec_device_icon(vid@),
{
    let n = chars_of(name);
    if crate::text::contains_str(n.as_slice(), ":") || crate::text::starts_with_str(n.as_slice(), "usb") {
        return None;
    }
    let v = chars_of(vid);
    if v.len() == 0 {
        return None;
    }
    let k = eq_str(v.as_slice(), "047d");
    let r = eq_str(v.as_slice(), "0853");
    let icon: &'static str = if k { "[M]" } else if r { "[K]" } else { "[U]" };
    Some(UsbDevice {
        vid: string_of(v),
        pid: string_of(chars_of(pid)),
        manufacturer: string_of(chars_of(manufacturer)),
        product: string_of(chars_of(product)),
        speed: string_of(chars_of(speed)),
        bus: string_of(chars_of(bus)),
        dev: string_of(chars_of(dev)),
        sysfs_name: string_of(n),
        icon,
        highlight: k || r,
    })
}

/// The port of a kernel line such as `usb 1-1.2: unable to enumerate`: the
/// first word that, without trailing colons, has a `-` and starts with a digit.
pub open spec fn port_word(w: Seq<char>) -> bool {
    let p = strip_trail_char(w, ':');
    contains(p, "-"@) && p.len() > 0 && '0' <= p[0] <= '9'
}

pub open spec fn first_port(ws: Seq<Seq<char>>) -> Option<Seq<char>>
    decreases ws.len(),
{
    if ws.len() == 0 {
        None
    } else if port_word(ws[0]) {
        Some(strip_trail_char(ws[0], ':'))
    } else {
        first_port(ws.drop_first())
    }
}

fn strip_trail_colons(w: &[char]) -> (r: Vec<char>)
    ensures
        r@ == strip_trail_char(w@, ':'),
{
    let mut j: usize = w.len();
    assert(w@.take(w.len() as int) =~= w@);
    while j > 0 && w[j - 1] == ':'
        invariant
            j <= w.len(),
            strip_trail_char(w@, ':') == strip_trail_char(w@.take(j as int), ':'),
        decreases j,
    {
        assert(w@.take(j as int).drop_last() =~= w@.take(j - 1));
        j -= 1;
    }
    let r = subseq(w, 0, j);
    assert(r@ =~= w@.take(j as int));
    r
}

pub fn extract_port(line: &str) -> (r: Option<String>)
    ensures
        crate::text::opt_view(r) == first_port(words(line@)),
{
    let ws = crate::text::words_exec(chars_of(line).as_slice());
    let ghost wv = ws.deep_view();
    let mut i: usize = 0;
    assert(wv.skip(0) =~= wv);
    while i < ws.len()
        invariant
            i <= ws.len(),
            wv == ws.deep_view(),
            wv == words(line@),
            first_port(wv.skip(i as int)) == first_port(wv),
        decreases ws.len() - i,
    {
        proof { lemma_deep_view_chars(&ws[i as int]); }
        assert(wv.skip(i as int).drop_first() =~= wv.skip(i + 1));
        assert(wv.skip(i as int)[0] == ws@[i as int]@);
        let p = strip_trail_colons(ws[i].as_slice());
        if crate::text::contains_str(p.as_slice(), "-") && p.len() > 0 && '0' <= p[0] && p[0] <= '9' {
            return Some(string_of(p));
        }
        i += 1;
    }
    None
}

/// The ports that failed to enumerate, each once, in the order of their
/// first failure.
pub open spec fn failed_ports_of(ls: Seq<Seq<char>>) -> Seq<Seq<char>>
    decreases ls.len(),
{
    if ls.len() == 0 {
        seq![]
    } else {
        let prev = failed_ports_of(ls.drop_last());
        let l = ls.last();
        if contains(l, "unable to enumerate USB device"@) {
            match first_port(words(l)) {
                Some(p) => if prev.contains(p) { prev } else { prev.push(p) },
                None => prev,
            }
        } else {
            prev
        }
    }
}

/// Whether line `l` of the journal reports that port `p` failed to enumerate.
pub open spec fn reports_failure(l: Seq<char>, p: Seq<char>) -> bool {
    contains(l, "unable to enumerate USB device"@) && first_port(words(l)) == Some(p)
}

/// Some line of the journal reports that port `p` failed to enumerate.
pub open spec fn has_failure_line(ls: Seq<Seq<char>>, p: Seq<char>) -> bool {
    exists|k: int| 0 <= k < ls.len() && #[trigger] reports_failure(ls[k], p)
}

proof fn lemma_failed_ports(ls: Seq<Seq<char>>)
    ensures
        forall|i: int, j: int| 0 <= i < j < failed_ports_of(ls).len()
            ==> failed_ports_of(ls)[i] != failed_ports_of(ls)[j],
        forall|i: int| 0 <= i < failed_ports_of(ls).len() ==> has_failure_line(ls, #[trigger] failed_ports_of(ls)[i]),
        forall|k: int, p: Seq<char>| 0 <= k < ls.len() && #[trigger] reports_failure(ls[k], p)
            ==> failed_ports_of(ls).contains(p),
    decreases ls.len(),
{
    if ls.len() > 0 {
        let init = ls.drop_last();
        lemma_failed_ports(init);
        let prev = failed_ports_of(init);
        let r = failed_ports_of(ls);
        assert forall|i: int| 0 <= i < r.len() implies has_failure_line(ls, #[trigger] r[i]) by {
            if i < prev.len() {
                assert(r[i] == prev[i]);
                assert(has_failure_line(init, prev[i]));
                let k = choose|k: int| 0 <= k < init.len() && #[trigger] reports_failure(init[k], prev[i]);
                assert(ls[k] == init[k]);
                assert(reports_failure(ls[k], r[i]));
            } else {
                let l = ls.last();
                assert(contains(l, "unable to enumerate USB device"@));
                let p = first_port(words(l))->Some_0;
                assert(first_port(words(l)) == Some(p));
                assert(r == prev.push(p));
                assert(r[i] == p);
                assert(ls[ls.len() - 1] == l);
                assert(reports_failure(ls[ls.len() - 1], r[i]));
            }
        }
        assert forall|k: int, p: Seq<char>| 0 <= k < ls.len() && #[trigger] reports_failure(ls[k], p)
            implies r.contains(p) by {
            if k < init.len() {
                assert(ls[k] == init[k]);
                assert(reports_failure(init[k], p));
                let j = choose|j: int| 0 <= j < prev.len() && prev[j] == p;
                assert(r[j] == p);
            } else {
                if !prev.contains(p) {
                    assert(r[r.len() - 1] == p);
                } else {
                    let j = choose|j: int| 0 <= j < prev.len() && prev[j] == p;
                    assert(r[j] == p);
                }
            }
        }
    }
}

/// Each port that failed to enumerate is reported once, however many
/// journal lines name it; every reported port comes from a failure line, and
/// every failure line's port is reported.
pub proof fn law_failed_ports_once(journal: Seq<char>)
    ensures
        ({
            let ls = lines(journal);
            let r = failed_ports_of(ls);
            &&& forall|i: int, j: int| 0 <= i < j < r.len() ==> r[i] != r[j]
            &&& forall|i: int| 0 <= i < r.len() ==> has_failure_line(ls, #[trigger] r[i])
            &&& forall|k: int, p: Seq<char>| 0 <= k < ls.len() && #[trigger] reports_failure(ls[k], p) ==> r.contains(p)
        }),
{
    lemma_failed_ports(lines(journal));
}

pub fn failed_ports(journal: &str) -> (r: Vec<UsbFailedPort>)
    ensures
        r@.map_values(|f: UsbFailedPort| f.port@) == failed_ports_of(lines(journal@)),
{
    let ls = lines_of(journal);
    let ghost lv = ls.deep_view();
    let mut out: Vec<UsbFailedPort> = Vec::new();
    let mut seen: Vec<Vec<char>> = Vec::new();
    let mut i: usize = 0;
    assert(lv.take(0) =~= Seq::<Seq<char>>::empty());
    while i < ls.len()
        invariant
            i <= ls.len(),
            lv == ls.deep_view(),
            lv == lines(journal@),
            seen.deep_view() == failed_ports_of(lv.take(i as int)),
            out@.map_values(|f: UsbFailedPort| f.port@) == seen.deep_view(),
        decreases ls.len() - i,
    {
        proof { lemma_deep_view_chars(&ls[i as int]); }
        assert(lv.take(i + 1).drop_last() =~= lv.take(i as int));
        assert(lv.take(i + 1).last() == ls@[i as int]@);
        let line = to_string(ls[i].as_slice());
        if crate::text::contains_str(ls[i].as_slice(), "unable to enumerate USB device") {
            match extract_port(line.as_str()) {
                Some(p) => {
                    let pc = chars_of_string(&p);
                    if !contains_piece(&seen, pc.as_slice()) {
                        let ghost o0 = out@;
                        out.push(UsbFailedPort { port: p });
                        push_piece(&mut seen, pc);
                        assert(out@.map_values(|f: UsbFailedPort| f.port@) =~= o0.map_values(|f: UsbFailedPort| f.port@).push(out@.last().port@));
                    }
                },
                None => {},
            }
        }
        i += 1;
    }
    assert(lv.take(ls.len() as int) =~= lv);
    out
}

fn contains_piece(set: &Vec<Vec<char>>, x: &[char]) -> (r: bool)
    ensures
        r == set.deep_view().contains(x@),
{
    let ghost sv = set.deep_view();
    let mut i: usize = 0;
    while i < set.len()
        invariant
            i <= set.len(),
            sv == set.deep_view(),
            forall|j: int| 0 <= j < i ==> sv[j] != x@,
        decreases set.len() - i,
    {
        proof { lemma_deep_view_chars(&set[i as int]); }
        if eq(set[i].as_slice(), x) {
            assert(sv[i as int] == x@);
            return true;
        }
        i += 1;
    }
    false
}

/// The first line of `pgrep` output that is a process id.
pub open spec fn first_pid_of(ls: Seq<Seq<char>>) -> Option<u32>
    decreases ls.len(),
{
    if ls.len() == 0 {
        None
    } else if parse_u32(trim(ls[0])) is Some {
        parse_u32(trim(ls[0]))
    } else {
        first_pid_of(ls.drop_first())
    }
}

pub fn first_pid(output: &str) -> (r: Option<u32>)
    ensures
        r == first_pid_of(lines(output@)),
{
    let ls = lines_of(output);
    let ghost lv = ls.deep_view();
    let mut i: usize = 0;
    assert(lv.skip(0) =~= lv);
    while i < ls.len()
        invariant
            i <= ls.len(),
            lv == ls.deep_view(),
            lv == lines(output@),
            first_pid_of(lv.skip(i as int)) == first_pid_of(lv),
        decreases ls.len() - i,
    {
        proof { lemma_deep_view_chars(&ls[i as int]); }
        assert(lv.skip(i as int).drop_first() =~= lv.skip(i + 1));
        assert(lv.skip(i as int)[0] == ls@[i as int]@);
        match crate::text::parse_u32_exec(trim_exec(ls[i].as_slice()).as_slice()) {
            Some(v) => { return Some(v); },
            None => {},
        }
        i += 1;
    }
    None
}

/// The first `XCURSOR_SIZE=` line of the environment whose value is a number.
pub open spec fn xcursor_size_of(ls: Seq<Seq<char>>) -> Option<i32>
    decreases ls.len(),
{
    if ls.len() == 0 {
        None
    } else if starts_with(trim(ls[0]), "XCURSOR_SIZE="@) && parse_i32(trim(trim(ls[0]).skip(13))) is Some {
        parse_i32(trim(trim(ls[0]).skip(13)))
    } else {
        xcursor_size_of(ls.drop_first())
    }
}

pub fn xcursor_size(env: &str) -> (r: Option<i32>)
    ensures
        r == xcursor_size_of(lines(env@)),
{
    let ls = lines_of(env);
    let ghost lv = ls.deep_view();
    let mut i: usize = 0;
    assert(lv.skip(0) =~= lv);
    while i < ls.len()
        invariant
            i <= ls.len(),
            lv == ls.deep_view(),
            lv == lines(env@),
            xcursor_size_of(lv.skip(i as int)) == xcursor_size_of(lv),
        decreases ls.len() - i,
    {
        proof { lemma_deep_view_chars(&ls[i as int]); reveal_strlit("XCURSOR_SIZE="); }
        assert(lv.skip(i as int).drop_first() =~= lv.skip(i + 1));
        assert(lv.skip(i as int)[0] == ls@[i as int]@);
        let t = trim_exec(ls[i].as_slice());
        match crate::text::strip_prefix_str(t.as_slice(), "XCURSOR_SIZE=") {
            Some(rest) => {
                match crate::text::parse_i32_exec(trim_exec(rest.as_slice()).as_slice()) {
                    Some(v) => { return Some(v); },
                    None => {},
                }
            },
            None => {},
        }
        i += 1;
    }
    None
}

/// The cursor size that gsettings reports, 24 when it reports none.
pub fn gsettings_cursor_size(output: &str) -> (r: i32)
    ensures
        r == (match parse_i32(trim(output@)) { Some(v) => v, None => 24i32 }),
{
    match crate::text::parse_i32_exec(trim_exec(chars_of(output).as_slice()).as_slice()) {
        Some(v) => v,
        None => 24,
    }
}

// ---------------------------------------------------------------- Bluetooth

pub open spec fn hid_keywords() -> Seq<Seq<char>> {
    seq!["expert"@, "kensington"@, "trackball"@, "slimblade"@, "orbit"@, "mouse"@]
}

pub open spec fn spec_is_hid_candidate(name: Seq<char>, icon: Seq<char>, uuids: Seq<char>) -> bool {
    ||| contains(uuids, "00001812"@)
    ||| icon == "input-mouse"@
    ||| icon == "input-keyboard"@
    ||| exists|k: int| 0 <= k < hid_keywords().len() && contains(ascii_lower(name), #[trigger] hid_keywords()[k])
}

/// Whether a Bluetooth device looks like a mouse or trackball: HID over GATT,
/// a mouse or keyboard icon, or a known name (Kensington's Expert advertises
/// as `ExpertBT5.0`).
pub fn is_hid_candidate(name: &str, icon: &str, uuids: &str) -> (r: bool)
    ensures
        r == spec_is_hid_candidate(name@, icon@, uuids@),
{
    if crate::text::contains_str(chars_of(uuids).as_slice(), "00001812") {
        return true;
    }
    let ic = chars_of(icon);
    if eq_str(ic.as_slice(), "input-mouse") || eq_str(ic.as_slice(), "input-keyboard") {
        return true;
    }
    let n = crate::text::ascii_lower_exec(chars_of(name).as_slice());
    let keys = vec!["expert", "kensington", "trackball", "slimblade", "orbit", "mouse"];
    assert(keys@.map_values(|s: &str| s@) =~= hid_keywords());
    let mut i: usize = 0;
    while i < keys.len()
        invariant
            i <= keys.len(),
            keys@.map_values(|s: &str| s@) == hid_keywords(),
            n@ == ascii_lower(name@),
            forall|k: int| 0 <= k < i ==> !contains(n@, #[trigger] hid_keywords()[k]),
        decreases keys.len() - i,
    {
        assert(keys@.map_values(|s: &str| s@)[i as int] == keys@[i as int]@);
        if crate::text::contains_str(n.as_slice(), keys[i]) {
            assert(contains(n@, hid_keywords()[i as int]));
            return true;
        }
        i += 1;
    }
    false
}

pub fn bt_powered(show: &str) -> (r: bool)
    ensures
        r == exists|i: int| 0 <= i < lines(show@).len() && trim(#[trigger] lines(show@)[i]) == "Powered: yes"@,
{
    let ls = lines_of(show);
    let ghost lv = ls.deep_view();
    let mut i: usize = 0;
    while i < ls.len()
        invariant
            i <= ls.len(),
            lv == ls.deep_view(),
            lv == lines(show@),
            forall|j: int| 0 <= j < i ==> trim(#[trigger] lv[j]) != "Powered: yes"@,
        decreases ls.len() - i,
    {
        proof { lemma_deep_view_chars(&ls[i as int]); }
        if eq_str(trim_exec(ls[i].as_slice()).as_slice(), "Powered: yes") {
            assert(trim(lv[i as int]) == "Powered: yes"@);
            return true;
        }
        i += 1;
    }
    false
}

pub fn bt_blocked(rfkill: &str) -> (r: bool)
    ensures
        r == exists|i: int| 0 <= i < lines(rfkill@).len() && ends_with(trim(#[trigger] lines(rfkill@)[i]), "blocked: yes"@),
{
    let ls = lines_of(rfkill);
    let ghost lv = ls.deep_view();
    let mut i: usize = 0;
    while i < ls.len()
        invariant
            i <= ls.len(),
            lv == ls.deep_view(),
            lv == lines(rfkill@),
            forall|j: int| 0 <= j < i ==> !ends_with(trim(#[trigger] lv[j]), "blocked: yes"@),
        decreases ls.len() - i,
    {
        proof { lemma_deep_view_chars(&ls[i as int]); }
        if crate::text::ends_with_str(trim_exec(ls[i].as_slice()).as_slice(), "blocked: yes") {
            assert(ends_with(trim(lv[i as int]), "blocked: yes"@));
            return true;
        }
        i += 1;
    }
    false
}

/// The address and name of a `Device C0:31:F2:BB:80:4A ExpertBT5.0` line.
pub open spec fn spec_bt_listing_entry(line: Seq<char>) -> Option<(Seq<char>, Seq<char>)> {
    let ws = words(line);
    if ws.len() >= 2 && ws[0] == "Device"@ {
        Some((ws[1], join(ws.skip(2), " "@)))
    } else {
        None
    }
}

pub fn bt_listing_entry(line: &str) -> (r: Option<(String, String)>)
    ensures
        (match r { Some((m, n)) => Some((m@, n@)), None => None }) == spec_bt_listing_entry(line@),
{
    let ws = crate::text::words_exec(chars_of(line).as_slice());
    let ghost wv = ws.deep_view();
    if ws.len() < 2 {
        return None;
    }
    proof { lemma_deep_view_chars(&ws[0]); lemma_deep_view_chars(&ws[1]); }
    if !eq_str(ws[0].as_slice(), "Device") {
        return None;
    }
    let mut rest: Vec<Vec<char>> = Vec::new();
    let mut i: usize = 2;
    assert(wv.skip(2).take(0) =~= Seq::<Seq<char>>::empty());
    while i < ws.len()
        invariant
            2 <= i <= ws.len(),
            wv == ws.deep_view(),
            rest.deep_view() == wv.skip(2).take(i - 2),
        decreases ws.len() - i,
    {
        proof { lemma_deep_view_chars(&ws[i as int]); }
        push_piece(&mut rest, subseq(ws[i].as_slice(), 0, ws[i].len()));
        assert(ws@[i as int]@.subrange(0, ws@[i as int]@.len() as int) =~= ws@[i as int]@);
        assert(rest.deep_view() =~= wv.skip(2).take(i - 1));
        i += 1;
    }
    assert(wv.skip(2).take(ws.len() - 2) =~= wv.skip(2));
    Some((to_string(ws[1].as_slice()), string_of(join_str(&rest, " "))))
}

/// The value after `key` on the first line of `bluetoothctl info` that
/// starts with it (trimmed), or nothing.
pub open spec fn info_field_of(ls: Seq<Seq<char>>, key: Seq<char>) -> Seq<char>
    decreases ls.len(),
{
    if ls.len() == 0 {
        seq![]
    } else if starts_with(trim(ls[0]), key) {
        trim(trim(ls[0]).skip(key.len() as int))
    } else {
        info_field_of(ls.drop_first(), key)
    }
}

pub fn info_field(info: &str, key: &str) -> (r: String)
    ensures
        r@ == info_field_of(lines(info@), key@),
{
    let ls = lines_of(info);
    let ghost lv = ls.deep_view();
    let mut i: usize = 0;
    assert(lv.skip(0) =~= lv);
    while i < ls.len()
        invariant
            i <= ls.len(),
            lv == ls.deep_view(),
            lv == lines(info@),
            info_field_of(lv.skip(i as int), key@) == info_field_of(lv, key@),
        decreases ls.len() - i,
    {
        proof { lemma_deep_view_chars(&ls[i as int]); }
        assert(lv.skip(i as int).drop_first() =~= lv.skip(i + 1));
        assert(lv.skip(i as int)[0] == ls@[i as int]@);
        let t = trim_exec(ls[i].as_slice());
        match crate::text::strip_prefix_str(t.as_slice(), key) {
            Some(rest) => { return string_of(trim_exec(rest.as_slice())); },
            None => {},
        }
        i += 1;
    }
    String::new()
}

/// The lines that list a service UUID, joined with spaces.
pub open spec fn uuid_lines(ls: Seq<Seq<char>>) -> Seq<Seq<char>>
    decreases ls.len(),
{
    if ls.len() == 0 {
        seq![]
    } else if contains(ls.last(), "UUID:"@) {
        uuid_lines(ls.drop_last()).push(ls.last())
    } else {
        uuid_lines(ls.drop_last())
    }
}

pub fn info_uuids(info: &str) -> (r: String)
    ensures
        r@ == join(uuid_lines(lines(info@)), " "@),
{
    let ls = lines_of(info);
    let ghost lv = ls.deep_view();
    let mut acc: Vec<Vec<char>> = Vec::new();
    let mut i: usize = 0;
    assert(lv.take(0) =~= Seq::<Seq<char>>::empty());
    while i < ls.len()
        invariant
            i <= ls.len(),
            lv == ls.deep_view(),
            lv == lines(info@),
            acc.deep_view() == uuid_lines(lv.take(i as int)),
        decreases ls.len() - i,
    {
        proof { lemma_deep_view_chars(&ls[i as int]); }
        assert(lv.take(i + 1).drop_last() =~= lv.take(i as int));
        assert(lv.take(i + 1).last() == ls@[i as int]@);
        if crate::text::contains_str(ls[i].as_slice(), "UUID:") {
            push_piece(&mut acc, subseq(ls[i].as_slice(), 0, ls[i].len()));
            assert(ls@[i as int]@.subrange(0, ls@[i as int]@.len() as int) =~= ls@[i as int]@);
        }
        i += 1;
    }
    assert(lv.take(ls.len() as int) =~= lv);
    string_of(join_str(&acc, " "))
}

pub open spec fn bt_view(d: BtDevice) -> (Seq<char>, Seq<char>, bool, bool, bool) {
    (d.mac@, d.name@, d.paired, d.connected, d.trusted)
}

/// A listed device, with its `bluetoothctl info`, when it is a HID candidate;
/// its name is the info's `Name:` or else the listed one.
pub open spec fn spec_bt_device(mac: Seq<char>, listed: Seq<char>, info: Seq<char>) -> Option<(Seq<char>, Seq<char>, bool, bool, bool)> {
    let ls = lines(info);
    let n = info_field_of(ls, "Name:"@);
    let disp = if n.len() == 0 { listed } else { n };
    if !spec_is_hid_candidate(disp, info_field_of(ls, "Icon:"@), join(uuid_lines(ls), " "@)) {
        None
    } else {
        Some((mac, disp,
            info_field_of(ls, "Paired:"@) == "yes"@,
            info_field_of(ls, "Connected:"@) == "yes"@,
            info_field_of(ls, "Trusted:"@) == "yes"@))
    }
}

pub fn bt_device(mac: &str, listed: &str, info: &str) -> (r: Option<BtDevice>)
    ensures
        (match r { Some(d) => Some(bt_view(d)), None => None }) == spec_bt_device(mac@, listed@, info@),
{
    let icon = info_field(info, "Icon:");
    let uuids = info_uuids(info);
    let n = info_field(info, "Name:");
    let disp = if n.unicode_len() == 0 { string_of(chars_of(listed)) } else { n };
    if !is_hid_candidate(disp.as_str(), icon.as_str(), uuids.as_str()) {
        return None;
    }
    let paired = eq_str(chars_of_string(&info_field(info, "Paired:")).as_slice(), "yes");
    let connected = eq_str(chars_of_string(&info_field(info, "Connected:")).as_slice(), "yes");
    let trusted = eq_str(chars_of_string(&info_field(info, "Trusted:")).as_slice(), "yes");
    Some(BtDevice { mac: string_of(chars_of(mac)), name: disp, paired, connected, trusted })
}

/// The sort key: connected devices first, paired ones next.
pub open spec fn bt_rank(d: (Seq<char>, Seq<char>, bool, bool, bool)) -> int {
    (if d.3 { 0int } else { 2int }) + (if d.2 { 0int } else { 1int })
}

pub open spec fn with_rank(ds: Seq<(Seq<char>, Seq<char>, bool, bool, bool)>, k: int) -> Seq<(Seq<char>, Seq<char>, bool, bool, bool)>
    decreases ds.len(),
{
    if ds.len() == 0 {
        seq![]
    } else if bt_rank(ds.last()) == k {
        with_rank(ds.drop_last(), k).push(ds.last())
    } else {
        with_rank(ds.drop_last(), k)
    }
}

/// The devices stably sorted by (not connected, not paired).
pub open spec fn spec_sort_bt(ds: Seq<(Seq<char>, Seq<char>, bool, bool, bool)>) -> Seq<(Seq<char>, Seq<char>, bool, bool, bool)> {
    with_rank(ds, 0) + with_rank(ds, 1) + with_rank(ds, 2) + with_rank(ds, 3)
}

fn bt_rank_exec(d: &BtDevice) -> (r: u8)
    ensures
        r as int == bt_rank(bt_view(*d)),
{
    (if d.connected { 0 } else { 2 }) + (if d.paired { 0 } else { 1 })
}

/// Connected devices first, then paired ones, each group in its old order.
pub fn sort_bt_devices(devices: Vec<BtDevice>) -> (r: Vec<BtDevice>)
    ensures
        r@.map_values(|d: BtDevice| bt_view(d)) == spec_sort_bt(devices@.map_values(|d: BtDevice| bt_view(d))),
{
    let ghost dv = devices@.map_values(|d: BtDevice| bt_view(d));
    let mut out: Vec<BtDevice> = Vec::new();
    let mut k: u8 = 0;
    assert(out@.map_values(|d: BtDevice| bt_view(d)) =~= Seq::empty());
    while k < 4
        invariant
            k <= 4,
            dv == devices@.map_values(|d: BtDevice| bt_view(d)),
            out@.map_values(|d: BtDevice| bt_view(d)) == (if k == 0 { seq![] } else if k == 1 {
                with_rank(dv, 0)
            } else if k == 2 {
                with_rank(dv, 0) + with_rank(dv, 1)
            } else if k == 3 {
                with_rank(dv, 0) + with_rank(dv, 1) + with_rank(dv, 2)
            } else {
                spec_sort_bt(dv)
            }),
        decreases 4 - k,
    {
        let ghost o0 = out@.map_values(|d: BtDevice| bt_view(d));
        let mut i: usize = 0;
        assert(dv.take(0) =~= Seq::<(Seq<char>, Seq<char>, bool, bool, bool)>::empty());
        assert(o0 + with_rank(dv.take(0), k as int) =~= o0);
        while i < devices.len()
            invariant
                i <= devices.len(),
                k < 4,
                dv == devices@.map_values(|d: BtDevice| bt_view(d)),
                out@.map_values(|d: BtDevice| bt_view(d)) == o0 + with_rank(dv.take(i as int), k as int),
            decreases devices.len() - i,
        {
            assert(dv.take(i + 1).drop_last() =~= dv.take(i as int));
            assert(dv.take(i + 1).last() == bt_view(devices@[i as int]));
            if bt_rank_exec(&devices[i]) == k {
                let d = &devices[i];
                let c = BtDevice {
                    mac: to_string(chars_of_string(&d.mac).as_slice()),
                    name: to_string(chars_of_string(&d.name).as_slice()),
                    paired: d.paired,
                    connected: d.connected,
                    trusted: d.trusted,
                };
                let ghost before = out@;
                out.push(c);
                assert(out@.map_values(|d: BtDevice| bt_view(d)) =~= before.map_values(|d: BtDevice| bt_view(d)).push(bt_view(devices@[i as int])));
            }
            i += 1;
        }
        assert(dv.take(devices.len() as int) =~= dv);
        k += 1;
    }
    out
}

// ---------------------------------------------------------------- scripts

pub open spec fn spec_bt_connect_script(mac: Seq<char>) -> Seq<char> {
    "bluetoothctl connect "@ + spec_shell_quote(mac) + " 2>&1 | tail -3"@
}

pub fn bt_connect_script(mac: &str) -> (r: String)
    ensures
        r@ == spec_bt_connect_script(mac@),
{
    let mut o = chars_of("bluetoothctl connect ");
    extend(&mut o, chars_of_string(&crate::ui::ime_shell::shell_quote(mac)).as_slice());
    extend_str(&mut o, " 2>&1 | tail -3");
    string_of(o)
}

pub open spec fn spec_bt_disconnect_script(mac: Seq<char>) -> Seq<char> {
    "bluetoothctl disconnect "@ + spec_shell_quote(mac) + " 2>&1 | tail -3"@
}

pub fn bt_disconnect_script(mac: &str) -> (r: String)
    ensures
        r@ == spec_bt_disconnect_script(mac@),
{
    let mut o = chars_of("bluetoothctl disconnect ");
    extend(&mut o, chars_of_string(&crate::ui::ime_shell::shell_quote(mac)).as_slice());
    extend_str(&mut o, " 2>&1 | tail -3");
    string_of(o)
}

pub open spec fn spec_bt_forget_script(mac: Seq<char>) -> Seq<char> {
    "bluetoothctl remove "@ + spec_shell_quote(mac)
        + " 2>&1 | tail -3; echo '페어링을 해제했습니다. 다시 등록하려면 페어링 모드로 만든 뒤 [트랙볼 페어링]을 누르세요.'"@
}

pub fn bt_forget_script(mac: &str) -> (r: String)
    ensures
        r@ == spec_bt_forget_script(mac@),
{
    let mut o = chars_of("bluetoothctl remove ");
    extend(&mut o, chars_of_string(&crate::ui::ime_shell::shell_quote(mac)).as_slice());
    extend_str(&mut o, " 2>&1 | tail -3; echo '페어링을 해제했습니다. 다시 등록하려면 페어링 모드로 만든 뒤 [트랙볼 페어링]을 누르세요.'");
    string_of(o)
}

pub open spec fn spec_info_script(mac: Seq<char>) -> Seq<char> {
    "bluetoothctl info "@ + spec_shell_quote(mac) + " 2>/dev/null"@
}

pub fn bt_info_script(mac: &str) -> (r: String)
    ensures
        r@ == spec_info_script(mac@),
{
    let mut o = chars_of("bluetoothctl info ");
    extend(&mut o, chars_of_string(&crate::ui::ime_shell::shell_quote(mac)).as_slice());
    extend_str(&mut o, " 2>/dev/null");
    string_of(o)
}

pub open spec fn spec_retrieve_dev_script(name: Seq<char>) -> Seq<char> {
    let path = "/sys/bus/usb/devices/"@ + name;
    "pkexec bash -c 'set -e; test -f "@ + path + "/authorized || { echo \"경로 없음: "@ + path
        + "\" >&2; exit 1; }; echo 0 > "@ + path + "/authorized; sleep 0.3; echo 1 > "@ + path + "/authorized'"@
}

/// Reconnects one device by toggling its `authorized` switch.
pub fn retrieve_dev_script(name: &str) -> (r: String)
    ensures
        r@ == spec_retrieve_dev_script(name@),
{
    let mut path = chars_of("/sys/bus/usb/devices/");
    extend_str(&mut path, name);
    let mut o = chars_of("pkexec bash -c 'set -e; test -f ");
    extend(&mut o, path.as_slice());
    extend_str(&mut o, "/authorized || { echo \"경로 없음: ");
    extend(&mut o, path.as_slice());
    extend_str(&mut o, "\" >&2; exit 1; }; echo 0 > ");
    extend(&mut o, path.as_slice());
    extend_str(&mut o, "/authorized; sleep 0.3; echo 1 > ");
    extend(&mut o, path.as_slice());
    extend_str(&mut o, "/authorized'");
    string_of(o)
}

pub open spec fn clamp_int(v: int, lo: int, hi: int) -> int {
    if v < lo { lo } else if v > hi { hi } else { v }
}

/// `v / 100` with two decimals.
pub open spec fn hundredths(v: nat) -> Seq<char> {
    decimal(v / 100) + "."@ + decimal_padded(v % 100, 2)
}

pub open spec fn spec_tb_speed_request(v: int) -> (Seq<char>, Seq<char>) {
    let f = hundredths(clamp_int(v, 100, 300) as nat);
    ("트랙볼 배율 "@ + f + "x 적용 중..."@,
     "sudo -n /usr/local/bin/popmgr-helper set-trackball-speed "@ + f + " 2>&1"@)
}

/// The label and script that set the trackball's motion factor to
/// `v`/100, clamped to 1.00..3.00.
pub fn tb_speed_request(v: i32) -> (r: (String, String))
    ensures
        (r.0@, r.1@) == spec_tb_speed_request(v as int),
{
    let c: u64 = if v < 100 { 100 } else if v > 300 { 300 } else { v as u64 };
    let mut f: Vec<char> = Vec::new();
    push_decimal(&mut f, c / 100);
    extend_str(&mut f, ".");
    push_decimal_padded(&mut f, c % 100, 2);
    let mut label = chars_of("트랙볼 배율 ");
    extend(&mut label, f.as_slice());
    extend_str(&mut label, "x 적용 중...");
    let mut sc = chars_of("sudo -n /usr/local/bin/popmgr-helper set-trackball-speed ");
    extend(&mut sc, f.as_slice());
    extend_str(&mut sc, " 2>&1");
    (string_of(label), string_of(sc))
}

pub open spec fn spec_cursor_size_request(n: int) -> (Seq<char>, Seq<char>) {
    let d = decimal(clamp_int(n, 16, 96) as nat);
    ("커서 크기 "@ + d + " 적용 중..."@,
     "gsettings set org.gnome.desktop.interface cursor-size "@ + d
        + " 2>/dev/null; sudo -n /usr/local/bin/popmgr-helper set-cursor-size "@ + d + " 2>&1"@)
}

/// The label and script that set the cursor size (clamped to 16..96) for
/// the session and in /etc/environment.
pub fn cursor_size_request(n: i32) -> (r: (String, String))
    ensures
        (r.0@, r.1@) == spec_cursor_size_request(n as int),
{
    let c: u64 = if n < 16 { 16 } else if n > 96 { 96 } else { n as u64 };
    let mut d: Vec<char> = Vec::new();
    push_decimal(&mut d, c);
    let mut label = chars_of("커서 크기 ");
    extend(&mut label, d.as_slice());
    extend_str(&mut label, " 적용 중...");
    let mut sc = chars_of("gsettings set org.gnome.desktop.interface cursor-size ");
    extend(&mut sc, d.as_slice());
    extend_str(&mut sc, " 2>/dev/null; sudo -n /usr/local/bin/popmgr-helper set-cursor-size ");
    extend(&mut sc, d.as_slice());
    extend_str(&mut sc, " 2>&1");
    (string_of(label), string_of(sc))
}

pub open spec fn spec_usb_helper_install_script(user: Seq<char>) -> Seq<char> {
    "pkexec bash -c 'set -e; echo "@ + base64(utf8(HELPER_SCRIPT@))
        + " | base64 -d > /usr/local/bin/popmgr-helper; chown root:root /usr/local/bin/popmgr-helper; chmod 0755 /usr/local/bin/popmgr-helper; printf \"%s ALL=(root) NOPASSWD: /usr/local/bin/popmgr-helper\\n\" "@
        + user + " > /etc/sudoers.d/popmgr; chmod 0440 /etc/sudoers.d/popmgr; visudo -cf /etc/sudoers.d/popmgr'"@
}

/// Installs the helper as root and lets `user` run only it without a password.
pub fn usb_helper_install_script(user: &str) -> (r: String)
    ensures
        r@ == spec_usb_helper_install_script(user@),
{
    let b = crate::ui::monitor::utf8_bytes(HELPER_SCRIPT);
    let b64 = crate::ui::monitor::base64_encode(b.as_slice());
    let mut o = chars_of("pkexec bash -c 'set -e; echo ");
    extend(&mut o, chars_of_string(&b64).as_slice());
    extend_str(&mut o, " | base64 -d > /usr/local/bin/popmgr-helper; chown root:root /usr/local/bin/popmgr-helper; chmod 0755 /usr/local/bin/popmgr-helper; printf \"%s ALL=(root) NOPASSWD: /usr/local/bin/popmgr-helper\\n\" ");
    extend_str(&mut o, user);
    extend_str(&mut o, " > /etc/sudoers.d/popmgr; chmod 0440 /etc/sudoers.d/popmgr; visudo -cf /etc/sudoers.d/popmgr'");
    string_of(o)
}

/// Whether the helper answered its check.
pub fn helper_check_ok(success: bool, output: &str) -> (r: bool)
    ensures
        r == (success && trim(output@) == "ok"@),
{
    success && eq_str(trim_exec(chars_of(output).as_slice()).as_slice(), "ok")
}

// ---------------------------------------------------------------- pointer speed

pub open spec fn is_num_char(c: char) -> bool {
    ('0' <= c <= '9') || c == '.' || c == '-'
}

pub open spec fn num_prefix_len(s: Seq<char>) -> nat
    decreases s.len(),
{
    if s.len() > 0 && is_num_char(s[0]) { 1 + num_prefix_len(s.drop_first()) } else { 0 }
}

/// The number text after the first `speed:` of COSMIC's input settings.
pub open spec fn spec_pointer_speed_text(content: Seq<char>) -> Option<Seq<char>> {
    match find(content, "speed:"@) {
        None => None,
        Some(i) => {
            let rest = trim_start(content.skip(i + 6));
            Some(rest.take(num_prefix_len(rest) as int))
        },
    }
}

proof fn lemma_num_prefix(s: Seq<char>, k: int)
    requires
        0 <= k <= s.len(),
        forall|j: int| 0 <= j < k ==> is_num_char(#[trigger] s[j]),
        k == s.len() || !is_num_char(s[k]),
    ensures
        num_prefix_len(s) == k,
    decreases k,
{
    if k > 0 {
        lemma_num_prefix(s.drop_first(), k - 1);
    }
}

fn num_prefix_len_exec(s: &[char], from: usize) -> (n: usize)
    requires
        from <= s.len(),
    ensures
        from + n <= s.len(),
        n == num_prefix_len(s@.skip(from as int)),
{
    let mut k: usize = from;
    while k < s.len() && (('0' <= s[k] && s[k] <= '9') || s[k] == '.' || s[k] == '-')
        invariant
            from <= k <= s.len(),
            forall|j: int| from <= j < k ==> is_num_char(#[trigger] s@[j]),
        decreases s.len() - k,
    {
        k += 1;
    }
    proof {
        let t = s@.skip(from as int);
        assert forall|j: int| 0 <= j < k - from implies is_num_char(#[trigger] t[j]) by {
            assert(t[j] == s@[from + j]);
        }
        if k < s.len() {
            assert(t[k - from] == s@[k as int]);
        }
        lemma_num_prefix(t, k - from);
    }
    k - from
}

pub fn pointer_speed_text(content: &str) -> (r: Option<String>)
    ensures
        crate::text::opt_view(r) == spec_pointer_speed_text(content@),
{
    proof { reveal_strlit("speed:"); }
    let c = chars_of(content);
    match crate::text::find_str(c.as_slice(), "speed:") {
        None => None,
        Some(i) => {
            proof { crate::text::lemma_find(c@, "speed:"@); }
            assert(i + 6 <= c.len());
            let after = subseq(c.as_slice(), i + 6, c.len());
            assert(after@ =~= c@.skip(i + 6));
            let rest = crate::text::trim_start_exec(after.as_slice());
            let n = num_prefix_len_exec(rest.as_slice(), 0);
            assert(rest@.skip(0) =~= rest@);
            let t = subseq(rest.as_slice(), 0, n);
            assert(t@ =~= rest@.take(n as int));
            Some(string_of(t))
        },
    }
}

proof fn lemma_trim_start_skip(s: Seq<char>, k: int)
    requires
        0 <= k <= s.len(),
        forall|j: int| 0 <= j < k ==> crate::text::is_ws(#[trigger] s[j]),
        k == s.len() || !crate::text::is_ws(s[k]),
    ensures
        trim_start(s) == s.skip(k),
    decreases k,
{
    if k > 0 {
        let t = s.drop_first();
        assert forall|j: int| 0 <= j < k - 1 implies crate::text::is_ws(#[trigger] t[j]) by {
            assert(t[j] == s[j + 1]);
        }
        if k < s.len() {
            assert(t[k - 1] == s[k]);
        }
        lemma_trim_start_skip(t, k - 1);
        assert(t.skip(k - 1) =~= s.skip(k));
    } else {
        assert(s.skip(0) =~= s);
    }
}

/// COSMIC's input settings written from scratch with the given speed.
pub open spec fn default_input_settings(speed: Seq<char>) -> Seq<char> {
    "(\n    state: Enabled,\n    acceleration: Some((\n        profile: Some(Adaptive),\n        speed: "@ + speed
        + ",\n    )),\n    left_handed: Some(false),\n)\n"@
}

/// COSMIC's input settings with the pointer speed replaced by `speed`: only
/// the number after the first `speed:` changes where the file sets an
/// acceleration; otherwise the file is written from scratch.
pub open spec fn spec_replace_pointer_speed(content: Seq<char>, speed: Seq<char>) -> Seq<char> {
    if contains(content, "acceleration:"@) && contains(content, "speed:"@) {
        let i = find(content, "speed:"@)->0;
        let after = content.skip(i + 6);
        let num_start = i + 6 + (after.len() - trim_start(after).len());
        let n = num_prefix_len(trim_start(after));
        content.take(num_start) + speed + content.skip(num_start + n)
    } else {
        default_input_settings(speed)
    }
}

pub fn replace_pointer_speed(content: &str, speed: &str) -> (r: String)
    ensures
        r@ == spec_replace_pointer_speed(content@, speed@),
{
    proof { reveal_strlit("speed:"); }
    let c = chars_of(content);
    let has_acc = crate::text::contains_str(c.as_slice(), "acceleration:");
    let found = crate::text::find_str(c.as_slice(), "speed:");
    if !has_acc || found.is_none() {
        let mut o = chars_of("(\n    state: Enabled,\n    acceleration: Some((\n        profile: Some(Adaptive),\n        speed: ");
        extend_str(&mut o, speed);
        extend_str(&mut o, ",\n    )),\n    left_handed: Some(false),\n)\n");
        return string_of(o);
    }
    let i = found.unwrap();
    proof { crate::text::lemma_find(c@, "speed:"@); }
    assert(i + 6 <= c.len());
    let after = i + 6;
    let mut k: usize = after;
    while k < c.len() && crate::text::is_ws_exec(c[k])
        invariant
            after <= k <= c.len(),
            forall|j: int| after <= j < k ==> crate::text::is_ws(#[trigger] c@[j]),
        decreases c.len() - k,
    {
        k += 1;
    }
    let ghost a = c@.skip(after as int);
    proof {
        assert forall|j: int| 0 <= j < k - after implies crate::text::is_ws(#[trigger] a[j]) by {
            assert(a[j] == c@[after + j]);
        }
        if k < c.len() {
            assert(a[k - after] == c@[k as int]);
        }
        lemma_trim_start_skip(a, k - after);
        assert(a.skip(k - after) =~= c@.skip(k as int));
    }
    let n = num_prefix_len_exec(c.as_slice(), k);
    let mut o = subseq(c.as_slice(), 0, k);
    extend_str(&mut o, speed);
    let tail = subseq(c.as_slice(), k + n, c.len());
    extend(&mut o, tail.as_slice());
    assert(o@ =~= spec_replace_pointer_speed(content@, speed@));
    string_of(o)
}


// ---------------------------------------------------------------- device order

/// The order of `str`: character by character, a prefix first.  UTF-8
/// keeps the order of the characters' numbers, so this is the order of the
/// strings' bytes.
pub open spec fn name_le(a: Seq<char>, b: Seq<char>) -> bool
    decreases a.len(),
{
    if a.len() == 0 {
        true
    } else if b.len() == 0 {
        false
    } else if a[0] != b[0] {
        a[0] < b[0]
    } else {
        name_le(a.drop_first(), b.drop_first())
    }
}

pub proof fn lemma_name_le_refl(a: Seq<char>)
    ensures
        name_le(a, a),
    decreases a.len(),
{
    if a.len() > 0 {
        lemma_name_le_refl(a.drop_first());
    }
}

pub proof fn lemma_name_le_total(a: Seq<char>, b: Seq<char>)
    ensures
        name_le(a, b) || name_le(b, a),
    decreases a.len(),
{
    if a.len() > 0 && b.len() > 0 && a[0] == b[0] {
        lemma_name_le_total(a.drop_first(), b.drop_first());
    }
}

pub proof fn lemma_name_le_trans(a: Seq<char>, b: Seq<char>, c: Seq<char>)
    requires
        name_le(a, b),
        name_le(b, c),
    ensures
        name_le(a, c),
    decreases a.len(),
{
    if a.len() > 0 && b.len() > 0 && c.len() > 0 && a[0] == b[0] && b[0] == c[0] {
        lemma_name_le_trans(a.drop_first(), b.drop_first(), c.drop_first());
    }
}

fn name_le_exec(a: &[char], b: &[char]) -> (r: bool)
    ensures
        r == name_le(a@, b@),
{
    let mut i: usize = 0;
    assert(a@.skip(0) =~= a@);
    assert(b@.skip(0) =~= b@);
    while i < a.len() && i < b.len() && a[i] == b[i]
        invariant
            i <= a.len(),
            i <= b.len(),
            name_le(a@, b@) == name_le(a@.skip(i as int), b@.skip(i as int)),
        decreases a.len() - i,
    {
        assert(a@.skip(i as int).drop_first() =~= a@.skip(i + 1));
        assert(b@.skip(i as int).drop_first() =~= b@.skip(i + 1));
        i += 1;
    }
    if i == a.len() {
        true
    } else if i == b.len() {
        false
    } else {
        assert(a@.skip(i as int)[0] == a[i as int] && b@.skip(i as int)[0] == b[i as int]);
        a[i] < b[i]
    }
}

pub open spec fn name_of(d: UsbDevice) -> Seq<char> {
    d.sysfs_name@
}

/// Devices in the order of their topology names.
pub open spec fn sorted_by_name(ds: Seq<UsbDevice>) -> bool {
    forall|i: int, j: int| 0 <= i < j < ds.len() ==> name_le(name_of(#[trigger] ds[i]), name_of(#[trigger] ds[j]))
}

/// The devices ordered by topology name (e.g. 1-5 before 1-5.1 before 2-1).
pub fn sort_usb_devices(devices: Vec<UsbDevice>) -> (r: Vec<UsbDevice>)
    ensures
        sorted_by_name(r@),
        r@.to_multiset() == devices@.to_multiset(),
{
    broadcast use vstd::seq_lib::group_to_multiset_ensures;
    let ghost orig = devices@;
    let mut rest = devices;
    let mut out: Vec<UsbDevice> = Vec::new();
    while rest.len() > 0
        invariant
            sorted_by_name(out@),
            out@.to_multiset().add(rest@.to_multiset()) == orig.to_multiset(),
        decreases rest.len(),
    {
        let ghost r0 = rest@;
        let ghost o0 = out@;
        let d = rest.remove(0);
        let key = chars_of_string(&d.sysfs_name);
        let mut p: usize = 0;
        while p < out.len() && name_le_exec(chars_of_string(&out[p].sysfs_name).as_slice(), key.as_slice())
            invariant
                out@ == o0,
                p <= out.len(),
                key@ == name_of(d),
                forall|k: int| 0 <= k < p ==> name_le(name_of(#[trigger] out@[k]), name_of(d)),
            decreases out.len() - p,
        {
            p += 1;
        }
        proof {
            if p < out.len() {
                lemma_name_le_total(name_of(d), name_of(out@[p as int]));
            }
        }
        let ghost dg = d;
        proof {
            assert forall|k: int| p <= k < o0.len() implies name_le(name_of(dg), name_of(#[trigger] o0[k])) by {
                if k > p {
                    assert(name_le(name_of(o0[p as int]), name_of(o0[k])));
                    lemma_name_le_trans(name_of(dg), name_of(o0[p as int]), name_of(o0[k]));
                }
            }
        }
        out.insert(p, d);
        proof {
            let d = dg;
            let o1 = out@;
            assert forall|i: int, j: int| 0 <= i < j < o1.len() implies name_le(name_of(#[trigger] o1[i]), name_of(#[trigger] o1[j])) by {
                if j < p {
                    assert(o1[i] == o0[i] && o1[j] == o0[j]);
                } else if j == p {
                    assert(o1[i] == o0[i]);
                } else if i > p {
                    assert(o1[i] == o0[i - 1] && o1[j] == o0[j - 1]);
                } else if i == p {
                    assert(o1[j] == o0[j - 1]);
                    assert(name_le(name_of(d), name_of(o0[j - 1])));
                } else {
                    assert(o1[i] == o0[i] && o1[j] == o0[j - 1]);
                    assert(name_le(name_of(d), name_of(o0[j - 1])));
                    lemma_name_le_trans(name_of(o0[i]), name_of(d), name_of(o0[j - 1]));
                }
            }
            assert(r0[0] == d);
            assert(r0.contains(d));
            vstd::seq_lib::to_multiset_contains(r0, d);
            vstd::seq_lib::to_multiset_remove(r0, 0);
            vstd::seq_lib::to_multiset_insert(o0, p as int, d);
            assert(rest@ == r0.remove(0));
            assert(o1 == o0.insert(p as int, d));
            let m0 = o0.to_multiset();
            let mr = r0.to_multiset();
            assert(o1.to_multiset() == m0.insert(d));
            assert(rest@.to_multiset() == mr.remove(d));
            assert(m0.insert(d).add(mr.remove(d)) =~= m0.add(mr));
        }
    }
    out
}

} // verus!
