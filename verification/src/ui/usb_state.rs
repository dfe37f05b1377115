//! USB and Bluetooth: the tab's state and how it answers each message.
//! Speeds are held in hundredths, as the sliders move them.

use vstd::prelude::*;
use crate::runner::CmdResult;
use crate::text::{
    chars_of, chars_of_string, decimal_padded, extend, extend_str, opt_view, push_decimal,
    push_decimal_padded, string_of,
};
use crate::ui::usb::{
    bt_connect_script, bt_disconnect_script, bt_forget_script, clamp_int, cursor_size_request,
    hundredths, retrieve_dev_script, spec_bt_connect_script, spec_bt_disconnect_script,
    spec_bt_forget_script, spec_cursor_size_request, spec_retrieve_dev_script,
    spec_tb_speed_request, spec_usb_helper_install_script, tb_speed_request, usb_helper_install_script,
    bt_panel, spec_bt_panel, BtPanel, BtStatus, UsbDevice, UsbFailedPort, BT_PAIR_SCRIPT, BT_SYNC_MATCH_SCRIPT, RESTART_KTRACKBALL_SCRIPT,
    RETRIEVE_ALL_SCRIPT, XHCI_RESET_SCRIPT,
};

verus! {

/// What one scan of USB and Bluetooth found.
#[derive(Debug, Clone)]
pub struct UsbStatus {
    pub devices: Vec<UsbDevice>,
    pub failed_ports: Vec<UsbFailedPort>,
    pub ktrackball_pid: Option<u32>,
    /// COSMIC's pointer acceleration in hundredths (-100..100), where it is set.
    pub pointer_speed_pct: Option<i32>,
    /// The trackball daemon's motion factor in hundredths (100..300).
    pub tb_speed_pct: i32,
    /// XCURSOR_SIZE or the GNOME cursor size.
    pub cursor_size: i32,
    /// Whether the password-less helper is installed.
    pub helper_installed: bool,
    pub bt: BtStatus,
}

pub enum UsbMsg {
    Refresh,
    Refreshed(UsbStatus),
    /// Reconnect one device by its sysfs name (e.g. "1-5.1").
    RetrieveDev(String),
    RetrieveAll,
    XhciReset,
    RestartKtrackball,
    /// The pointer-speed slider moves (-100..100).
    SetPointerSpeed(i32),
    /// The pointer-speed slider is let go.
    CommitPointerSpeed,
    /// The trackball-factor slider moves (factor × 100).
    SetTbSpeed(i32),
    CommitTbSpeed,
    /// The cursor-size slider moves (16..96).
    SetCursorSize(i32),
    CommitCursorSize,
    InstallHelper,
    BtPair,
    BtConnect(String),
    BtDisconnect(String),
    BtForget(String),
    BtSyncMatch,
    Done(CmdResult),
    ConfirmXhci,
    CancelXhci,
}

/// What the caller is to do after an update.
pub enum UsbAction {
    Idle,
    /// Scan USB and Bluetooth and answer `Refreshed`.
    Scan,
    /// Run the script and answer `Done`.
    Run(String),
    /// Write COSMIC's pointer speed (hundredths, -100..100) and answer `Done`.
    WritePointerSpeed(i32),
}

pub ghost enum UsbActionView {
    Idle,
    Scan,
    Run(Seq<char>),
    WritePointerSpeed(i32),
}

pub open spec fn usb_action_view(a: UsbAction) -> UsbActionView {
    match a {
        UsbAction::Idle => UsbActionView::Idle,
        UsbAction::Scan => UsbActionView::Scan,
        UsbAction::Run(s) => UsbActionView::Run(s@),
        UsbAction::WritePointerSpeed(p) => UsbActionView::WritePointerSpeed(p),
    }
}

pub struct UsbState {
    pub status: Option<UsbStatus>,
    pub running: Option<String>,
    pub confirm_xhci: bool,
    /// The pointer-speed slider while it is dragged; otherwise the status is shown.
    pub slider_pct: Option<i32>,
    pub tb_slider: Option<i32>,
    pub cursor_slider: Option<i32>,
}

pub ghost struct UsbStateView {
    pub status: Option<UsbStatus>,
    pub running: Option<Seq<char>>,
    pub confirm_xhci: bool,
    pub slider_pct: Option<i32>,
    pub tb_slider: Option<i32>,
    pub cursor_slider: Option<i32>,
}

impl View for UsbState {
    type V = UsbStateView;

    open spec fn view(&self) -> UsbStateView {
        UsbStateView {
            status: self.status,
            running: opt_view(self.running),
            confirm_xhci: self.confirm_xhci,
            slider_pct: self.slider_pct,
            tb_slider: self.tb_slider,
            cursor_slider: self.cursor_slider,
        }
    }
}

/// The controls of the scanned tab.
pub struct UsbPanel {
    /// The trackball daemon's process, when it runs.
    pub ktrackball_pid: Option<u32>,
    /// The pointer-speed slider: the dragged value, else the scanned one, else 0.
    pub pointer_pct: i32,
    /// Whether the helper is installed: the trackball factor and the cursor
    /// size are offered, else the helper's installation.
    pub helper_installed: bool,
    /// The trackball factor slider: the dragged value, else the scanned one.
    pub tb_pct: i32,
    /// The cursor-size slider, within 16..96.
    pub cursor_size: i32,
    pub bt: BtPanel,
}

/// What the tab shows below the progress line.
pub enum UsbScreen {
    /// The xHCI reset confirmation, in place of everything else.
    ConfirmXhci,
    /// Nothing scanned yet.
    Scanning,
    Panel(UsbPanel),
}

/// The value the pointer slider shows (unclamped).
pub open spec fn shown_pointer_pct(slider: Option<i32>, st: UsbStatus) -> i32 {
    match slider {
        Some(v) => v,
        None => match st.pointer_speed_pct { Some(p) => p, None => 0 },
    }
}

pub open spec fn shown_cursor_size(slider: Option<i32>, st: UsbStatus) -> i32 {
    let v = match slider { Some(v) => v, None => st.cursor_size };
    if v < 16 { 16 } else if v > 96 { 96 } else { v }
}

/// The tab's screen: the confirmation while it is asked, else the scan's
/// controls once there is a scan.
pub fn usb_panel(s: &UsbState) -> (r: UsbScreen)
    ensures
        (r is ConfirmXhci) == s.confirm_xhci,
        (r is Scanning) == (!s.confirm_xhci && s.status is None),
        r matches UsbScreen::Panel(p) ==> (s.status matches Some(st)
            && p.ktrackball_pid == st.ktrackball_pid
            && p.pointer_pct == shown_pointer_pct(s.slider_pct, st)
            && p.helper_installed == st.helper_installed
            && p.tb_pct == (match s.tb_slider { Some(v) => v, None => st.tb_speed_pct })
            && p.cursor_size == shown_cursor_size(s.cursor_slider, st)
            && p.bt@ == spec_bt_panel(st.bt, st.ktrackball_pid is Some)),
{
    if s.confirm_xhci {
        return UsbScreen::ConfirmXhci;
    }
    match &s.status {
        None => UsbScreen::Scanning,
        Some(st) => {
            let pointer_pct = match s.slider_pct {
                Some(v) => v,
                None => match st.pointer_speed_pct {
                    Some(p) => p,
                    None => 0,
                },
            };
            let tb_pct = match s.tb_slider {
                Some(v) => v,
                None => st.tb_speed_pct,
            };
            let c = match s.cursor_slider {
                Some(v) => v,
                None => st.cursor_size,
            };
            let cursor_size = if c < 16 { 16 } else if c > 96 { 96 } else { c };
            UsbScreen::Panel(UsbPanel {
                ktrackball_pid: st.ktrackball_pid,
                pointer_pct,
                helper_installed: st.helper_installed,
                tb_pct,
                cursor_size,
                bt: bt_panel(&st.bt, st.ktrackball_pid.is_some()),
            })
        },
    }
}

/// The pointer speed to write: the dragged value, else the scanned one, else 0,
/// clamped to -100..100.
pub open spec fn pointer_pct(s: UsbStateView) -> i32 {
    let v: int = match s.slider_pct {
        Some(v) => v as int,
        None => match s.status {
            Some(st) => match st.pointer_speed_pct { Some(p) => p as int, None => 0 },
            None => 0,
        },
    };
    clamp_int(v, -100, 100) as i32
}

/// The trackball factor to set: the dragged value, else the scanned one, else 100.
pub open spec fn tb_pct(s: UsbStateView) -> int {
    match s.tb_slider {
        Some(v) => v as int,
        None => match s.status { Some(st) => st.tb_speed_pct as int, None => 100 },
    }
}

/// The cursor size to set: the dragged value, else the scanned one, else 24.
pub open spec fn cursor_n(s: UsbStateView) -> int {
    match s.cursor_slider {
        Some(v) => v as int,
        None => match s.status { Some(st) => st.cursor_size as int, None => 24 },
    }
}

pub open spec fn run_with(s: UsbStateView, label: Seq<char>, script: Seq<char>)
    -> (UsbStateView, UsbActionView, Option<(bool, Seq<char>)>)
{
    (UsbStateView { running: Some(label), ..s }, UsbActionView::Run(script), None)
}

/// How the USB tab answers a message: its next state, what the caller is to
/// do, and what the log is told. `user` is the login name that the helper's
/// sudoers rule names.
pub open spec fn usb_step(s: UsbStateView, msg: UsbMsg, user: Seq<char>)
    -> (UsbStateView, UsbActionView, Option<(bool, Seq<char>)>)
{
    match msg {
        UsbMsg::Refresh => (s, UsbActionView::Scan, None),
        UsbMsg::Refreshed(st) => (
            UsbStateView { status: Some(st), slider_pct: None, tb_slider: None, cursor_slider: None, ..s },
            UsbActionView::Idle,
            None,
        ),
        UsbMsg::SetPointerSpeed(v) => (UsbStateView { slider_pct: Some(v), ..s }, UsbActionView::Idle, None),
        UsbMsg::CommitPointerSpeed => (s, UsbActionView::WritePointerSpeed(pointer_pct(s)), None),
        UsbMsg::SetTbSpeed(v) => (UsbStateView { tb_slider: Some(v), ..s }, UsbActionView::Idle, None),
        UsbMsg::CommitTbSpeed => {
            let r = spec_tb_speed_request(tb_pct(s));
            run_with(s, r.0, r.1)
        },
        UsbMsg::SetCursorSize(v) => (UsbStateView { cursor_slider: Some(v), ..s }, UsbActionView::Idle, None),
        UsbMsg::CommitCursorSize => {
            let r = spec_cursor_size_request(cursor_n(s));
            run_with(s, r.0, r.1)
        },
        UsbMsg::InstallHelper => run_with(s, "권한 헬퍼 설치 중 (암호 입력)..."@, spec_usb_helper_install_script(user)),
        UsbMsg::RetrieveDev(name) => run_with(s, name@ + " 재인식 중..."@, spec_retrieve_dev_script(name@)),
        UsbMsg::RetrieveAll => run_with(s, "USB 전체 재인식 중 (authorized 토글)..."@, RETRIEVE_ALL_SCRIPT@),
        UsbMsg::XhciReset => (UsbStateView { confirm_xhci: true, ..s }, UsbActionView::Idle, None),
        UsbMsg::ConfirmXhci => run_with(UsbStateView { confirm_xhci: false, ..s }, "xHCI 리셋 중..."@, XHCI_RESET_SCRIPT@),
        UsbMsg::CancelXhci => (UsbStateView { confirm_xhci: false, ..s }, UsbActionView::Idle, None),
        UsbMsg::RestartKtrackball => run_with(s, "ktrackball 재시작 중..."@, RESTART_KTRACKBALL_SCRIPT@),
        UsbMsg::BtPair => run_with(s, "블루투스 검색 중... (버튼 4개 3초로 페어링 모드 진입)"@, BT_PAIR_SCRIPT@),
        UsbMsg::BtConnect(mac) => run_with(s, "연결 중..."@, spec_bt_connect_script(mac@)),
        UsbMsg::BtDisconnect(mac) => run_with(s, "연결 해제 중..."@, spec_bt_disconnect_script(mac@)),
        UsbMsg::BtForget(mac) => run_with(s, "페어링 해제 중..."@, spec_bt_forget_script(mac@)),
        UsbMsg::BtSyncMatch => run_with(s, "ktrackball 설정 동기화 중..."@, BT_SYNC_MATCH_SCRIPT@),
        UsbMsg::Done(r) => (UsbStateView { running: None, ..s }, UsbActionView::Scan, Some((r.success, r.output@))),
    }
}

pub open spec fn usb_result_view(r: Option<CmdResult>) -> Option<(bool, Seq<char>)> {
    match r {
        Some(x) => Some((x.success, x.output@)),
        None => None,
    }
}

fn running_str(s: &str) -> (r: Option<String>)
    ensures
        opt_view(r) == Some(s@),
{
    Some(string_of(chars_of(s)))
}

fn run_str(s: &str) -> (a: UsbAction)
    ensures
        usb_action_view(a) == UsbActionView::Run(s@),
{
    UsbAction::Run(string_of(chars_of(s)))
}

impl UsbState {
    pub fn new() -> (s: Self)
        ensures
            s.status is None && s.running is None && !s.confirm_xhci,
            s.slider_pct is None && s.tb_slider is None && s.cursor_slider is None,
    {
        UsbState { status: None, running: None, confirm_xhci: false, slider_pct: None, tb_slider: None, cursor_slider: None }
    }

    /// Answers a message; see `usb_step` for what each one does.
    pub fn update(&mut self, msg: UsbMsg, user: &str) -> (r: (UsbAction, Option<CmdResult>))
        ensures
            (final(self)@, usb_action_view(r.0), usb_result_view(r.1)) == usb_step(old(self)@, msg, user@),
    {
        match msg {
            UsbMsg::Refresh => (UsbAction::Scan, None),
            UsbMsg::Refreshed(st) => {
                self.status = Some(st);
                self.slider_pct = None;
                self.tb_slider = None;
                self.cursor_slider = None;
                (UsbAction::Idle, None)
            },
            UsbMsg::SetPointerSpeed(v) => {
                self.slider_pct = Some(v);
                (UsbAction::Idle, None)
            },
            UsbMsg::CommitPointerSpeed => {
                let v: i32 = match self.slider_pct {
                    Some(v) => v,
                    None => match &self.status {
                        Some(st) => match st.pointer_speed_pct {
                            Some(p) => p,
                            None => 0,
                        },
                        None => 0,
                    },
                };
                let c: i32 = if v < -100 { -100 } else if v > 100 { 100 } else { v };
                (UsbAction::WritePointerSpeed(c), None)
            },
            UsbMsg::SetTbSpeed(v) => {
                self.tb_slider = Some(v);
                (UsbAction::Idle, None)
            },
            UsbMsg::CommitTbSpeed => {
                let v: i32 = match self.tb_slider {
                    Some(v) => v,
                    None => match &self.status {
                        Some(st) => st.tb_speed_pct,
                        None => 100,
                    },
                };
                let (label, script) = tb_speed_request(v);
                self.running = Some(label);
                (UsbAction::Run(script), None)
            },
            UsbMsg::SetCursorSize(v) => {
                self.cursor_slider = Some(v);
                (UsbAction::Idle, None)
            },
            UsbMsg::CommitCursorSize => {
                let n: i32 = match self.cursor_slider {
                    Some(v) => v,
                    None => match &self.status {
                        Some(st) => st.cursor_size,
                        None => 24,
                    },
                };
                let (label, script) = cursor_size_request(n);
                self.running = Some(label);
                (UsbAction::Run(script), None)
            },
            UsbMsg::InstallHelper => {
                self.running = running_str("권한 헬퍼 설치 중 (암호 입력)...");
                (UsbAction::Run(usb_helper_install_script(user)), None)
            },
            UsbMsg::RetrieveDev(name) => {
                let mut l = chars_of_string(&name);
                extend_str(&mut l, " 재인식 중...");
                self.running = Some(string_of(l));
                (UsbAction::Run(retrieve_dev_script(name.as_str())), None)
            },
            UsbMsg::RetrieveAll => {
                self.running = running_str("USB 전체 재인식 중 (authorized 토글)...");
                (run_str(RETRIEVE_ALL_SCRIPT), None)
            },
            UsbMsg::XhciReset => {
                self.confirm_xhci = true;
                (UsbAction::Idle, None)
            },
            UsbMsg::ConfirmXhci => {
                self.confirm_xhci = false;
                self.running = running_str("xHCI 리셋 중...");
                (run_str(XHCI_RESET_SCRIPT), None)
            },
            UsbMsg::CancelXhci => {
                self.confirm_xhci = false;
                (UsbAction::Idle, None)
            },
            UsbMsg::RestartKtrackball => {
                self.running = running_str("ktrackball 재시작 중...");
                (run_str(RESTART_KTRACKBALL_SCRIPT), None)
            },
            UsbMsg::BtPair => {
                self.running = running_str("블루투스 검색 중... (버튼 4개 3초로 페어링 모드 진입)");
                (run_str(BT_PAIR_SCRIPT), None)
            },
            UsbMsg::BtConnect(mac) => {
                self.running = running_str("연결 중...");
                (UsbAction::Run(bt_connect_script(mac.as_str())), None)
            },
            UsbMsg::BtDisconnect(mac) => {
                self.running = running_str("연결 해제 중...");
                (UsbAction::Run(bt_disconnect_script(mac.as_str())), None)
            },
            UsbMsg::BtForget(mac) => {
                self.running = running_str("페어링 해제 중...");
                (UsbAction::Run(bt_forget_script(mac.as_str())), None)
            },
            UsbMsg::BtSyncMatch => {
                self.running = running_str("ktrackball 설정 동기화 중...");
                (run_str(BT_SYNC_MATCH_SCRIPT), None)
            },
            UsbMsg::Done(r) => {
                self.running = None;
                (UsbAction::Scan, Some(r))
            },
        }
    }
}

/// A speed in hundredths, written with two decimals and its sign, as `{:.2}`
/// writes the speed.
pub open spec fn signed_hundredths(v: int) -> Seq<char> {
    if v < 0 { "-"@ + hundredths((-v) as nat) } else { hundredths(v as nat) }
}

/// What the log is told once the pointer speed was written (or not).
pub open spec fn spec_pointer_speed_result(pct: int, error: Option<Seq<char>>) -> (bool, Seq<char>) {
    match error {
        None => (true, "포인터 속도 적용: "@ + signed_hundredths(pct)),
        Some(e) => (false, "포인터 속도 적용 실패: "@ + e),
    }
}

pub fn pointer_speed_result(pct: i32, error: Option<String>) -> (r: CmdResult)
    requires
        -100 <= pct <= 100,
    ensures
        (r.success, r.output@) == spec_pointer_speed_result(pct as int, opt_view(error)),
{
    match error {
        None => {
            let mut o = chars_of("포인터 속도 적용: ");
            let a: u64 = if pct < 0 { (0 - pct) as u64 } else { pct as u64 };
            if pct < 0 {
                o.push('-');
            }
            let ghost o0 = o@;
            push_decimal(&mut o, a / 100);
            extend_str(&mut o, ".");
            push_decimal_padded(&mut o, a % 100, 2);
            proof { reveal_strlit("-"); }
            assert(o@ =~= "포인터 속도 적용: "@ + signed_hundredths(pct as int));
            CmdResult { success: true, output: string_of(o) }
        },
        Some(e) => {
            let mut o = chars_of("포인터 속도 적용 실패: ");
            extend(&mut o, chars_of_string(&e).as_slice());
            CmdResult { success: false, output: string_of(o) }
        },
    }
}

/// The slider positions never leave a command's bounds: whatever was dragged
/// or scanned, the pointer speed written stays within -1.00..1.00.
pub proof fn law_pointer_speed_clamped(s: UsbStateView)
    ensures
        -100 <= pointer_pct(s) <= 100,
{
}

} // verus!
