//! The input-method tab as a state machine: each event gives the next state
//! and one piece of outside work, which the application performs and answers
//! with the next event.

use vstd::prelude::*;
use crate::runner::CmdResult;
use crate::text::{chars_of, chars_of_string, extend, extend_str, join, opt_view, string_of, to_string};
use crate::ui::ime::{spec_label, spec_pkgs, startup_daemon_to_start, Fcitx5Behavior, ImeKind};
use crate::ui::ime_gtk::GtkModuleBugStatus;
use crate::ui::ime_shell::spec_auto_reconnect_script;

verus! {

/// The start-up file lines that fight the active input method.
#[derive(Debug, Clone)]
pub struct ShellInitConflict {
    /// e.g. /home/dell/.profile
    pub path: String,
    /// The conflicting export lines, as written.
    pub lines: Vec<String>,
}

/// A JetBrains IDE's vmoptions file and the input-method options it has.
#[derive(Debug, Clone)]
pub struct JetBrainsVmOptions {
    /// e.g. IntelliJIdea2026.1
    pub name: String,
    /// Absolute path of idea64.vmoptions or the like.
    pub path: String,
    pub has_xtoolkit: bool,
    pub has_recreate_xim: bool,
}

/// Everything one scan of the input-method setup found.
#[derive(Debug, Clone)]
pub struct ImeStatus {
    pub installed_ibus: bool,
    pub installed_fcitx5: bool,
    pub installed_kime: bool,
    pub active: Option<ImeKind>,
    pub daemon_running: Option<ImeKind>,
    pub env_match: bool,
    /// Export lines of the user's shell start-up files against the active input method.
    pub shell_init_conflicts: Vec<ShellInitConflict>,
    /// A leaked GTK_IM_MODULE_FILE (snap and the like); `Some` is a fault.
    pub snap_im_module_file: Option<String>,
    pub jetbrains_ides: Vec<JetBrainsVmOptions>,
    /// Whether the system-sleep hook that restarts the daemon on resume is installed.
    pub resume_hook_installed: bool,
    pub libreoffice_installed: bool,
    pub libreoffice_running_wayland: bool,
    pub libreoffice_fcitx_module_loaded: bool,
    pub libreoffice_compat_installed: bool,
    /// The fcitx5 input-state policy (only while fcitx5 is active).
    pub fcitx5_behavior: Option<Fcitx5Behavior>,
    pub gtk_module_bug: Option<GtkModuleBugStatus>,
    /// Toolkit frontends missing while fcitx5 is active.
    pub fcitx5_missing_frontends: Vec<&'static str>,
    /// Autostart entries that start fcitx5 beside its systemd unit.
    pub fcitx5_dup_launchers: Vec<String>,
    /// Running fcitx5 processes (two or more is a duplicate start).
    pub fcitx5_instances: usize,
}

#[derive(Debug, Clone)]
pub enum ImeMsg {
    Refresh,
    Refreshed(ImeStatus),
    AutoReconnect(ImeKind),
    Select(ImeKind),
    Install(ImeKind),
    Apply,
    Watchdog,
    Noop,
    CleanShellInits,
    PatchJetBrains,
    InstallResumeHook,
    UninstallResumeHook,
    InstallLibreOfficeCompat,
    UninstallLibreOfficeCompat,
    FixFcitx5Behavior,
    InstallFcitx5Frontends,
    FixFcitx5Launchers,
    RegisterImeFixShortcut,
    RestartDaemon,
    Done(CmdResult),
}

/// The outside work that an event asks for.
#[derive(Debug)]
pub enum ImeAction {
    Idle,
    /// Scan the setup; answer `Refreshed`.
    Scan,
    /// Wait briefly, then answer `AutoReconnect` with the kind.
    ReconnectAfterDelay(ImeKind),
    /// Run the script; answer `Refresh`.
    RunThenRefresh(String),
    /// Look for the daemon's process; answer with `watchdog_result`.
    CheckDaemon(ImeKind),
    /// Run the script; answer `Done`.
    RunScript(String),
    ApplyIme(ImeKind),
    CleanShellInits { conflicts: Vec<ShellInitConflict>, active: ImeKind },
    PatchJetBrains(Vec<JetBrainsVmOptions>),
    /// Register the repair shortcut; report its result, then answer `Refreshed`.
    RegisterImeFixShortcut,
    FixFcitx5Launchers(Vec<String>),
    InstallResumeHook,
    UninstallResumeHook,
    InstallLibreOfficeCompat,
    UninstallLibreOfficeCompat,
    FixFcitx5Behavior,
    InstallFcitx5Frontends(Vec<&'static str>),
    RestartDaemon(ImeKind),
}

pub struct ImeState {
    pub status: Option<ImeStatus>,
    pub selected: ImeKind,
    pub running: Option<String>,
    /// The start-up reconnection happens once, so that no scan restarts the
    /// daemon in a loop.
    pub auto_reconnected: bool,
}

pub open spec fn strings_view(v: Seq<String>) -> Seq<Seq<char>> {
    v.map_values(|s: String| s@)
}

pub open spec fn conflicts_view(v: Seq<ShellInitConflict>) -> Seq<(Seq<char>, Seq<Seq<char>>)> {
    v.map_values(|c: ShellInitConflict| (c.path@, strings_view(c.lines@)))
}

pub open spec fn ides_view(v: Seq<JetBrainsVmOptions>) -> Seq<(Seq<char>, Seq<char>, bool, bool)> {
    v.map_values(|o: JetBrainsVmOptions| (o.name@, o.path@, o.has_xtoolkit, o.has_recreate_xim))
}

fn clone_string(s: &String) -> (r: String)
    ensures
        r@ == s@,
{
    to_string(chars_of_string(s).as_slice())
}

fn clone_strings(v: &Vec<String>) -> (r: Vec<String>)
    ensures
        strings_view(r@) == strings_view(v@),
{
    let mut r: Vec<String> = Vec::new();
    let mut i: usize = 0;
    while i < v.len()
        invariant
            i <= v.len(),
            strings_view(r@) == strings_view(v@.take(i as int)),
        decreases v.len() - i,
    {
        let ghost before = r@;
        r.push(clone_string(&v[i]));
        assert(strings_view(r@) =~= strings_view(before).push(v@[i as int]@));
        assert(v@.take(i + 1) =~= v@.take(i as int).push(v@[i as int]));
        assert(strings_view(v@.take(i + 1)) =~= strings_view(v@.take(i as int)).push(v@[i as int]@));
        i += 1;
    }
    assert(v@.take(v.len() as int) =~= v@);
    r
}

fn clone_conflicts(v: &Vec<ShellInitConflict>) -> (r: Vec<ShellInitConflict>)
    ensures
        conflicts_view(r@) == conflicts_view(v@),
{
    let mut r: Vec<ShellInitConflict> = Vec::new();
    let mut i: usize = 0;
    while i < v.len()
        invariant
            i <= v.len(),
            conflicts_view(r@) == conflicts_view(v@.take(i as int)),
        decreases v.len() - i,
    {
        let ghost before = r@;
        let c = ShellInitConflict { path: clone_string(&v[i].path), lines: clone_strings(&v[i].lines) };
        let ghost cv = (c.path@, strings_view(c.lines@));
        r.push(c);
        assert(conflicts_view(r@) =~= conflicts_view(before).push(cv));
        assert(v@.take(i + 1) =~= v@.take(i as int).push(v@[i as int]));
        assert(conflicts_view(v@.take(i + 1)) =~= conflicts_view(v@.take(i as int)).push(
            (v@[i as int].path@, strings_view(v@[i as int].lines@)),
        ));
        i += 1;
    }
    assert(v@.take(v.len() as int) =~= v@);
    r
}

fn clone_ides(v: &Vec<JetBrainsVmOptions>) -> (r: Vec<JetBrainsVmOptions>)
    ensures
        ides_view(r@) == ides_view(v@),
{
    let mut r: Vec<JetBrainsVmOptions> = Vec::new();
    let mut i: usize = 0;
    while i < v.len()
        invariant
            i <= v.len(),
            ides_view(r@) == ides_view(v@.take(i as int)),
        decreases v.len() - i,
    {
        let ghost before = r@;
        let o = JetBrainsVmOptions {
            name: clone_string(&v[i].name),
            path: clone_string(&v[i].path),
            has_xtoolkit: v[i].has_xtoolkit,
            has_recreate_xim: v[i].has_recreate_xim,
        };
        let ghost ov = (o.name@, o.path@, o.has_xtoolkit, o.has_recreate_xim);
        r.push(o);
        assert(ides_view(r@) =~= ides_view(before).push(ov));
        assert(v@.take(i + 1) =~= v@.take(i as int).push(v@[i as int]));
        assert(ides_view(v@.take(i + 1)) =~= ides_view(v@.take(i as int)).push(
            (v@[i as int].name@, v@[i as int].path@, v@[i as int].has_xtoolkit, v@[i as int].has_recreate_xim),
        ));
        i += 1;
    }
    assert(v@.take(v.len() as int) =~= v@);
    r
}

fn clone_strs(v: &Vec<&'static str>) -> (r: Vec<&'static str>)
    ensures
        r@ == v@,
{
    let mut r: Vec<&'static str> = Vec::new();
    let mut i: usize = 0;
    while i < v.len()
        invariant
            i <= v.len(),
            r@ == v@.take(i as int),
        decreases v.len() - i,
    {
        r.push(v[i]);
        assert(v@.take(i + 1) =~= v@.take(i as int).push(v@[i as int]));
        i += 1;
    }
    assert(v@.take(v.len() as int) =~= v@);
    r
}

/// The input method that the tab acts on: the active one, else the selected one.
pub open spec fn effective_kind(st: ImeState) -> ImeKind {
    match st.status {
        Some(s) => match s.active {
            Some(k) => k,
            None => st.selected,
        },
        None => st.selected,
    }
}

pub open spec fn spec_install_script(k: ImeKind) -> Seq<char> {
    "pkexec apt-get install -y "@ + join(spec_pkgs(k), " "@)
}

pub const KIME_INSTALL_NOTE: &'static str = "kime는 GitHub Releases에서 직접 설치:\nhttps://github.com/Riey/kime/releases";

/// What the watchdog's process check leads to: nothing while the daemon
/// lives, a reconnection otherwise.
pub open spec fn spec_watchdog_result(kind: ImeKind, alive: bool) -> ImeMsg {
    if alive { ImeMsg::Noop } else { ImeMsg::AutoReconnect(kind) }
}

pub fn watchdog_result(kind: ImeKind, alive: bool) -> (r: ImeMsg)
    ensures
        r == spec_watchdog_result(kind, alive),
{
    if alive { ImeMsg::Noop } else { ImeMsg::AutoReconnect(kind) }
}

/// Whether the update leaves the scan, the selection and the reconnection flag alone.
pub open spec fn keeps_scan(a: ImeState, b: ImeState) -> bool {
    a.status == b.status && a.selected == b.selected && a.auto_reconnected == b.auto_reconnected
}

impl ImeState {
    pub fn new() -> (s: Self)
        ensures
            s.status is None,
            s.selected == ImeKind::Kime,
            s.running is None,
            !s.auto_reconnected,
    {
        ImeState { status: None, selected: ImeKind::Kime, running: None, auto_reconnected: false }
    }

    fn set_running(&mut self, label: Vec<char>)
        ensures
            opt_view(final(self).running) == Some(label@),
            keeps_scan(*old(self), *final(self)),
    {
        self.running = Some(string_of(label));
    }

    /// The next state and the work to do for an event.  At start-up the active
    /// daemon is started once, and only when none runs; a request marks the tab
    /// busy with a label; a finished task clears it, rescans and hands its
    /// result on to the log.
    pub fn update(&mut self, msg: ImeMsg) -> (r: (ImeAction, Option<CmdResult>))
        ensures
            match msg {
                ImeMsg::Refresh => r.0 is Scan && r.1 is None && *final(self) == *old(self),
                ImeMsg::Refreshed(s) => {
                    &&& r.1 is None
                    &&& final(self).status == Some(s)
                    &&& final(self).selected == (match s.active { Some(k) => k, None => old(self).selected })
                    &&& final(self).running == old(self).running
                    &&& final(self).auto_reconnected
                    &&& (if old(self).auto_reconnected {
                        r.0 is Idle
                    } else {
                        match (if s.daemon_running is None { s.active } else { None }) {
                            Some(k) => r.0 == ImeAction::ReconnectAfterDelay(k),
                            None => r.0 is Idle,
                        }
                    })
                },
                ImeMsg::AutoReconnect(k) => {
                    &&& r.1 is None && *final(self) == *old(self)
                    &&& r.0 matches ImeAction::RunThenRefresh(sc) && sc@ == spec_auto_reconnect_script(k)
                },
                ImeMsg::Select(k) => {
                    &&& r.0 is Idle && r.1 is None
                    &&& final(self).selected == k
                    &&& final(self).status == old(self).status && final(self).running == old(self).running
                    &&& final(self).auto_reconnected == old(self).auto_reconnected
                },
                ImeMsg::Watchdog => {
                    r.0 == ImeAction::CheckDaemon(effective_kind(*old(self))) && r.1 is None
                        && *final(self) == *old(self)
                },
                ImeMsg::Noop => r.0 is Idle && r.1 is None && *final(self) == *old(self),
                ImeMsg::Install(k) => {
                    if spec_pkgs(k).len() == 0 {
                        &&& r.0 is Idle && *final(self) == *old(self)
                        &&& r.1 matches Some(res) && !res.success && res.output@ == KIME_INSTALL_NOTE@
                    } else {
                        &&& r.1 is None && keeps_scan(*old(self), *final(self))
                        &&& opt_view(final(self).running) == Some(spec_label(k) + " 설치 중..."@)
                        &&& r.0 matches ImeAction::RunScript(sc) && sc@ == spec_install_script(k)
                    }
                },
                ImeMsg::Apply => {
                    &&& r.1 is None && keeps_scan(*old(self), *final(self))
                    &&& opt_view(final(self).running) == Some(spec_label(old(self).selected) + " 적용 중..."@)
                    &&& r.0 == ImeAction::ApplyIme(old(self).selected)
                },
                ImeMsg::CleanShellInits => {
                    &&& r.1 is None && keeps_scan(*old(self), *final(self))
                    &&& opt_view(final(self).running) == Some("셸 init 파일 정리 중..."@)
                    &&& r.0 matches ImeAction::CleanShellInits { conflicts, active }
                        && active == effective_kind(*old(self))
                        && conflicts_view(conflicts@) == (match old(self).status {
                            Some(s) => conflicts_view(s.shell_init_conflicts@),
                            None => seq![],
                        })
                },
                ImeMsg::PatchJetBrains => {
                    &&& r.1 is None && keeps_scan(*old(self), *final(self))
                    &&& opt_view(final(self).running) == Some("JetBrains vmoptions 패치 중..."@)
                    &&& r.0 matches ImeAction::PatchJetBrains(ides)
                        && ides_view(ides@) == (match old(self).status {
                            Some(s) => ides_view(s.jetbrains_ides@),
                            None => seq![],
                        })
                },
                ImeMsg::RegisterImeFixShortcut => {
                    r.0 is RegisterImeFixShortcut && r.1 is None && *final(self) == *old(self)
                },
                ImeMsg::FixFcitx5Launchers => {
                    &&& r.1 is None && keeps_scan(*old(self), *final(self))
                    &&& opt_view(final(self).running) == Some("fcitx5 자동실행 중복 제거 중..."@)
                    &&& r.0 matches ImeAction::FixFcitx5Launchers(names)
                        && strings_view(names@) == (match old(self).status {
                            Some(s) => strings_view(s.fcitx5_dup_launchers@),
                            None => seq![],
                        })
                },
                ImeMsg::InstallResumeHook => {
                    &&& r.0 is InstallResumeHook && r.1 is None && keeps_scan(*old(self), *final(self))
                    &&& opt_view(final(self).running) == Some("Resume 훅 설치 중..."@)
                },
                ImeMsg::UninstallResumeHook => {
                    &&& r.0 is UninstallResumeHook && r.1 is None && keeps_scan(*old(self), *final(self))
                    &&& opt_view(final(self).running) == Some("Resume 훅 제거 중..."@)
                },
                ImeMsg::InstallLibreOfficeCompat => {
                    &&& r.0 is InstallLibreOfficeCompat && r.1 is None && keeps_scan(*old(self), *final(self))
                    &&& opt_view(final(self).running) == Some("LibreOffice 한글 입력 호환 모드 설치 중..."@)
                },
                ImeMsg::UninstallLibreOfficeCompat => {
                    &&& r.0 is UninstallLibreOfficeCompat && r.1 is None && keeps_scan(*old(self), *final(self))
                    &&& opt_view(final(self).running) == Some("LibreOffice 한글 입력 호환 모드 제거 중..."@)
                },
                ImeMsg::FixFcitx5Behavior => {
                    &&& r.0 is FixFcitx5Behavior && r.1 is None && keeps_scan(*old(self), *final(self))
                    &&& opt_view(final(self).running) == Some("fcitx5 한/영 상태 유지 설정 적용 중..."@)
                },
                ImeMsg::InstallFcitx5Frontends => {
                    &&& r.1 is None && keeps_scan(*old(self), *final(self))
                    &&& opt_view(final(self).running) == Some("fcitx5 프론트엔드 설치 중..."@)
                    &&& r.0 matches ImeAction::InstallFcitx5Frontends(pkgs)
                        && pkgs@ == (match old(self).status {
                            Some(s) => s.fcitx5_missing_frontends@,
                            None => seq![],
                        })
                },
                ImeMsg::RestartDaemon => {
                    &&& r.1 is None && keeps_scan(*old(self), *final(self))
                    &&& opt_view(final(self).running) == Some(spec_label(effective_kind(*old(self))) + " 재시작 중..."@)
                    &&& r.0 == ImeAction::RestartDaemon(effective_kind(*old(self)))
                },
                ImeMsg::Done(res) => {
                    &&& r.0 is Scan && r.1 == Some(res)
                    &&& final(self).running is None && keeps_scan(*old(self), *final(self))
                },
            },
    {
        match msg {
            ImeMsg::Refresh => (ImeAction::Scan, None),
            ImeMsg::Refreshed(s) => {
                match s.active {
                    Some(k) => { self.selected = k; },
                    None => {},
                }
                let action = if !self.auto_reconnected {
                    self.auto_reconnected = true;
                    match startup_daemon_to_start(s.active.as_ref(), s.daemon_running.as_ref()) {
                        Some(k) => ImeAction::ReconnectAfterDelay(k),
                        None => ImeAction::Idle,
                    }
                } else {
                    ImeAction::Idle
                };
                self.status = Some(s);
                (action, None)
            },
            ImeMsg::AutoReconnect(k) => {
                let sc = crate::ui::ime_shell::auto_reconnect_script(&k);
                (ImeAction::RunThenRefresh(sc), None)
            },
            ImeMsg::Select(k) => {
                self.selected = k;
                (ImeAction::Idle, None)
            },
            ImeMsg::Watchdog => (ImeAction::CheckDaemon(self.effective_kind()), None),
            ImeMsg::Noop => (ImeAction::Idle, None),
            ImeMsg::Install(k) => {
                let pkgs = k.pkg();
                if pkgs.len() == 0 {
                    let res = CmdResult { success: false, output: string_of(chars_of(KIME_INSTALL_NOTE)) };
                    return (ImeAction::Idle, Some(res));
                }
                let mut label = chars_of(k.label());
                extend_str(&mut label, " 설치 중...");
                self.set_running(label);
                let mut parts: Vec<Vec<char>> = Vec::new();
                let mut i: usize = 0;
                while i < pkgs.len()
                    invariant
                        i <= pkgs.len(),
                        parts.deep_view() == pkgs@.take(i as int).map_values(|s: &str| s@),
                    decreases pkgs.len() - i,
                {
                    crate::text::push_piece(&mut parts, chars_of(pkgs[i]));
                    assert(pkgs@.take(i + 1) =~= pkgs@.take(i as int).push(pkgs@[i as int]));
                    assert(parts.deep_view() =~= pkgs@.take(i + 1).map_values(|s: &str| s@));
                    i += 1;
                }
                assert(pkgs@.take(pkgs.len() as int) =~= pkgs@);
                let mut sc = chars_of("pkexec apt-get install -y ");
                let j = crate::text::join_str(&parts, " ");
                extend(&mut sc, j.as_slice());
                (ImeAction::RunScript(string_of(sc)), None)
            },
            ImeMsg::Apply => {
                let k = self.selected;
                let mut label = chars_of(k.label());
                extend_str(&mut label, " 적용 중...");
                self.set_running(label);
                (ImeAction::ApplyIme(k), None)
            },
            ImeMsg::CleanShellInits => {
                let conflicts = match &self.status {
                    Some(s) => clone_conflicts(&s.shell_init_conflicts),
                    None => Vec::new(),
                };
                let active = self.effective_kind();
                self.set_running(chars_of("셸 init 파일 정리 중..."));
                (ImeAction::CleanShellInits { conflicts, active }, None)
            },
            ImeMsg::PatchJetBrains => {
                let ides = match &self.status {
                    Some(s) => clone_ides(&s.jetbrains_ides),
                    None => Vec::new(),
                };
                self.set_running(chars_of("JetBrains vmoptions 패치 중..."));
                (ImeAction::PatchJetBrains(ides), None)
            },
            ImeMsg::RegisterImeFixShortcut => (ImeAction::RegisterImeFixShortcut, None),
            ImeMsg::FixFcitx5Launchers => {
                let names = match &self.status {
                    Some(s) => clone_strings(&s.fcitx5_dup_launchers),
                    None => Vec::new(),
                };
                self.set_running(chars_of("fcitx5 자동실행 중복 제거 중..."));
                (ImeAction::FixFcitx5Launchers(names), None)
            },
            ImeMsg::InstallResumeHook => {
                self.set_running(chars_of("Resume 훅 설치 중..."));
                (ImeAction::InstallResumeHook, None)
            },
            ImeMsg::UninstallResumeHook => {
                self.set_running(chars_of("Resume 훅 제거 중..."));
                (ImeAction::UninstallResumeHook, None)
            },
            ImeMsg::InstallLibreOfficeCompat => {
                self.set_running(chars_of("LibreOffice 한글 입력 호환 모드 설치 중..."));
                (ImeAction::InstallLibreOfficeCompat, None)
            },
            ImeMsg::UninstallLibreOfficeCompat => {
                self.set_running(chars_of("LibreOffice 한글 입력 호환 모드 제거 중..."));
                (ImeAction::UninstallLibreOfficeCompat, None)
            },
            ImeMsg::FixFcitx5Behavior => {
                self.set_running(chars_of("fcitx5 한/영 상태 유지 설정 적용 중..."));
                (ImeAction::FixFcitx5Behavior, None)
            },
            ImeMsg::InstallFcitx5Frontends => {
                let pkgs = match &self.status {
                    Some(s) => clone_strs(&s.fcitx5_missing_frontends),
                    None => Vec::new(),
                };
                self.set_running(chars_of("fcitx5 프론트엔드 설치 중..."));
                (ImeAction::InstallFcitx5Frontends(pkgs), None)
            },
            ImeMsg::RestartDaemon => {
                let k = self.effective_kind();
                let mut label = chars_of(k.label());
                extend_str(&mut label, " 재시작 중...");
                self.set_running(label);
                (ImeAction::RestartDaemon(k), None)
            },
            ImeMsg::Done(res) => {
                self.running = None;
                (ImeAction::Scan, Some(res))
            },
        }
    }

    /// The input method that the tab acts on: the active one, else the selected one.
    pub fn effective_kind(&self) -> (k: ImeKind)
        ensures
            k == effective_kind(*self),
    {
        match &self.status {
            Some(s) => match s.active {
                Some(k) => k,
                None => self.selected,
            },
            None => self.selected,
        }
    }
}

// ---------------------------------------------------------------- JetBrains vmoptions

/// Whether some line, trimmed, begins with `flag`.
pub open spec fn has_flag_line(ls: Seq<Seq<char>>, flag: Seq<char>) -> bool {
    exists|i: int| 0 <= i < ls.len() && crate::text::starts_with(crate::text::trim(#[trigger] ls[i]), flag)
}

fn has_flag_line_exec(content: &str, flag: &str) -> (r: bool)
    ensures
        r == has_flag_line(crate::text::lines(content@), flag@),
{
    let ls = crate::text::lines_of(content);
    let ghost lv = ls.deep_view();
    let mut i: usize = 0;
    while i < ls.len()
        invariant
            i <= ls.len(),
            lv == ls.deep_view(),
            lv == crate::text::lines(content@),
            forall|j: int| 0 <= j < i ==> !crate::text::starts_with(crate::text::trim(#[trigger] lv[j]), flag@),
        decreases ls.len() - i,
    {
        proof { crate::text::lemma_deep_view_chars(&ls[i as int]); }
        let t = crate::text::trim_exec(ls[i].as_slice());
        if crate::text::starts_with_str(t.as_slice(), flag) {
            assert(crate::text::starts_with(crate::text::trim(lv[i as int]), flag@));
            return true;
        }
        i += 1;
    }
    false
}

/// A vmoptions file of an IDE, with which of the two input-method options it sets.
pub fn vmoptions_entry(name: String, path: String, content: &str) -> (r: JetBrainsVmOptions)
    ensures
        r.name == name,
        r.path == path,
        r.has_xtoolkit == has_flag_line(crate::text::lines(content@), "-Dawt.toolkit.name=XToolkit"@),
        r.has_recreate_xim == has_flag_line(crate::text::lines(content@), "-Drecreate.x11.input.method=true"@),
{
    let has_xtoolkit = has_flag_line_exec(content, "-Dawt.toolkit.name=XToolkit");
    let has_recreate_xim = has_flag_line_exec(content, "-Drecreate.x11.input.method=true");
    JetBrainsVmOptions { name, path, has_xtoolkit, has_recreate_xim }
}

pub open spec fn xtoolkit_block() -> Seq<char> {
    "# popmgr: Korean IME via X11 XIM (avoids native Wayland IM hangs)\n-Dawt.toolkit.name=XToolkit\n"@
}

pub open spec fn recreate_block() -> Seq<char> {
    "# popmgr: rebuild X input method context after IME daemon restarts\n-Drecreate.x11.input.method=true\n"@
}

/// A vmoptions file with the missing options appended, each after a comment
/// line, the file first ended with a newline.
pub open spec fn spec_patched_vmoptions(content: Seq<char>, has_xtoolkit: bool, has_recreate_xim: bool) -> Seq<char> {
    let base = if content.len() > 0 && content.last() == '\n' { content } else { content.push('\n') };
    base + (if has_xtoolkit { seq![] } else { xtoolkit_block() })
        + (if has_recreate_xim { seq![] } else { recreate_block() })
}

/// The options that patching adds, in order.
pub open spec fn spec_added_options(has_xtoolkit: bool, has_recreate_xim: bool) -> Seq<Seq<char>> {
    (if has_xtoolkit { seq![] } else { seq!["-Dawt.toolkit.name=XToolkit"@] })
        + (if has_recreate_xim { seq![] } else { seq!["-Drecreate.x11.input.method=true"@] })
}

pub fn patched_vmoptions(content: &str, has_xtoolkit: bool, has_recreate_xim: bool) -> (r: (String, Vec<String>))
    ensures
        r.0@ == spec_patched_vmoptions(content@, has_xtoolkit, has_recreate_xim),
        crate::text::strings_view(r.1@) == spec_added_options(has_xtoolkit, has_recreate_xim),
{
    let mut c = chars_of(content);
    if !(c.len() > 0 && c[c.len() - 1] == '\n') {
        c.push('\n');
    }
    let ghost base = c@;
    let mut added: Vec<String> = Vec::new();
    if !has_xtoolkit {
        extend_str(&mut c, "# popmgr: Korean IME via X11 XIM (avoids native Wayland IM hangs)\n-Dawt.toolkit.name=XToolkit\n");
        added.push(string_of(chars_of("-Dawt.toolkit.name=XToolkit")));
    }
    let ghost mid = added@;
    if !has_recreate_xim {
        extend_str(&mut c, "# popmgr: rebuild X input method context after IME daemon restarts\n-Drecreate.x11.input.method=true\n");
        added.push(string_of(chars_of("-Drecreate.x11.input.method=true")));
    }
    assert(c@ =~= spec_patched_vmoptions(content@, has_xtoolkit, has_recreate_xim));
    assert(crate::text::strings_view(added@) =~= spec_added_options(has_xtoolkit, has_recreate_xim));
    (string_of(c), added)
}

/// The log line of an IDE whose options were already set.
pub open spec fn spec_vmoptions_skip_line(name: Seq<char>) -> Seq<char> {
    "[스킵] "@ + name + " — 이미 설정됨\n"@
}

pub fn vmoptions_skip_line(name: &String) -> (r: String)
    ensures
        r@ == spec_vmoptions_skip_line(name@),
{
    let mut o = chars_of("[스킵] ");
    extend(&mut o, chars_of_string(name).as_slice());
    extend_str(&mut o, " — 이미 설정됨\n");
    string_of(o)
}

/// The log line of a patched IDE: what was added and where the backup went.
pub open spec fn spec_vmoptions_ok_line(name: Seq<char>, added: Seq<Seq<char>>, backup: Seq<char>) -> Seq<char> {
    "[OK] "@ + name + " — 추가: "@ + join(added, ", "@) + " (백업: "@ + backup + ")\n"@
}

pub fn vmoptions_ok_line(name: &String, added: &Vec<String>, backup: &String) -> (r: String)
    ensures
        r@ == spec_vmoptions_ok_line(name@, crate::text::strings_view(added@), backup@),
{
    let mut o = chars_of("[OK] ");
    extend(&mut o, chars_of_string(name).as_slice());
    extend_str(&mut o, " — 추가: ");
    let parts = crate::text::strings_chars(added);
    extend(&mut o, crate::text::join_str(&parts, ", ").as_slice());
    extend_str(&mut o, " (백업: ");
    extend(&mut o, chars_of_string(backup).as_slice());
    extend_str(&mut o, ")\n");
    string_of(o)
}

/// The backup path of a vmoptions file patched at `secs`.
pub open spec fn spec_vmoptions_backup(path: Seq<char>, secs: u64) -> Seq<char> {
    path + ".popmgr-backup-"@ + crate::text::decimal(secs as nat)
}

pub fn vmoptions_backup(path: &String, secs: u64) -> (r: String)
    ensures
        r@ == spec_vmoptions_backup(path@, secs),
{
    let mut o = chars_of_string(path);
    extend_str(&mut o, ".popmgr-backup-");
    crate::text::push_decimal(&mut o, secs);
    string_of(o)
}

} // verus!
