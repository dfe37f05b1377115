//! The applications tab: installed packages, the KakaoTalk and Orca setups,
//! screen recording with GPU Screen Recorder, and mpv as the video player.

use vstd::prelude::*;
use crate::runner::CmdResult;
use crate::text::{
    chars_of, chars_of_string, decimal_padded, eq, eq_str, extend, extend_str, join, join_str,
    lemma_deep_view_chars, lines, lines_of, opt_view, push_decimal_padded, push_piece, replace,
    string_of, subseq, to_string, trim, trim_exec, words,
};

verus! {

#[derive(Debug, Clone)]
pub struct Package {
    pub name: String,
    pub version: String,
    pub description: String,
    pub kind: PkgKind,
    pub marked: bool,
}

#[derive(Debug, Clone, Copy, PartialEq, Eq, Structural)]
pub enum PkgKind {
    Apt,
    Flatpak,
}

/// Where a Flatpak application is installed.
#[derive(Debug, Clone, Copy, PartialEq, Eq, Structural)]
pub enum FlatpakScope {
    System,
    User,
    NotInstalled,
}

#[derive(Debug, Clone)]
pub struct RecordingStatus {
    pub gsr_scope: FlatpakScope,
    pub system_flathub: bool,
    pub nvidia_extension: Option<String>,
    pub system_runtime: bool,
    pub user_runtime: bool,
    pub obs_scope: FlatpakScope,
    pub obs_runtime_matches: bool,
    pub active: bool,
    pub shortcut_registered: bool,
    pub output_dir: String,
}

#[derive(Debug, Clone, Copy, PartialEq, Eq, Structural)]
pub enum VaApiStatus {
    Supported,
    Unsupported,
    Unknown,
}

#[derive(Debug, Clone)]
pub struct MpvStatus {
    pub installed: bool,
    pub vaapi: VaApiStatus,
    pub default_player: Option<String>,
}

#[derive(Debug, Clone)]
pub struct AppsStatus {
    pub kakaotalk_installed: bool,
    pub kakaotalk_launcher: Option<String>,
    pub kakaotalk_exe: Option<String>,
    pub kakaotalk_desktop: Option<String>,
    pub kakaotalk_wmclass_ok: bool,
    pub kakaotalk_icon_ok: bool,
    pub kakaotalk_ime_patched: bool,
    pub orca_deb_installed: bool,
    pub orca_appimage: Option<String>,
    pub orca_version: Option<String>,
    pub orca_desktop: Option<String>,
    pub orca_icon_ok: bool,
    pub orca_dock_ok: bool,
    pub recording: RecordingStatus,
    pub mpv: MpvStatus,
    pub packages: Vec<Package>,
}

/// mpv's standing as the video player.
#[derive(Debug, Clone, Copy, PartialEq, Eq, Structural)]
pub enum PlayerState {
    IsDefault,
    InstalledNotDefault,
    NotInstalled,
}

// ---------------------------------------------------------------- mpv

pub open spec fn spec_video_mime_types() -> Seq<Seq<char>> {
    seq![
        "video/mp4"@, "video/x-matroska"@, "video/webm"@, "video/x-msvideo"@, "video/quicktime"@,
        "video/mpeg"@, "video/x-flv"@, "video/3gpp"@, "video/ogg"@,
    ]
}

/// The video types that mpv is made the default player for.
pub const VIDEO_MIME_TYPES: [&'static str; 9] = [
    "video/mp4",
    "video/x-matroska",
    "video/webm",
    "video/x-msvideo",
    "video/quicktime",
    "video/mpeg",
    "video/x-flv",
    "video/3gpp",
    "video/ogg",
];

pub fn video_mime_types() -> (r: Vec<&'static str>)
    ensures
        r@.map_values(|s: &str| s@) == spec_video_mime_types(),
{
    let r = vec![
        "video/mp4", "video/x-matroska", "video/webm", "video/x-msvideo", "video/quicktime",
        "video/mpeg", "video/x-flv", "video/3gpp", "video/ogg",
    ];
    assert(r@.map_values(|s: &str| s@) =~= spec_video_mime_types());
    r
}

pub open spec fn spec_xdg_mime_default_args() -> Seq<Seq<char>> {
    seq!["default"@, "mpv.desktop"@] + spec_video_mime_types()
}

/// `xdg-mime default mpv.desktop <every video type>`.
pub fn xdg_mime_default_args() -> (r: Vec<&'static str>)
    ensures
        r@.map_values(|s: &str| s@) == spec_xdg_mime_default_args(),
{
    let mut args = vec!["default", "mpv.desktop"];
    let types = video_mime_types();
    let mut i: usize = 0;
    while i < types.len()
        invariant
            i <= types.len(),
            types@.map_values(|s: &str| s@) == spec_video_mime_types(),
            args@.map_values(|s: &str| s@) == seq!["default"@, "mpv.desktop"@] + spec_video_mime_types().take(i as int),
        decreases types.len() - i,
    {
        assert(types@.map_values(|s: &str| s@)[i as int] == types@[i as int]@);
        let ghost a0 = args@;
        args.push(types[i]);
        assert(args@.map_values(|s: &str| s@) =~= a0.map_values(|s: &str| s@).push(types@[i as int]@));
        assert(args@.map_values(|s: &str| s@) =~= seq!["default"@, "mpv.desktop"@] + spec_video_mime_types().take(i + 1));
        i += 1;
    }
    assert(spec_video_mime_types().take(9) =~= spec_video_mime_types());
    args
}

pub open spec fn spec_mpv_player_state(installed: bool, default_is_mpv: bool) -> PlayerState {
    if !installed {
        PlayerState::NotInstalled
    } else if default_is_mpv {
        PlayerState::IsDefault
    } else {
        PlayerState::InstalledNotDefault
    }
}

pub fn mpv_player_state(installed: bool, default_is_mpv: bool) -> (r: PlayerState)
    ensures
        r == spec_mpv_player_state(installed, default_is_mpv),
{
    if !installed {
        PlayerState::NotInstalled
    } else if default_is_mpv {
        PlayerState::IsDefault
    } else {
        PlayerState::InstalledNotDefault
    }
}

/// Whether `xdg-mime query default` answered mpv.
pub fn mime_default_is_mpv(output: &str) -> (r: bool)
    ensures
        r == (trim(output@) == "mpv.desktop"@),
{
    let t = trim_exec(chars_of(output).as_slice());
    eq_str(t.as_slice(), "mpv.desktop")
}

pub open spec fn spec_mpv_default_result(set_success: bool, set_output: Seq<char>, failed: Seq<Seq<char>>) -> (bool, Seq<char>) {
    if failed.len() == 0 && set_success {
        (true, "mpv를 모든 동영상 MIME 타입의 기본 플레이어로 지정했습니다."@)
    } else if failed.len() == 0 {
        (false, "기본 플레이어 지정 명령 실패:\n"@ + trim(set_output))
    } else {
        (false, "mpv.desktop으로 지정되지 않은 MIME 타입: "@ + join(failed, ", "@))
    }
}

/// The report after making mpv the default: success only when the command
/// succeeded and every type now answers mpv.
pub fn mpv_default_result(set_success: bool, set_output: &str, failed: &Vec<&str>) -> (r: CmdResult)
    ensures
        (r.success, r.output@) == spec_mpv_default_result(set_success, set_output@, failed@.map_values(|s: &str| s@)),
{
    if failed.len() == 0 && set_success {
        return CmdResult { success: true, output: string_of(chars_of("mpv를 모든 동영상 MIME 타입의 기본 플레이어로 지정했습니다.")) };
    }
    if failed.len() == 0 {
        let mut o = chars_of("기본 플레이어 지정 명령 실패:\n");
        extend(&mut o, trim_exec(chars_of(set_output).as_slice()).as_slice());
        return CmdResult { success: false, output: string_of(o) };
    }
    let mut parts: Vec<Vec<char>> = Vec::new();
    let mut i: usize = 0;
    while i < failed.len()
        invariant
            i <= failed.len(),
            parts.deep_view() == failed@.map_values(|s: &str| s@).take(i as int),
        decreases failed.len() - i,
    {
        push_piece(&mut parts, chars_of(failed[i]));
        assert(parts.deep_view() =~= failed@.map_values(|s: &str| s@).take(i + 1));
        i += 1;
    }
    assert(failed@.map_values(|s: &str| s@).take(failed.len() as int) =~= failed@.map_values(|s: &str| s@));
    let mut o = chars_of("mpv.desktop으로 지정되지 않은 MIME 타입: ");
    extend(&mut o, join_str(&parts, ", ").as_slice());
    CmdResult { success: false, output: string_of(o) }
}

pub open spec fn spec_vaapi_status(vainfo_installed: bool, vainfo_output: Seq<char>) -> VaApiStatus {
    if !vainfo_installed {
        VaApiStatus::Unknown
    } else if crate::text::contains(vainfo_output, "VAEntrypointVLD"@) {
        VaApiStatus::Supported
    } else {
        VaApiStatus::Unsupported
    }
}

/// Hardware decoding is supported when vainfo lists a VLD entry point.
pub fn vaapi_status(vainfo_installed: bool, vainfo_output: &str) -> (r: VaApiStatus)
    ensures
        r == spec_vaapi_status(vainfo_installed, vainfo_output@),
{
    if !vainfo_installed {
        VaApiStatus::Unknown
    } else if crate::text::contains_str(chars_of(vainfo_output).as_slice(), "VAEntrypointVLD") {
        VaApiStatus::Supported
    } else {
        VaApiStatus::Unsupported
    }
}

pub open spec fn hinnant_yoe(doe: int) -> int {
    (doe - doe / 1460 + doe / 36524 - doe / 146096) / 365
}

pub proof fn lemma_day_of_year(doe: int)
    requires
        0 <= doe < 146097,
    ensures
        0 <= hinnant_yoe(doe) <= 399,
        0 <= doe - (365 * hinnant_yoe(doe) + hinnant_yoe(doe) / 4 - hinnant_yoe(doe) / 100) <= 365,
{
}

/// The date and time of `secs` seconds after the epoch (UTC), as
/// (year, month, day, hour, minute, second), by Howard Hinnant's
/// days-to-civil conversion.
pub open spec fn civil_parts(secs: nat) -> (int, int, int, int, int, int) {
    let days = secs / 86400;
    let sod = secs % 86400;
    let z = days + 719468;
    let era = z / 146097;
    let doe = z - era * 146097;
    let yoe = hinnant_yoe(doe);
    let y = yoe + era * 400;
    let doy = doe - (365 * yoe + yoe / 4 - yoe / 100);
    let mp = (5 * doy + 2) / 153;
    let d = doy - (153 * mp + 2) / 5 + 1;
    let m = if mp < 10 { mp + 3 } else { mp - 9 };
    let y2 = if m <= 2 { y + 1 } else { y };
    (y2, m, d, (sod / 3600) as int, ((sod % 3600) / 60) as int, (sod % 60) as int)
}

/// `YYYY-MM-DD_HH-MM-SS` in UTC.
pub open spec fn spec_civil_datetime_string(secs: nat) -> Seq<char> {
    let (y, m, d, h, mi, s) = civil_parts(secs);
    decimal_padded(y as nat, 4) + "-"@ + decimal_padded(m as nat, 2) + "-"@ + decimal_padded(d as nat, 2)
        + "_"@ + decimal_padded(h as nat, 2) + "-"@ + decimal_padded(mi as nat, 2) + "-"@
        + decimal_padded(s as nat, 2)
}

/// Seconds since the epoch as `YYYY-MM-DD_HH-MM-SS` (UTC).
pub fn civil_datetime_string(secs: u64) -> (r: String)
    ensures
        r@ == spec_civil_datetime_string(secs as nat),
{
    let days = secs / 86400;
    let secs_of_day = secs % 86400;
    let z: i64 = days as i64 + 719468;
    let era: i64 = z / 146097;
    assert(0 <= z - era * 146097 < 146097);
    let doe: u64 = (z - era * 146097) as u64;
    proof { lemma_day_of_year(doe as int); }
    let yoe: u64 = (doe - doe / 1460 + doe / 36524 - doe / 146096) / 365;
    let y: i64 = yoe as i64 + era * 400;
    let doy: u64 = doe - (365 * yoe + yoe / 4 - yoe / 100);
    let mp: u64 = (5 * doy + 2) / 153;
    assert(mp <= 11);
    assert((153 * mp + 2) / 5 <= doy) by (nonlinear_arith)
        requires
            mp == (5 * doy + 2) / 153,
            doy <= 365;
    let d: u64 = doy - (153 * mp + 2) / 5 + 1;
    let m: u64 = if mp < 10 { mp + 3 } else { mp - 9 };
    let y2: i64 = if m <= 2 { y + 1 } else { y };
    assert(y2 >= 0);
    let h = secs_of_day / 3600;
    let mi = (secs_of_day % 3600) / 60;
    let sc = secs_of_day % 60;
    let mut out: Vec<char> = Vec::new();
    push_decimal_padded(&mut out, y2 as u64, 4);
    extend_str(&mut out, "-");
    push_decimal_padded(&mut out, m, 2);
    extend_str(&mut out, "-");
    push_decimal_padded(&mut out, d, 2);
    extend_str(&mut out, "_");
    push_decimal_padded(&mut out, h, 2);
    extend_str(&mut out, "-");
    push_decimal_padded(&mut out, mi, 2);
    extend_str(&mut out, "-");
    push_decimal_padded(&mut out, sc, 2);
    string_of(out)
}

// ---------------------------------------------------------------- recording

pub const GSR_APP: &'static str = "com.dec05eba.gpu_screen_recorder";
pub const OBS_APP: &'static str = "com.obsproject.Studio";

/// The first two columns of a line, as words.
pub open spec fn columns_are(line: Seq<char>, a: Seq<char>, b: Seq<char>) -> bool {
    words(line).len() >= 2 && words(line)[0] == a && words(line)[1] == b
}

pub open spec fn listed_in(list: Seq<char>, app: Seq<char>, scope: Seq<char>) -> bool {
    exists|i: int| 0 <= i < lines(list).len() && columns_are(#[trigger] lines(list)[i], app, scope)
}

pub open spec fn spec_flatpak_scope(list: Seq<char>, app: Seq<char>) -> FlatpakScope {
    if listed_in(list, app, "system"@) {
        FlatpakScope::System
    } else if listed_in(list, app, "user"@) {
        FlatpakScope::User
    } else {
        FlatpakScope::NotInstalled
    }
}

fn columns_are_exec(line: &[char], a: &str, b: &str) -> (r: bool)
    ensures
        r == columns_are(line@, a@, b@),
{
    let ws = crate::text::words_exec(line);
    if ws.len() < 2 {
        return false;
    }
    proof { lemma_deep_view_chars(&ws[0]); lemma_deep_view_chars(&ws[1]); }
    eq_str(ws[0].as_slice(), a) && eq_str(ws[1].as_slice(), b)
}

pub fn flatpak_in_scope_chars(ls: &Vec<Vec<char>>, app: &str, scope: &str) -> (r: bool)
    ensures
        r == exists|i: int| 0 <= i < ls.deep_view().len() && columns_are(#[trigger] ls.deep_view()[i], app@, scope@),
{
    let ghost lv = ls.deep_view();
    let mut i: usize = 0;
    while i < ls.len()
        invariant
            i <= ls.len(),
            lv == ls.deep_view(),
            forall|j: int| 0 <= j < i ==> !columns_are(#[trigger] lv[j], app@, scope@),
        decreases ls.len() - i,
    {
        proof { lemma_deep_view_chars(&ls[i as int]); }
        if columns_are_exec(ls[i].as_slice(), app, scope) {
            assert(columns_are(lv[i as int], app@, scope@));
            return true;
        }
        i += 1;
    }
    false
}

/// Whether `flatpak list --columns=application,installation` lists `app` in `scope`.
pub fn flatpak_in_scope(list: &str, app: &str, scope: &str) -> (r: bool)
    ensures
        r == listed_in(list@, app@, scope@),
{
    let ls = lines_of(list);
    flatpak_in_scope_chars(&ls, app, scope)
}

/// Where `app` is installed: system wins over user.
pub fn flatpak_scope(list: &str, app: &str) -> (r: FlatpakScope)
    ensures
        r == spec_flatpak_scope(list@, app@),
{
    proof { reveal_strlit("system"); reveal_strlit("user"); }
    let ls = lines_of(list);
    if flatpak_in_scope_chars(&ls, app, "system") {
        FlatpakScope::System
    } else if flatpak_in_scope_chars(&ls, app, "user") {
        FlatpakScope::User
    } else {
        FlatpakScope::NotInstalled
    }
}

pub open spec fn spec_nvidia_runtime_extension(version: Seq<char>) -> Option<Seq<char>> {
    let v = trim(version);
    if v.len() == 0 {
        None
    } else {
        Some("org.freedesktop.Platform.GL.nvidia-"@ + replace(v, "."@, "-"@))
    }
}

/// The Flatpak GL runtime that matches the host's NVIDIA driver version.
pub fn nvidia_runtime_extension(version: &str) -> (r: Option<String>)
    ensures
        opt_view(r) == spec_nvidia_runtime_extension(version@),
{
    proof { reveal_strlit("."); }
    let v = trim_exec(chars_of(version).as_slice());
    if v.len() == 0 {
        return None;
    }
    let mut out = chars_of("org.freedesktop.Platform.GL.nvidia-");
    extend(&mut out, crate::text::replace_str(v.as_slice(), ".", "-").as_slice());
    Some(string_of(out))
}

pub open spec fn spec_recording_install_script(
    gsr_scope: FlatpakScope, system_flathub: bool, obs_scope: FlatpakScope, extension: Seq<char>,
) -> Seq<char> {
    "set -e\n"@
        + (if gsr_scope == FlatpakScope::User { "flatpak uninstall --user -y --noninteractive "@ + GSR_APP@ + "\n"@ } else { seq![] })
        + (if !system_flathub {
            "flatpak remote-add --system --if-not-exists flathub https://dl.flathub.org/repo/flathub.flatpakrepo\n"@
        } else {
            seq![]
        })
        + "flatpak install --system -y --noninteractive flathub "@ + GSR_APP@ + " "@ + extension + "\n"@
        + (if obs_scope == FlatpakScope::User {
            "flatpak install --user -y --noninteractive flathub "@ + extension + "\n"@
        } else {
            seq![]
        })
}

/// Puts GPU Screen Recorder in the system scope (a user install cannot
/// capture) with the GL runtime of the host driver, and gives a user-scope
/// OBS the same runtime.
pub fn recording_install_script(
    gsr_scope: FlatpakScope, system_flathub: bool, obs_scope: FlatpakScope, extension: &str,
) -> (r: String)
    ensures
        r@ == spec_recording_install_script(gsr_scope, system_flathub, obs_scope, extension@),
{
    let mut s = chars_of("set -e\n");
    let ghost s0 = s@;
    if gsr_scope == FlatpakScope::User {
        extend_str(&mut s, "flatpak uninstall --user -y --noninteractive ");
        extend_str(&mut s, GSR_APP);
        extend_str(&mut s, "\n");
    }
    if !system_flathub {
        extend_str(&mut s, "flatpak remote-add --system --if-not-exists flathub ");
        extend_str(&mut s, "https://dl.flathub.org/repo/flathub.flatpakrepo\n");
        proof { reveal_strlit("flatpak remote-add --system --if-not-exists flathub "); reveal_strlit("https://dl.flathub.org/repo/flathub.flatpakrepo\n"); reveal_strlit("flatpak remote-add --system --if-not-exists flathub https://dl.flathub.org/repo/flathub.flatpakrepo\n"); }
    }
    extend_str(&mut s, "flatpak install --system -y --noninteractive flathub ");
    extend_str(&mut s, GSR_APP);
    extend_str(&mut s, " ");
    extend_str(&mut s, extension);
    extend_str(&mut s, "\n");
    if obs_scope == FlatpakScope::User {
        extend_str(&mut s, "flatpak install --user -y --noninteractive flathub ");
        extend_str(&mut s, extension);
        extend_str(&mut s, "\n");
    }
    string_of(s)
}

pub open spec fn spec_recording_start_args(output_file: Seq<char>) -> Seq<Seq<char>> {
    seq![
        "flatpak"@, "run"@, "--command=gpu-screen-recorder"@, GSR_APP@,
        "-w"@, "portal"@, "-restore-portal-session"@, "yes"@,
        "-f"@, "60"@, "-k"@, "h264"@, "-encoder"@, "gpu"@,
        "-fallback-cpu-encoding"@, "no"@, "-a"@, "default_output"@,
        "-ac"@, "opus"@, "-c"@, "mp4"@, "-cursor"@, "yes"@,
        "-o"@, output_file,
    ]
}

/// The command line that starts a regular recording into `output_file`
/// (`-o` is required; `-ro` belongs to replay mode and writes nothing here).
pub fn recording_start_args(output_file: &str) -> (r: Vec<String>)
    ensures
        r@.map_values(|s: String| s@) == spec_recording_start_args(output_file@),
{
    let lits = vec![
        "flatpak", "run", "--command=gpu-screen-recorder", GSR_APP,
        "-w", "portal", "-restore-portal-session", "yes",
        "-f", "60", "-k", "h264", "-encoder", "gpu",
        "-fallback-cpu-encoding", "no", "-a", "default_output",
        "-ac", "opus", "-c", "mp4", "-cursor", "yes",
        "-o",
    ];
    let ghost lv = lits@.map_values(|s: &str| s@);
    assert(lv =~= spec_recording_start_args(output_file@).take(25));
    let mut r: Vec<String> = Vec::new();
    let mut i: usize = 0;
    while i < lits.len()
        invariant
            i <= lits.len(),
            lv == lits@.map_values(|s: &str| s@),
            r@.map_values(|s: String| s@) == lv.take(i as int),
        decreases lits.len() - i,
    {
        let ghost r0 = r@;
        assert(lv[i as int] == lits@[i as int]@);
        r.push(string_of(chars_of(lits[i])));
        assert(r@.map_values(|s: String| s@) =~= r0.map_values(|s: String| s@).push(lv[i as int]));
        assert(lv.take(i + 1) =~= lv.take(i as int).push(lv[i as int]));
        i += 1;
    }
    let ghost r0 = r@;
    r.push(string_of(chars_of(output_file)));
    assert(r@.map_values(|s: String| s@) =~= r0.map_values(|s: String| s@).push(output_file@));
    assert(lv.take(25) =~= lv);
    assert(r@.map_values(|s: String| s@) =~= spec_recording_start_args(output_file@));
    r
}

/// `dir` joined with a relative file name, as `Path::join` does it.
pub open spec fn path_join(dir: Seq<char>, name: Seq<char>) -> Seq<char> {
    if dir.len() == 0 || dir.last() == '/' { dir + name } else { dir + "/"@ + name }
}

pub open spec fn spec_recording_output_file(dir: Seq<char>, secs: nat) -> Seq<char> {
    path_join(dir, "Recording_"@ + spec_civil_datetime_string(secs) + ".mp4"@)
}

/// The file a recording started at `secs` goes to.
pub fn recording_output_file(output_dir: &str, secs: u64) -> (r: String)
    ensures
        r@ == spec_recording_output_file(output_dir@, secs as nat),
{
    let mut out = chars_of(output_dir);
    if !(out.len() == 0 || out[out.len() - 1] == '/') {
        out.push('/');
        proof { reveal_strlit("/"); }
    }
    let ghost o0 = out@;
    extend_str(&mut out, "Recording_");
    let ts = civil_datetime_string(secs);
    extend(&mut out, chars_of_string(&ts).as_slice());
    extend_str(&mut out, ".mp4");
    assert(out@ =~= o0 + ("Recording_"@ + spec_civil_datetime_string(secs as nat) + ".mp4"@));
    string_of(out)
}

pub const RECORDING_DESCRIPTION: &'static str = "popmgr 화면 녹화 토글";

pub open spec fn spec_recording_entry(command: Seq<char>) -> Seq<char> {
    "(modifiers: [Ctrl, Shift], key: \"6\"): Spawn(\""@ + command + "\")"@
}

pub open spec fn spec_described_recording_entry(command: Seq<char>) -> Seq<char> {
    "(modifiers: [Ctrl, Shift], key: \"6\", description: Some(\"popmgr 화면 녹화 토글\")): \\\n         Spawn(\""@
        + command + "\")"@
}

/// Gives the Ctrl+Shift+6 entry that spawns `command` its description.
pub fn add_recording_shortcut_description(content: &str, command: &str) -> (r: String)
    ensures
        r@ == replace(content@, spec_recording_entry(command@), spec_described_recording_entry(command@)),
{
    let mut entry = chars_of("(modifiers: [Ctrl, Shift], key: \"6\"): Spawn(\"");
    extend_str(&mut entry, command);
    extend_str(&mut entry, "\")");
    let mut described = chars_of("(modifiers: [Ctrl, Shift], key: \"6\", description: Some(\"popmgr 화면 녹화 토글\")): \\\n         Spawn(\"");
    extend_str(&mut described, command);
    extend_str(&mut described, "\")");
    proof { reveal_strlit("(modifiers: [Ctrl, Shift], key: \"6\"): Spawn(\""); }
    let c = chars_of(content);
    string_of(crate::text::replace_exec(c.as_slice(), entry.as_slice(), described.as_slice()))
}

/// The exit status of the recording toggle: 0 on success.
pub fn record_toggle_cli(result: &CmdResult) -> (code: i32)
    ensures
        code == (if result.success { 0i32 } else { 1i32 }),
{
    if result.success { 0 } else { 1 }
}

pub open spec fn spec_recording_refusal(scope: FlatpakScope) -> Option<(Seq<char>, Seq<char>)> {
    match scope {
        FlatpakScope::System => None,
        FlatpakScope::User => Some((
            "GPU Screen Recorder를 시스템 범위로 재설치하세요."@,
            "GSR가 사용자 범위에 설치되어 캡처할 수 없습니다."@,
        )),
        FlatpakScope::NotInstalled => Some((
            "GPU Screen Recorder를 먼저 시스템 범위로 설치하세요."@,
            "GPU Screen Recorder가 설치되지 않았습니다."@,
        )),
    }
}

/// Why a recording cannot start: the notification text and the failed
/// result, or nothing when GPU Screen Recorder is installed system-wide.
pub fn recording_refusal(scope: FlatpakScope) -> (r: Option<(String, CmdResult)>)
    ensures
        match r {
            None => spec_recording_refusal(scope) is None,
            Some((note, res)) => !res.success && spec_recording_refusal(scope) == Some((note@, res.output@)),
        },
{
    match scope {
        FlatpakScope::System => None,
        FlatpakScope::User => Some((
            string_of(chars_of("GPU Screen Recorder를 시스템 범위로 재설치하세요.")),
            CmdResult { success: false, output: string_of(chars_of("GSR가 사용자 범위에 설치되어 캡처할 수 없습니다.")) },
        )),
        FlatpakScope::NotInstalled => Some((
            string_of(chars_of("GPU Screen Recorder를 먼저 시스템 범위로 설치하세요.")),
            CmdResult { success: false, output: string_of(chars_of("GPU Screen Recorder가 설치되지 않았습니다.")) },
        )),
    }
}

// ---------------------------------------------------------------- the recording toggle

/// What the recording shortcut found at each step.
pub enum RecordEvent {
    /// Whether a recording is running.
    Probed { active: bool },
    /// Whether the stop signal was delivered.
    StopSent { ok: bool },
    /// The newest file of the recordings folder, a moment after the stop.
    NewestFile(Option<String>),
    /// `flatpak list --app --columns=application,installation`.
    Listed(String),
    /// The recordings folder was made (or the error).
    FolderReady(Option<String>),
    /// The recorder was started (or the error).
    Spawned(Option<String>),
}

/// The shortcut's next step.
pub enum RecordStep {
    /// Send SIGINT to the recorder; answer `StopSent`.
    SendStop,
    /// Wait a second, then look up the newest recording; answer `NewestFile`.
    FindNewest,
    /// List the installed flatpaks; answer `Listed`.
    ListFlatpaks,
    /// Make the recordings folder; answer `FolderReady`.
    MakeFolder,
    /// Start the recorder with `recording_start_args` on a new file; answer `Spawned`.
    Start,
    /// Done: the desktop notification to show, if any, and the result.
    Finish { notify: Option<(String, String)>, result: CmdResult },
}

/// The finished step as text: the notification, and the result.
pub open spec fn finish_view(r: RecordStep) -> Option<(Option<(Seq<char>, Seq<char>)>, bool, Seq<char>)> {
    match r {
        RecordStep::Finish { notify, result } => Some((
            match notify { Some((a, b)) => Some((a@, b@)), None => None },
            result.success,
            result.output@,
        )),
        _ => None,
    }
}

pub open spec fn saved_name(f: Option<String>) -> Seq<char> {
    match f {
        Some(n) => n@,
        None => "저장 파일을 찾지 못했습니다"@,
    }
}

/// The recording shortcut: stop a running recording and report the file it
/// saved; else refuse where GPU Screen Recorder is not installed
/// system-wide, make the folder and start a new recording.
pub fn record_step(ev: RecordEvent) -> (r: RecordStep)
    ensures
        match ev {
            RecordEvent::Probed { active } => if active { r is SendStop } else { r is ListFlatpaks },
            RecordEvent::StopSent { ok } => if ok {
                r is FindNewest
            } else {
                finish_view(r) == Some((None::<(Seq<char>, Seq<char>)>, false, "녹화 정지 신호 전송 실패"@))
            },
            RecordEvent::NewestFile(f) => finish_view(r)
                == Some((Some(("녹화 저장됨"@, saved_name(f))), true, "녹화 저장됨: "@ + saved_name(f))),
            RecordEvent::Listed(apps) => match spec_recording_refusal(spec_flatpak_scope(apps@, GSR_APP@)) {
                None => r is MakeFolder,
                Some((note, out)) => finish_view(r) == Some((Some(("녹화 시작 불가"@, note)), false, out)),
            },
            RecordEvent::FolderReady(e) => match e {
                None => r is Start,
                Some(e) => finish_view(r) == Some((None::<(Seq<char>, Seq<char>)>, false, "녹화 폴더 생성 실패: "@ + e@)),
            },
            RecordEvent::Spawned(e) => match e {
                None => finish_view(r)
                    == Some((Some(("녹화 시작"@, "Ctrl+Shift+6 으로 정지"@)), true, "녹화를 시작했습니다."@)),
                Some(e) => finish_view(r) == Some((None::<(Seq<char>, Seq<char>)>, false, "녹화 시작 실패: "@ + e@)),
            },
        },
{
    match ev {
        RecordEvent::Probed { active } => if active { RecordStep::SendStop } else { RecordStep::ListFlatpaks },
        RecordEvent::StopSent { ok } => if ok {
            RecordStep::FindNewest
        } else {
            RecordStep::Finish {
                notify: None,
                result: CmdResult { success: false, output: string_of(chars_of("녹화 정지 신호 전송 실패")) },
            }
        },
        RecordEvent::NewestFile(f) => {
            let name = match f {
                Some(n) => chars_of_string(&n),
                None => chars_of("저장 파일을 찾지 못했습니다"),
            };
            let mut out = chars_of("녹화 저장됨: ");
            extend(&mut out, name.as_slice());
            RecordStep::Finish {
                notify: Some((string_of(chars_of("녹화 저장됨")), string_of(name))),
                result: CmdResult { success: true, output: string_of(out) },
            }
        },
        RecordEvent::Listed(apps) => match recording_refusal(flatpak_scope(apps.as_str(), GSR_APP)) {
            None => RecordStep::MakeFolder,
            Some((note, res)) => RecordStep::Finish {
                notify: Some((string_of(chars_of("녹화 시작 불가")), note)),
                result: res,
            },
        },
        RecordEvent::FolderReady(e) => match e {
            None => RecordStep::Start,
            Some(e) => {
                let mut out = chars_of("녹화 폴더 생성 실패: ");
                extend(&mut out, chars_of_string(&e).as_slice());
                RecordStep::Finish { notify: None, result: CmdResult { success: false, output: string_of(out) } }
            },
        },
        RecordEvent::Spawned(e) => match e {
            None => RecordStep::Finish {
                notify: Some((string_of(chars_of("녹화 시작")), string_of(chars_of("Ctrl+Shift+6 으로 정지")))),
                result: CmdResult { success: true, output: string_of(chars_of("녹화를 시작했습니다.")) },
            },
            Some(e) => {
                let mut out = chars_of("녹화 시작 실패: ");
                extend(&mut out, chars_of_string(&e).as_slice());
                RecordStep::Finish { notify: None, result: CmdResult { success: false, output: string_of(out) } }
            },
        },
    }
}

/// Whether OBS has the driver's runtime in its own scope.
pub fn obs_runtime_matches(obs_scope: FlatpakScope, system_runtime: bool, user_runtime: bool) -> (r: bool)
    ensures
        r == (match obs_scope {
            FlatpakScope::System => system_runtime,
            FlatpakScope::User => user_runtime,
            FlatpakScope::NotInstalled => false,
        }),
{
    match obs_scope {
        FlatpakScope::System => system_runtime,
        FlatpakScope::User => user_runtime,
        FlatpakScope::NotInstalled => false,
    }
}

// ---------------------------------------------------------------- scanning

/// The first line of a command's output, trimmed, when it is not empty.
pub open spec fn spec_first_line_value(output: Seq<char>) -> Option<Seq<char>> {
    if lines(output).len() > 0 && trim(lines(output)[0]).len() > 0 {
        Some(trim(lines(output)[0]))
    } else {
        None
    }
}

pub fn first_line_value(output: &str) -> (r: Option<String>)
    ensures
        opt_view(r) == spec_first_line_value(output@),
{
    let ls = lines_of(output);
    if ls.len() == 0 {
        return None;
    }
    proof { lemma_deep_view_chars(&ls[0]); }
    let t = trim_exec(ls[0].as_slice());
    if t.len() == 0 { None } else { Some(string_of(t)) }
}

/// Whether some line of the output is not blank.
pub fn any_nonblank_line(output: &str) -> (r: bool)
    ensures
        r == exists|i: int| 0 <= i < lines(output@).len() && trim(#[trigger] lines(output@)[i]).len() > 0,
{
    let ls = lines_of(output);
    let ghost lv = ls.deep_view();
    let mut i: usize = 0;
    while i < ls.len()
        invariant
            i <= ls.len(),
            lv == ls.deep_view(),
            lv == lines(output@),
            forall|j: int| 0 <= j < i ==> trim(#[trigger] lv[j]).len() == 0,
        decreases ls.len() - i,
    {
        proof { lemma_deep_view_chars(&ls[i as int]); }
        if trim_exec(ls[i].as_slice()).len() > 0 {
            assert(trim(lv[i as int]).len() > 0);
            return true;
        }
        i += 1;
    }
    false
}

/// Whether `flatpak remotes --system --columns=name` lists flathub.
pub fn has_flathub(output: &str) -> (r: bool)
    ensures
        r == exists|i: int| 0 <= i < lines(output@).len() && trim(#[trigger] lines(output@)[i]) == "flathub"@,
{
    let ls = lines_of(output);
    let ghost lv = ls.deep_view();
    let mut i: usize = 0;
    while i < ls.len()
        invariant
            i <= ls.len(),
            lv == ls.deep_view(),
            lv == lines(output@),
            forall|j: int| 0 <= j < i ==> trim(#[trigger] lv[j]) != "flathub"@,
        decreases ls.len() - i,
    {
        proof { lemma_deep_view_chars(&ls[i as int]); }
        if eq_str(trim_exec(ls[i].as_slice()).as_slice(), "flathub") {
            assert(trim(lv[i as int]) == "flathub"@);
            return true;
        }
        i += 1;
    }
    false
}

pub open spec fn package_view(p: Package) -> (Seq<char>, Seq<char>, Seq<char>, PkgKind, bool) {
    (p.name@, p.version@, p.description@, p.kind, p.marked)
}

/// A manually installed apt package from its `dpkg -l` line: the third
/// column is the version, the fifth on the description.
pub open spec fn spec_apt_package(name: Seq<char>, info: Seq<char>) -> Option<(Seq<char>, Seq<char>, Seq<char>, PkgKind, bool)> {
    let parts = words(info);
    if parts.len() < 5 {
        None
    } else {
        Some((name, parts[2], join(parts.skip(4), " "@), PkgKind::Apt, false))
    }
}

pub fn apt_package(name: &str, info: &str) -> (r: Option<Package>)
    ensures
        (match r { Some(p) => Some(package_view(p)), None => None }) == spec_apt_package(name@, info@),
{
    let parts = crate::text::words_exec(chars_of(info).as_slice());
    if parts.len() < 5 {
        return None;
    }
    proof { lemma_deep_view_chars(&parts[2]); }
    let mut rest: Vec<Vec<char>> = Vec::new();
    let mut i: usize = 4;
    let ghost pv = parts.deep_view();
    assert(pv.skip(4).take(0) =~= Seq::<Seq<char>>::empty());
    while i < parts.len()
        invariant
            4 <= i <= parts.len(),
            pv == parts.deep_view(),
            rest.deep_view() == pv.skip(4).take(i - 4),
        decreases parts.len() - i,
    {
        proof { lemma_deep_view_chars(&parts[i as int]); }
        push_piece(&mut rest, subseq(parts[i].as_slice(), 0, parts[i].len()));
        assert(parts@[i as int]@.subrange(0, parts@[i as int]@.len() as int) =~= parts@[i as int]@);
        assert(rest.deep_view() =~= pv.skip(4).take(i - 3));
        i += 1;
    }
    assert(pv.skip(4).take(parts.len() - 4) =~= pv.skip(4));
    Some(Package {
        name: string_of(chars_of(name)),
        version: to_string(parts[2].as_slice()),
        description: string_of(join_str(&rest, " ")),
        kind: PkgKind::Apt,
        marked: false,
    })
}

/// The first two tab-separated fields and the rest, as `splitn(3, '\t')` gives them.
pub open spec fn tab_fields(line: Seq<char>) -> Seq<Seq<char>> {
    match crate::text::find_char(line, '\t') {
        None => seq![line],
        Some(i) => {
            let rest = line.skip(i + 1);
            match crate::text::find_char(rest, '\t') {
                None => seq![line.take(i), rest],
                Some(j) => seq![line.take(i), rest.take(j), rest.skip(j + 1)],
            }
        },
    }
}

/// A Flatpak application from its `application\tversion\tname` line.
pub open spec fn spec_flatpak_package(line: Seq<char>) -> Option<(Seq<char>, Seq<char>, Seq<char>, PkgKind, bool)> {
    let f = tab_fields(line);
    if f.len() < 2 {
        None
    } else {
        Some((trim(f[0]), trim(f[1]), if f.len() > 2 { trim(f[2]) } else { seq![] }, PkgKind::Flatpak, false))
    }
}

pub fn flatpak_package(line: &str) -> (r: Option<Package>)
    ensures
        (match r { Some(p) => Some(package_view(p)), None => None }) == spec_flatpak_package(line@),
{
    let l = chars_of(line);
    let i = match crate::text::find_char_exec(l.as_slice(), '\t') {
        None => return None,
        Some(i) => i,
    };
    proof { crate::text::lemma_find_char(l@, '\t'); }
    let first = subseq(l.as_slice(), 0, i);
    let rest = subseq(l.as_slice(), i + 1, l.len());
    assert(first@ =~= l@.take(i as int));
    assert(rest@ =~= l@.skip(i + 1));
    let (version, desc) = match crate::text::find_char_exec(rest.as_slice(), '\t') {
        None => (trim_exec(rest.as_slice()), Vec::new()),
        Some(j) => {
            proof { crate::text::lemma_find_char(rest@, '\t'); }
            let v = subseq(rest.as_slice(), 0, j);
            let d = subseq(rest.as_slice(), j + 1, rest.len());
            assert(v@ =~= rest@.take(j as int));
            assert(d@ =~= rest@.skip(j + 1));
            (trim_exec(v.as_slice()), trim_exec(d.as_slice()))
        },
    };
    Some(Package {
        name: string_of(trim_exec(first.as_slice())),
        version: string_of(version),
        description: string_of(desc),
        kind: PkgKind::Flatpak,
        marked: false,
    })
}

// ---------------------------------------------------------------- the tab

pub const INSTALL_ORCA_SCRIPT: &'static str = r#"
set -u
APPDIR="$HOME/Applications"
APPS="$HOME/.local/share/applications"
ICONS="$HOME/.local/share/icons/hicolor"
FAV="$HOME/.config/cosmic/com.system76.CosmicAppList/v1/favorites"
REL="https://github.com/stablyai/orca/releases"
DESK_LOCAL="$APPS/orca-ide.desktop"
CACHE="$HOME/.cache/popmgr"

DEB_INSTALLED=0
if dpkg -s orca-ide >/dev/null 2>&1; then
    DEB_INSTALLED=1
    echo "=== orca-ide 패키지 설치됨 ($(dpkg-query -W -f='${Version}' orca-ide 2>/dev/null)) ==="
fi

if [ "$DEB_INSTALLED" = "0" ]; then
    echo "=== [deb 1/3] 최신 릴리스 확인 ==="
    # latest-linux.yml 에 버전과 sha512 가 함께 들어 있어 URL 을 하드코딩하지 않아도 된다.
    YML=$(curl -fsSL --max-time 60 "$REL/latest/download/latest-linux.yml" 2>/dev/null || true)
    VER=$(printf '%s\n' "$YML" | grep '^version:' | head -1 | awk '{print $2}' | tr -d '\r')
    if [ -n "$VER" ]; then
        echo "최신 버전: $VER"
        DEBFILE="orca-ide_${VER}_amd64.deb"
        mkdir -p "$CACHE"
        echo "=== [deb 2/3] 다운로드 ($DEBFILE, 약 155MB) ==="
        if curl -fL --max-time 1800 -o "$CACHE/$DEBFILE" "$REL/download/v${VER}/${DEBFILE}"; then
            SUM_B64=$(printf '%s\n' "$YML" | grep -A1 "url: $DEBFILE" | grep 'sha512:' \
                      | head -1 | awk '{print $2}' | tr -d '\r')
            if [ -n "$SUM_B64" ]; then
                WANT=$(printf '%s' "$SUM_B64" | base64 -d 2>/dev/null | xxd -p -c 999)
                GOT=$(sha512sum "$CACHE/$DEBFILE" | awk '{print $1}')
                if [ "$WANT" = "$GOT" ]; then
                    echo "sha512 검증 통과"
                else
                    echo "★ sha512 불일치 — 받은 파일을 버립니다"
                    rm -f "$CACHE/$DEBFILE"
                fi
            fi
            if [ -f "$CACHE/$DEBFILE" ]; then
                echo "=== [deb 3/3] 설치 (관리자 비밀번호 창이 뜹니다) ==="
                if pkexec apt-get install -y "$CACHE/$DEBFILE"; then
                    rm -f "$CACHE/$DEBFILE"
                    dpkg -s orca-ide >/dev/null 2>&1 && DEB_INSTALLED=1
                else
                    echo "설치가 취소되었거나 실패했습니다 — AppImage 방식으로 넘어갑니다"
                fi
            fi
        else
            echo "다운로드 실패 — AppImage 방식으로 넘어갑니다"
        fi
    else
        echo "릴리스 정보를 가져오지 못했습니다 — AppImage 방식으로 넘어갑니다"
    fi
fi

if [ "$DEB_INSTALLED" = "1" ]; then
    # dpkg 가 /usr/share/applications/orca-ide.desktop 과 아이콘을 이미 설치했다.
    # 같은 desktop ID 가 시스템과 홈 양쪽에 있으면 COSMIC 런처에 앱이 두 번 뜬다
    # (COSMIC 은 중복 제거를 하지 않는다). 그래서 홈 쪽 사본을 지운다.
    if [ -f "$DESK_LOCAL" ]; then
        rm -f "$DESK_LOCAL"
        echo "로컬 중복 바로가기 제거: $DESK_LOCAL (시스템 패키지 것을 사용)"
    fi
    update-desktop-database "$APPS" 2>/dev/null || true
else

echo "=== [1/6] Orca AppImage 찾기 ==="
FOUND=""
for C in "$APPDIR"/orca*.AppImage "$APPDIR"/Orca*.AppImage \
         "$HOME/Downloads"/orca*.AppImage "$HOME/Downloads"/Orca*.AppImage \
         "$HOME/.local/bin"/orca*.AppImage "$HOME"/orca*.AppImage; do
    [ -f "$C" ] || continue
    FOUND="$C"; break
done
if [ -z "$FOUND" ]; then
    echo "설치할 것을 찾지 못했습니다."
    echo "  - 자동 설치(.deb)가 실패했고, 받아둔 AppImage 도 없습니다."
    echo "  - 인터넷 연결을 확인한 뒤 다시 눌러보세요."
    echo "  - 수동으로 받으려면: $REL/latest"
    echo "    (orca-ide_*_amd64.deb 를 받아 더블클릭하거나,"
    echo "     orca-linux.AppImage 를 ~/Downloads 에 두고 다시 누르세요)"
    exit 1
fi
echo "찾음: $FOUND"

echo "=== [2/6] ~/Applications 로 정리 ==="
mkdir -p "$APPDIR"
TARGET="$APPDIR/$(basename "$FOUND")"
if [ "$FOUND" != "$TARGET" ]; then
    mv -f "$FOUND" "$TARGET" && echo "이동: $TARGET"
else
    echo "이미 제자리: $TARGET"
fi
chmod +x "$TARGET"

echo "=== [3/6] 아이콘·버전 추출 ==="
TMP=$(mktemp -d)
# 내장 .desktop 을 먼저 뽑아 버전을 읽는다. AppImage 를 매번 다시 여는 것은 느리므로
# 여기서 읽은 값을 우리 .desktop 에 적어두고, 이후 스캔은 그 줄만 grep 한다.
( cd "$TMP" && "$TARGET" --appimage-extract "*.desktop" >/dev/null 2>&1 ) || true
VER=$(grep -h '^X-AppImage-Version=' "$TMP"/squashfs-root/*.desktop 2>/dev/null | head -1 | cut -d= -f2-)
[ -n "$VER" ] && echo "버전: $VER"
( cd "$TMP" && "$TARGET" --appimage-extract "usr/share/icons/*" >/dev/null 2>&1 ) || true
N=0
for SRC in "$TMP"/squashfs-root/usr/share/icons/hicolor/*/apps/orca-ide.png; do
    [ -f "$SRC" ] || continue
    DIM=$(basename "$(dirname "$(dirname "$SRC")")")
    mkdir -p "$ICONS/$DIM/apps"
    cp -L "$SRC" "$ICONS/$DIM/apps/orca-ide.png" && N=$((N+1))
done
rm -rf "$TMP"
echo "아이콘 ${N}개 설치"
[ "$N" -eq 0 ] && echo "경고: 아이콘 추출 실패 — 런처에 기본 아이콘으로 보일 수 있습니다"

echo "=== [4/6] 런처 등록 (.desktop) ==="
mkdir -p "$APPS"
cat > "$APPS/orca-ide.desktop" <<EOF
[Desktop Entry]
Type=Application
Name=Orca
GenericName=Agentic IDE
Comment=Next-gen IDE for parallel agentic development
Exec=$TARGET --no-sandbox %U
Icon=orca-ide
Terminal=false
StartupNotify=true
StartupWMClass=orca
Categories=Development;
Keywords=orca;ide;terminal;agent;coding;개발;터미널;
MimeType=x-scheme-handler/orca;
X-AppImage-Version=$VER
EOF
chmod 644 "$APPS/orca-ide.desktop"
update-desktop-database "$APPS" 2>/dev/null || true
gtk-update-icon-cache -f -t "$ICONS" 2>/dev/null || true
echo "등록: $APPS/orca-ide.desktop"

fi

echo "=== [5/6] 독(Dock) 즐겨찾기 등록 ==="
DOCK_CHANGED=0
if [ -f "$FAV" ]; then
    if grep -q '"orca-ide"' "$FAV"; then
        echo "이미 독에 등록됨"
    else
        cp "$FAV" "$FAV.popmgr-bak"
        sed -i 's/^\]$/    "orca-ide",\n]/' "$FAV"
        if grep -q '"orca-ide"' "$FAV"; then
            echo "독 즐겨찾기에 추가 (백업: $FAV.popmgr-bak)"
            DOCK_CHANGED=1
        else
            cp "$FAV.popmgr-bak" "$FAV"
            echo "경고: 독 설정 형식을 알 수 없어 건너뜀"
        fi
    fi
else
    echo "COSMIC 독 설정이 없어 건너뜀"
fi

echo "=== [6/6] 패널 반영 ==="
if [ "$DOCK_CHANGED" = "1" ] && pgrep -x cosmic-panel >/dev/null 2>&1; then
    # cosmic-app-list 만 kill 하면 cosmic-session 이 되살리지 않아 독이 빈 채로 남는다.
    # 반드시 cosmic-panel 을 재시작해야 applet 이 함께 복구된다.
    pkill -x cosmic-panel 2>/dev/null || true
    sleep 3
    if pgrep -x cosmic-panel >/dev/null 2>&1; then
        echo "패널 재시작 완료 — 독에 Orca 아이콘이 보입니다"
    else
        echo "경고: 패널이 자동 복구되지 않았습니다. 로그아웃 후 다시 로그인하세요."
    fi
else
    echo "패널 재시작 불필요"
fi

echo
if [ "$DEB_INSTALLED" = "1" ]; then
    echo "완료: apt 패키지(orca-ide)로 설치했습니다. 런처와 독에서 실행하세요."
    echo "업데이트·제거는 apt 로 하면 됩니다."
else
    echo "완료: AppImage 를 런처와 독에 등록했습니다."
fi
echo "참고: 터미널에서 'orca' 를 치면 GNOME 스크린리더가 실행됩니다 (이름 충돌)."
"#;

pub const INSTALL_KAKAOTALK_SCRIPT: &'static str = r##"
                    set -e
                    echo "=== [1/8] Bottles flatpak (--user) ==="
                    if flatpak info --user com.usebottles.bottles >/dev/null 2>&1; then
                        echo "이미 설치됨"
                    else
                        flatpak install --user --noninteractive flathub com.usebottles.bottles 2>&1 | tail -5
                    fi

                    echo
                    echo "=== [2/8] Wine 11.10-staging runner ==="
                    RUNNER_DIR="$HOME/.var/app/com.usebottles.bottles/data/bottles/runners/wine-11.10-staging-amd64"
                    if [ -x "$RUNNER_DIR/bin/wine" ]; then
                        echo "이미 있음"
                    else
                        mkdir -p "$(dirname "$RUNNER_DIR")"
                        TMPR=$(mktemp -d)
                        curl -L --progress-bar -o "$TMPR/wine.tar.xz" \
                            https://github.com/Kron4ek/Wine-Builds/releases/download/11.10/wine-11.10-staging-amd64.tar.xz
                        tar -xJf "$TMPR/wine.tar.xz" -C "$(dirname "$RUNNER_DIR")"
                        rm -rf "$TMPR"
                    fi

                    echo
                    echo "=== [3/8] portable i386 libs (시스템 dpkg 안 건드림) ==="
                    I386_DIR="$HOME/.kakaotalk-wine/i386libs"
                    if [ -f "$I386_DIR/usr/lib/i386-linux-gnu/libfreetype.so.6" ]; then
                        echo "이미 있음"
                    else
                        # i386 multiarch 활성화 시도 (시스템 broken 있으면 그대로 진행)
                        pkexec sh -c 'dpkg --add-architecture i386 2>/dev/null; apt-get update 2>/dev/null; true' || true
                        TMPI=$(mktemp -d) && cd "$TMPI"
                        apt download \
                            libfreetype6:i386 libfontconfig1:i386 \
                            libx11-6:i386 libxext6:i386 libxrender1:i386 libxrandr2:i386 \
                            libxcomposite1:i386 libxi6:i386 libxcursor1:i386 libxfixes3:i386 \
                            libpng16-16t64:i386 libexpat1:i386 \
                            libbrotli1:i386 libbz2-1.0:i386 zlib1g:i386 \
                            libxcb1:i386 libxau6:i386 libxdmcp6:i386 2>&1 | tail -3
                        mkdir -p "$I386_DIR"
                        for d in *.deb; do dpkg-deb -x "$d" "$I386_DIR/" 2>/dev/null; done
                        cd / && rm -rf "$TMPI"
                    fi

                    echo
                    echo "=== [4/8] KakaoTalk32 prefix + 카카오톡 본체 ==="
                    PREFIX="$HOME/.var/app/com.usebottles.bottles/data/bottles/bottles/KakaoTalk32"
                    KAKAO_EXE="$PREFIX/drive_c/Program Files/Kakao/KakaoTalk/KakaoTalk.exe"
                    if [ -f "$KAKAO_EXE" ]; then
                        echo "이미 설치됨"
                    else
                        mkdir -p "$(dirname "$PREFIX")"
                        # wineboot
                        flatpak run --command=bash com.usebottles.bottles -c "
                            export WINEPREFIX='$PREFIX'
                            export WINEARCH=win32
                            export WINEDEBUG=-all
                            '$RUNNER_DIR/bin/wine' wineboot --init 2>&1 | head -3
                        " || true
                        # 카오톡 setup 다운로드
                        SETUP=/tmp/KakaoTalk_Setup.exe
                        curl -L --progress-bar -o "$SETUP" \
                            https://app-pc.kakaocdn.net/talk/win32/KakaoTalk_Setup.exe
                        flatpak run --command=bash com.usebottles.bottles -c "
                            export WINEPREFIX='$PREFIX'
                            export WINEARCH=win32
                            export WINEDEBUG=-all
                            '$RUNNER_DIR/bin/wine' '$SETUP' /S 2>&1 | head -5
                            '$RUNNER_DIR/bin/wineserver' -w 2>/dev/null
                        " || true
                        rm -f "$SETUP"
                    fi

                    echo
                    echo "=== [5/9] d3d builtin DLL 복사 (대화창 흰/검 창 차단) ==="
                    SYS32="$PREFIX/drive_c/windows/system32"
                    WINE_DLLS="$RUNNER_DIR/lib/wine/i386-windows"
                    for dll in d3d9 d3d10 d3d10core d3d11 dxgi; do
                        if [ -f "$WINE_DLLS/${dll}.dll" ]; then
                            cp -n "$WINE_DLLS/${dll}.dll" "$SYS32/" 2>/dev/null && echo "복사: ${dll}.dll" || true
                        fi
                    done

                    echo
                    echo "=== [6/9] 한글 폰트 실파일 + 폰트 레지스트리 (한글 □ 깨짐 차단) ==="
                    # flatpak 샌드박스 안에서는 호스트의 /usr/share/fonts 가 보이지 않는다(/run/host/fonts 로 마운트됨).
                    # 그래서 Fonts 폴더에 심볼릭 링크를 넣으면 Wine 이 폰트를 못 읽어 한글이 전부 □ 로 깨진다.
                    # 반드시 실파일로 복사한다. (기존 링크도 실파일로 교체)
                    FONTDIR="$PREFIX/drive_c/windows/Fonts"
                    mkdir -p "$FONTDIR"
                    # 새로 깐 시스템에는 한글 폰트가 없을 수 있다(한국어 언어 지원을 추가해야 들어온다).
                    # 없으면 복사 단계가 통째로 건너뛰어져 한글이 다시 □ 로 깨지므로 먼저 설치한다.
                    if [ ! -f /usr/share/fonts/truetype/nanum/NanumGothic.ttf ]; then
                        echo "호스트에 나눔 폰트 없음 — 설치 시도 (fonts-nanum)"
                        pkexec sh -c 'apt-get install -y fonts-nanum fonts-noto-cjk 2>&1 | tail -3' \
                            || echo "! 자동 설치 실패 — 'sudo apt install fonts-nanum' 후 이 설치를 다시 실행하세요"
                        fc-cache -f >/dev/null 2>&1 || true
                    fi
                    for src in \
                        /usr/share/fonts/truetype/nanum/NanumGothic.ttf \
                        /usr/share/fonts/truetype/nanum/NanumGothicBold.ttf \
                        /usr/share/fonts/truetype/nanum/NanumMyeongjo.ttf \
                        /usr/share/fonts/opentype/noto/NotoSansCJK-Regular.ttc \
                        /usr/share/fonts/opentype/noto/NotoSansCJK-Bold.ttc
                    do
                        [ -f "$src" ] || continue
                        dst="$FONTDIR/$(basename "$src")"
                        if [ -L "$dst" ] || [ ! -f "$dst" ]; then
                            rm -f "$dst"
                            cp "$src" "$dst" && echo "폰트 복사: $(basename "$src")"
                        fi
                    done
                    if [ ! -f "$FONTDIR/NanumGothic.ttf" ]; then
                        echo "! 나눔 폰트 없음 — 'sudo apt install fonts-nanum' 후 다시 실행하세요"
                    fi

                    # 폰트 이름 치환 — 파일 저장 대화상자 등 Wine 공용 UI 의 한글 □ 깨짐 차단.
                    #
                    # WindowMetrics(LOGFONT)는 실제로 필요한 MenuFont/IconFont 둘만 바꾼다.
                    #  - MenuFont: 메뉴·문맥메뉴 한글
                    #  - IconFont: 파일 대화상자의 파일/폴더 목록 한글
                    # 나머지 넷(CaptionFont/MessageFont/StatusFont/SmCaptionFont)은 이득이 적어
                    # (캡션은 WM 이 그리고, 메시지박스/상태바는 드물다) 건드리지 않는다.
                    #
                    # 참고: 카카오톡은 시작 시 c0000409 로 죽는 일이 간헐적으로 있는데,
                    # LOGFONT 적용 여부와 무관하다. 3회씩 측정해 원본 2/1, 적용 2/1 로 같았다.
                    # (강제 종료 직후 재시작할 때 잘 나며, 다시 실행하면 뜬다)
                    # LOGFONTW(92B): lfHeight=8, lfWeight=400, lfCharSet=DEFAULT, lfFaceName="NanumGothic"
                    LF8="080000000000000000000000000000009001000000000001000000004e0061006e0075006d0047006f007400680069006300000000000000000000000000000000000000000000000000000000000000000000000000000000000000"
                    flatpak run --command=bash com.usebottles.bottles -c "
                        export WINEPREFIX='$PREFIX'
                        export WINEARCH=win32
                        export WINEDEBUG=-all
                        W='$RUNNER_DIR/bin/wine'
                        SUB='HKLM\\Software\\Microsoft\\Windows NT\\CurrentVersion\\FontSubstitutes'
                        for f in 'MS Shell Dlg' 'MS Shell Dlg 2' 'Tahoma' 'Segoe UI' 'Verdana' 'MS Sans Serif' 'Microsoft Sans Serif' 'Malgun Gothic' 'Gulim' 'GulimChe' 'Dotum' 'DotumChe'; do
                            \"\$W\" reg add \"\$SUB\" /v \"\$f\" /t REG_SZ /d NanumGothic /f >/dev/null 2>&1
                        done
                        for f in 'Batang' 'BatangChe' 'Gungsuh'; do
                            \"\$W\" reg add \"\$SUB\" /v \"\$f\" /t REG_SZ /d NanumMyeongjo /f >/dev/null 2>&1
                        done
                        WM='HKCU\\Control Panel\\Desktop\\WindowMetrics'
                        for v in MenuFont IconFont; do
                            \"\$W\" reg add \"\$WM\" /v \"\$v\" /t REG_BINARY /d $LF8 /f >/dev/null 2>&1
                        done
                        '$RUNNER_DIR/bin/wineserver' -w 2>/dev/null
                    " || true
                    echo "● 폰트 치환 + 메뉴/목록 폰트 적용 (저장 대화상자·메뉴·폴더명 한글)"

                    echo
                    echo "=== [7/9] 사용자 런처 (popmgr-ime-fix-v7) ==="
                    cat > "$HOME/.local/bin/kakaotalk" <<'LAUNCHER_EOF'
#!/bin/bash
# popmgr-ime-fix-v11 — Bottles KakaoTalk32 + 시스템 IM 자동 감지 + 소프트웨어 GL(검은 화면 우회)
#                       + 트레이 숨김 복원 리페인트 + Wine systray 창 unmap(포커스 깜빡임 차단)
WIN32_PREFIX="$HOME/.var/app/com.usebottles.bottles/data/bottles/bottles/KakaoTalk32"
RUNNER="$HOME/.var/app/com.usebottles.bottles/data/bottles/runners/wine-11.10-staging-amd64"
KAKAO_EXE="$WIN32_PREFIX/drive_c/Program Files/Kakao/KakaoTalk/KakaoTalk.exe"
[ -z "$DISPLAY" ] && export DISPLAY=:1

# 이미 실행 중이면 메인 윈도우(visible >100px)만 활성화 — 1x1 helper만 남은 좀비 케이스 차단
if pgrep -f "KakaoTalk\.exe" >/dev/null 2>&1; then
    main_wid=""
    if command -v xdotool >/dev/null; then
        # 메인 윈도우는 이름이 정확히 "KakaoTalk" — 클래스 매칭은 채팅창을 메인으로 오인함
        for w in $(xdotool search --name "^KakaoTalk$" 2>/dev/null); do
            width=$(xdotool getwindowgeometry --shell "$w" 2>/dev/null | grep ^WIDTH | cut -d= -f2)
            [ -n "$width" ] && [ "$width" -gt 100 ] 2>/dev/null && { main_wid="$w"; break; }
        done
    fi
    if [ -n "$main_wid" ]; then
        xdotool windowmap "$main_wid" 2>/dev/null
        # Wine은 트레이 숨김 창을 map만 하면 검은 창으로 뜸 — 최소화→복원으로 전체 리페인트 강제
        xdotool windowminimize "$main_wid" 2>/dev/null
        sleep 0.7
        xdotool windowactivate "$main_wid" 2>/dev/null
        xdotool windowraise "$main_wid" 2>/dev/null
        exit 0
    fi
    # 좀비 → 청소 후 새로 띄움
    pkill -9 -f "KakaoTalk\.exe" 2>/dev/null
    pkill -9 -f "winedbg" 2>/dev/null
    for pid in $(pgrep -f wineserver 2>/dev/null); do
        [ -r "/proc/$pid/environ" ] && grep -qz "KakaoTalk32" "/proc/$pid/environ" 2>/dev/null && kill -9 "$pid" 2>/dev/null
    done
    sleep 1
fi

# 좀비 KakaoTalk32 wineserver 정리
for pid in $(pgrep -f wineserver 2>/dev/null); do
    [ -r "/proc/$pid/environ" ] && grep -qz "KakaoTalk32" "/proc/$pid/environ" 2>/dev/null && kill -9 "$pid" 2>/dev/null
done
sleep 0.3

# 시스템 IM 자동 감지 (ibus 강제 X)
SYS_IM="${XMODIFIERS#@im=}"
[ -z "$SYS_IM" ] && SYS_IM="ibus"
case "$SYS_IM" in
    fcitx|fcitx5)
        SYS_IM=fcitx
        pgrep -x fcitx5 >/dev/null 2>&1 || fcitx5 -d --replace >/dev/null 2>&1 &
        ;;
    ibus)
        pgrep -x ibus-daemon >/dev/null 2>&1 || ibus-daemon -dxr >/dev/null 2>&1 &
        ;;
esac
for _ in 1 2 3 4 5 6 7 8 9 10 11 12 13 14 15; do
    xprop -root XIM_SERVERS 2>/dev/null | grep -qi "$SYS_IM" && break
    sleep 0.2
done

xsetroot -cursor_name left_ptr 2>/dev/null

# 첫 표시 검은 창 방지 — 창이 나타나면 한 번 최소화→복원해 리페인트
(
    for _ in $(seq 1 60); do
        sleep 2
        w=$(xdotool search --name "^KakaoTalk$" 2>/dev/null | head -1)
        [ -n "$w" ] || continue
        xwininfo -id "$w" 2>/dev/null | grep -q IsViewable || continue
        sleep 1
        xdotool windowminimize "$w" 2>/dev/null
        sleep 0.7
        xdotool windowactivate "$w" 2>/dev/null
        xdotool windowraise "$w" 2>/dev/null
        break
    done
) >/dev/null 2>&1 &

# Wine standalone systray 창 숨김 — 창 전환 시 포커스 깜빡임 차단
# COSMIC 은 XEmbed 트레이(_NET_SYSTEM_TRAY_S0)를 제공하지 않아, Wine explorer 가
# 224x28 짜리 자체 트레이 창을 띄운다. 이 창이 _NET_WM_WINDOW_TYPE_NORMAL 이라
# WM 의 포커스 후보에 들어가고, 대화창을 닫아 포커스가 재배치될 때 포커스를 채간다.
# 레지스트리 ShowSystray=N 으로 트레이 자체를 끄는 방법은 쓰지 않는다.
# (그 상태에서 카카오톡 크래시를 봤는데, 카카오톡에는 시작 시 간헐적 크래시가 따로 있어
#  인과를 확정하지는 못했다. 굳이 트레이 등록을 깰 이유가 없다.)
# 트레이 기능은 그대로 두고 창만 unmap 한다 — COSMIC 에선 어차피 안 보이는 창.
(
    while pgrep -f "KakaoTalk\.exe" >/dev/null 2>&1; do
        sleep 3
        for w in $(xdotool search --class "explorer.exe" 2>/dev/null); do
            # 이름 있는 창(진짜 explorer 창)은 건드리지 않음
            [ -n "$(xdotool getwindowname "$w" 2>/dev/null)" ] && continue
            h=$(xdotool getwindowgeometry --shell "$w" 2>/dev/null | grep ^HEIGHT | cut -d= -f2)
            [ -n "$h" ] && [ "$h" -lt 60 ] 2>/dev/null || continue
            xwininfo -id "$w" 2>/dev/null | grep -q IsViewable && xdotool windowunmap "$w" 2>/dev/null
        done
    done
) >/dev/null 2>&1 &

exec flatpak run \
    --env=DISPLAY="$DISPLAY" \
    --env=XMODIFIERS="${XMODIFIERS:-@im=$SYS_IM}" \
    --env=QT_IM_MODULE="${QT_IM_MODULE:-$SYS_IM}" \
    --env=GTK_IM_MODULE="${GTK_IM_MODULE:-$SYS_IM}" \
    --env=LANG="${LANG:-ko_KR.UTF-8}" \
    --env=LC_ALL="${LC_ALL:-ko_KR.UTF-8}" \
    --env=__EGL_VENDOR_LIBRARY_DIRS="/usr/lib/x86_64-linux-gnu/GL/glvnd/egl_vendor.d:/app/lib/i386-linux-gnu/GL/glvnd/egl_vendor.d:/usr/lib/x86_64-linux-gnu/GL/default/glvnd/egl_vendor.d" \
    --env=__GLX_VENDOR_LIBRARY_NAME="${__GLX_VENDOR_LIBRARY_NAME:-mesa}" \
    --env=LIBGL_ALWAYS_SOFTWARE="${LIBGL_ALWAYS_SOFTWARE:-1}" \
    --env=MESA_LOADER_DRIVER_OVERRIDE="${MESA_LOADER_DRIVER_OVERRIDE:-llvmpipe}" \
    --command=bash com.usebottles.bottles -c "
export WINEPREFIX='$WIN32_PREFIX'
export WINEARCH=win32
xsetroot -cursor_name left_ptr 2>/dev/null
'$RUNNER/bin/wine' '$KAKAO_EXE'
"
LAUNCHER_EOF
                    chmod +x "$HOME/.local/bin/kakaotalk"
                    echo "● $HOME/.local/bin/kakaotalk"

                    echo
                    echo "=== [8/9] 사용자 desktop + 아이콘 ==="
                    mkdir -p "$HOME/.local/share/applications"
                    cat > "$HOME/.local/share/applications/kakaotalk.desktop" <<DESK_EOF
[Desktop Entry]
Name=KakaoTalk
Name[ko]=카카오톡
Comment=KakaoTalk Messenger
Comment[ko]=카카오톡 메신저
Exec=$HOME/.local/bin/kakaotalk %U
Icon=kakaotalk
Type=Application
Categories=Network;InstantMessaging;Chat;
Keywords=kakao;kakaotalk;카카오;카카오톡;메신저;
StartupNotify=true
StartupWMClass=kakaotalk.exe
MimeType=x-scheme-handler/kakaotalk;
DESK_EOF
                    # 아이콘: 시스템 deb 있으면 그것, 없으면 SVG 폴백
                    ICON_DST_DIR="$HOME/.local/share/icons/hicolor/128x128/apps"
                    mkdir -p "$ICON_DST_DIR"
                    if [ -f /usr/share/icons/hicolor/128x128/apps/kakaotalk.png ]; then
                        cp -n /usr/share/icons/hicolor/128x128/apps/kakaotalk.png "$ICON_DST_DIR/" 2>/dev/null || true
                    elif [ ! -f "$ICON_DST_DIR/kakaotalk.png" ]; then
                        SVG_DIR="$HOME/.local/share/icons/hicolor/scalable/apps"
                        mkdir -p "$SVG_DIR"
                        cat > "$SVG_DIR/kakaotalk.svg" <<'SVG_EOF'
<svg xmlns="http://www.w3.org/2000/svg" viewBox="0 0 256 256"><rect width="256" height="256" rx="48" fill="#FEE500"/><path d="M128 56c-44 0-80 28-80 64 0 22 14 41 35 52l-9 32 36-22c6 1 12 2 18 2 44 0 80-28 80-64s-36-64-80-64z" fill="#3C1E1E"/></svg>
SVG_EOF
                    fi

                    echo
                    echo "=== [9/9] 데스크톱/아이콘 캐시 갱신 ==="
                    update-desktop-database "$HOME/.local/share/applications" 2>/dev/null || true
                    gtk-update-icon-cache "$HOME/.local/share/icons/hicolor" 2>/dev/null || true

                    echo
                    echo "● KakaoTalk 검증 환경 설치 완료"
                    echo "  → 앱 메뉴/독에서 카오톡 클릭 → 정상 실행 + 한글 입력 안정"
                    echo "  → 검은/흰 대화창 없음 (builtin d3d DLL 적용)"
                    echo "  → 한 번 띄운 후 다시 클릭하면 윈도우 활성화 (트레이 없어도 OK)"
                    echo "  → 저장 대화상자·메뉴·폴더명 한글 정상 (폰트 실파일 + 치환 + MenuFont/IconFont)"
                    echo "  → Wine 트레이 창 숨김으로 창 전환 시 포커스 깜빡임 차단"
                "##;

pub const LAUNCH_KAKAOTALK_SCRIPT: &'static str = r#"
                    # 좀비 카카오톡 잔여물 정리 (UI 없이 뒤에 살아있는 경우 차단)
                    # [.]/[w] 패턴: bash -c cmdline 자기매칭 방지
                    pkill -9 -f "KakaoTalk[.]exe" 2>/dev/null
                    pkill -9 -f "[w]inedbg" 2>/dev/null
                    # 같은 prefix의 wineserver만 정리 (KakaoTalk32 prefix)
                    for pid in $(pgrep -f "wineserver"); do
                        envdir="/proc/$pid/environ"
                        [ -r "$envdir" ] && grep -qz "KakaoTalk32" "$envdir" 2>/dev/null && kill -9 "$pid" 2>/dev/null
                    done
                    sleep 0.3
                    # 분리 실행
                    setsid -f nohup kakaotalk </dev/null >/dev/null 2>&1 \
                        || (nohup kakaotalk </dev/null >/dev/null 2>&1 & disown)
                    echo "카카오톡 실행 요청 완료 (이전 인스턴스 청소 + 새 인스턴스 분리 시작)"
                "#;

pub const SHOW_KAKAOTALK_SCRIPT: &'static str = r#"
                    if pgrep -f "KakaoTalk[.]exe" >/dev/null 2>&1; then
                        main_wid=""
                        for w in $(xdotool search --name "^KakaoTalk$" 2>/dev/null); do
                            width=$(xdotool getwindowgeometry --shell "$w" 2>/dev/null | grep ^WIDTH | cut -d= -f2)
                            [ -n "$width" ] && [ "$width" -gt 100 ] 2>/dev/null && { main_wid="$w"; break; }
                        done
                        if [ -n "$main_wid" ]; then
                            xdotool windowmap "$main_wid" 2>/dev/null
                            # map만 하면 Wine이 리페인트를 안 해 검은 창 — 최소화→복원으로 강제
                            xdotool windowminimize "$main_wid" 2>/dev/null
                            sleep 0.7
                            xdotool windowactivate "$main_wid" 2>/dev/null
                            xdotool windowraise "$main_wid" 2>/dev/null
                            echo "숨겨져 있던 카카오톡 창을 다시 표시했습니다."
                            exit 0
                        fi
                    fi
                    setsid -f nohup kakaotalk </dev/null >/dev/null 2>&1 \
                        || (nohup kakaotalk </dev/null >/dev/null 2>&1 & disown)
                    echo "카카오톡 실행 요청 완료"
                "#;

pub const QUIT_KAKAOTALK_SCRIPT: &'static str = r#"
                    # 패턴에 [.]/[w]를 쓰는 이유: bash -c 로 실행되면 스크립트 본문이 cmdline에 남아
                    # 평범한 패턴은 pkill이 자기 자신을 죽임(자기매칭)
                    if ! pgrep -f "KakaoTalk[.]exe" >/dev/null 2>&1; then
                        echo "카카오톡이 실행 중이 아닙니다."
                    else
                        pkill -f "KakaoTalk[.]exe" 2>/dev/null
                        sleep 2
                        pgrep -f "KakaoTalk[.]exe" >/dev/null 2>&1 && pkill -9 -f "KakaoTalk[.]exe" 2>/dev/null
                        echo "카카오톡 종료 완료"
                    fi
                    pkill -9 -f "[w]inedbg" 2>/dev/null
                    for pid in $(pgrep -f wineserver 2>/dev/null); do
                        [ -r "/proc/$pid/environ" ] && grep -qz "KakaoTalk32" "/proc/$pid/environ" 2>/dev/null && kill -9 "$pid" 2>/dev/null
                    done
                    exit 0
                "#;

pub const FORCE_KILL_KAKAOTALK_SCRIPT: &'static str = r#"
                    killed=0
                    if pgrep -f "KakaoTalk[.]exe" >/dev/null 2>&1; then
                        pkill -9 -f "KakaoTalk[.]exe" 2>/dev/null || true
                        killed=1
                    fi
                    pkill -9 -f "[w]inedbg" 2>/dev/null || true
                    for pid in $(pgrep -f wineserver 2>/dev/null); do
                        if [ -r "/proc/$pid/environ" ] && grep -qz "KakaoTalk32" "/proc/$pid/environ" 2>/dev/null; then
                            kill -9 "$pid" 2>/dev/null || true
                            killed=1
                        fi
                    done
                    if [ "$killed" -eq 1 ]; then
                        echo "카카오톡 관련 프로세스를 강제 종료했습니다."
                    else
                        echo "강제 종료할 카카오톡 프로세스가 없습니다."
                    fi
                    exit 0
                "#;

pub const FIX_KAKAOTALK_DESKTOP_SCRIPT: &'static str = r#"
                    set -e
                    DESK="$HOME/.local/share/applications/kakaotalk.desktop"
                    if [ ! -f "$DESK" ]; then
                        echo "데스크톱 파일이 없습니다: $DESK"
                        exit 1
                    fi
                    if ! grep -q '^StartupWMClass=' "$DESK"; then
                        printf '\nStartupWMClass=kakaotalk.exe\n' >> "$DESK"
                        echo "StartupWMClass=kakaotalk.exe 추가"
                    else
                        echo "StartupWMClass 이미 존재"
                    fi
                    update-desktop-database "$HOME/.local/share/applications" 2>/dev/null || true
                    echo "독 아이콘 매칭 보정 완료"
                "#;

pub const FIX_KAKAOTALK_ICON_SCRIPT: &'static str = r##"
                    set -e
                    LAUNCHER="$(command -v kakaotalk 2>/dev/null || true)"
                    [ -z "$LAUNCHER" ] && LAUNCHER="$HOME/.local/bin/kakaotalk"
                    EXE="$(grep -oE 'KAKAO_EXE=\"[^\"]+\"' "$LAUNCHER" | head -1 | sed 's/^KAKAO_EXE=\"//;s/\"$//')"
                    EXE="$(eval echo "$EXE")"
                    ICON_DIR="$HOME/.local/share/icons/hicolor/256x256/apps"
                    mkdir -p "$ICON_DIR"
                    DST_PNG="$ICON_DIR/kakaotalk.png"
                    OK=0
                    if [ -f "$EXE" ] && command -v wrestool >/dev/null && command -v icotool >/dev/null; then
                        TMP="$(mktemp -d)"
                        wrestool -x -t 14 "$EXE" -o "$TMP" 2>/dev/null || true
                        BEST="$(ls "$TMP"/*.ico 2>/dev/null | head -1)"
                        if [ -n "$BEST" ]; then
                            icotool -x -i 1 "$BEST" -o "$TMP" 2>/dev/null || \
                                icotool -x "$BEST" -o "$TMP" 2>/dev/null || true
                            BIGGEST="$(ls -S "$TMP"/*.png 2>/dev/null | head -1)"
                            if [ -n "$BIGGEST" ]; then
                                cp -f "$BIGGEST" "$DST_PNG"
                                OK=1
                                echo "아이콘 추출 성공: $DST_PNG"
                            fi
                        fi
                        rm -rf "$TMP"
                    fi
                    if [ "$OK" -eq 0 ]; then
                        # 폴백: SVG 임베디드 (노란 말풍선)
                        SVG_DIR="$HOME/.local/share/icons/hicolor/scalable/apps"
                        mkdir -p "$SVG_DIR"
                        cat > "$SVG_DIR/kakaotalk.svg" <<'SVG'
<svg xmlns="http://www.w3.org/2000/svg" viewBox="0 0 256 256">
  <rect width="256" height="256" rx="48" fill="#FEE500"/>
  <path d="M128 56c-44 0-80 28-80 64 0 22 14 41 35 52l-9 32 36-22c6 1 12 2 18 2 44 0 80-28 80-64s-36-64-80-64z" fill="#3C1E1E"/>
</svg>
SVG
                        echo "아이콘 추출 도구 없음(icoutils) — SVG 폴백 설치"
                        echo "정확한 카카오 아이콘을 원하면: sudo apt install icoutils 후 다시 보정"
                    fi
                    # 데스크톱 파일 Icon= 라인이 절대경로일 수 있어 'kakaotalk'으로 정규화
                    DESK="$HOME/.local/share/applications/kakaotalk.desktop"
                    if [ -f "$DESK" ] && ! grep -q '^Icon=kakaotalk$' "$DESK"; then
                        sed -i 's|^Icon=.*$|Icon=kakaotalk|' "$DESK"
                    fi
                    # 캐시 갱신
                    gtk-update-icon-cache "$HOME/.local/share/icons/hicolor" 2>/dev/null || true
                    update-desktop-database "$HOME/.local/share/applications" 2>/dev/null || true
                    echo "독 즐겨찾기/런처 아이콘 설치 완료 — 독을 재시작하거나 즐겨찾기 다시 추가하세요"
                "##;

pub const FIX_KAKAOTALK_IME_SCRIPT: &'static str = r#"
                    set -e
                    LAUNCHER="$HOME/.local/bin/kakaotalk"
                    [ -f "$LAUNCHER" ] || { echo "런처 없음: $LAUNCHER"; exit 1; }

                    # 이미 패치돼 있으면 스킵
                    if grep -q '# popmgr-ime-fix-v1' "$LAUNCHER"; then
                        echo "이미 패치돼 있습니다 (popmgr-ime-fix-v1)"
                        exit 0
                    fi

                    cp -f "$LAUNCHER" "$LAUNCHER.bak"
                    cat > "$LAUNCHER" <<'EOF'
#!/bin/bash
# popmgr-ime-fix-v1
WIN32_PREFIX="/home/dell/.var/app/com.usebottles.bottles/data/bottles/bottles/KakaoTalk32"
RUNNER="/home/dell/.var/app/com.usebottles.bottles/data/bottles/runners/wine-11.10-staging-amd64"
KAKAO_EXE="$WIN32_PREFIX/drive_c/Program Files/Kakao/KakaoTalk/KakaoTalk.exe"

# DISPLAY 보정 — 세션 환경에 따라 :0 또는 :1
[ -z "$DISPLAY" ] && export DISPLAY=:1

cleanup() {
    pkill -f "KakaoTalk.exe" 2>/dev/null
    flatpak run --command=bash com.usebottles.bottles -c "
    export WINEPREFIX='$WIN32_PREFIX'
    '$RUNNER/bin/wineserver' -k 2>/dev/null
    " &>/dev/null
    exit 0
}
trap cleanup SIGTERM SIGINT

# === 한글 입력 안정화 ===
# ibus-daemon이 살아있고 XIM_SERVERS에 ibus가 등록돼 있으면 건드리지 않음
need_ibus_restart=0
pgrep -x ibus-daemon >/dev/null 2>&1 || need_ibus_restart=1
xprop -root XIM_SERVERS 2>/dev/null | grep -qi "ibus" || need_ibus_restart=1

if [ "$need_ibus_restart" = "1" ]; then
    ibus-daemon -dxr >/dev/null 2>&1 &
fi

# XIM 서버가 X atom에 노출될 때까지 최대 3초 폴링 (sleep 0.5 한 번보다 안정적)
for _ in 1 2 3 4 5 6 7 8 9 10 11 12 13 14 15; do
    xprop -root XIM_SERVERS 2>/dev/null | grep -qi "ibus" && break
    sleep 0.2
done

xsetroot -cursor_name left_ptr 2>/dev/null

# flatpak 샌드박스로 env 명시 전달 (--env 사용)
flatpak run \
    --env=DISPLAY="$DISPLAY" \
    --env=XMODIFIERS=@im=ibus \
    --env=QT_IM_MODULE=ibus \
    --env=GTK_IM_MODULE=ibus \
    --env=LANG=ko_KR.UTF-8 \
    --env=LC_ALL=ko_KR.UTF-8 \
    --command=bash com.usebottles.bottles -c "
export WINEPREFIX='$WIN32_PREFIX'
export WINEARCH=win32
xsetroot -cursor_name left_ptr 2>/dev/null
'$RUNNER/bin/wine' '$KAKAO_EXE' 2>/dev/null
"
EOF
                    chmod +x "$LAUNCHER"
                    echo "런처 패치 완료: $LAUNCHER"
                    echo "백업: $LAUNCHER.bak"
                "#;

pub const INSTALL_MPV_SCRIPT: &'static str = "pkexec apt-get install -y mpv vainfo";

#[derive(Debug, Clone)]
pub enum AppsMsg {
    Refresh,
    Refreshed(AppsStatus),
    SearchChanged(String),
    TogglePkg(usize),
    RemoveMarked,
    InstallKakaotalk,
    LaunchKakaotalk,
    ShowKakaotalk,
    QuitKakaotalk,
    ForceKillKakaotalk,
    FixKakaotalkDesktop,
    FixKakaotalkIcon,
    FixKakaotalkIme,
    InstallOrca,
    InstallMpv,
    SetMpvDefaultPlayer,
    InstallRecording,
    RegisterRecordingShortcut,
    ToggleRecording,
    Done(CmdResult),
}

/// The outside work that an event asks for.
#[derive(Debug)]
pub enum AppsAction {
    Idle,
    /// Scan the applications; answer `Refreshed`.
    Scan,
    /// Run the script streaming its output to the log; answer `Done`.
    RunStream(String),
    /// Run the script; answer `Done`.
    RunSh(String),
    /// Make mpv the default player and check every type; answer `Done`.
    SetMpvDefaultPlayer,
    /// Register the recording shortcut and report its result.
    RegisterRecordingShortcut,
    /// Start or stop a recording, report its result, then answer `Refreshed`.
    ToggleRecording,
}

pub struct AppsState {
    pub status: Option<AppsStatus>,
    pub search: String,
    pub running: Option<String>,
}

pub open spec fn marked_names(ps: Seq<Package>) -> Seq<Seq<char>>
    decreases ps.len(),
{
    if ps.len() == 0 {
        seq![]
    } else if ps.last().marked {
        marked_names(ps.drop_last()).push(ps.last().name@)
    } else {
        marked_names(ps.drop_last())
    }
}

pub open spec fn marked_names_of(ps: Seq<Package>, k: PkgKind) -> Seq<Seq<char>>
    decreases ps.len(),
{
    if ps.len() == 0 {
        seq![]
    } else if ps.last().marked && ps.last().kind == k {
        marked_names_of(ps.drop_last(), k).push(ps.last().name@)
    } else {
        marked_names_of(ps.drop_last(), k)
    }
}

pub open spec fn flatpak_uninstall_lines(names: Seq<Seq<char>>) -> Seq<char>
    decreases names.len(),
{
    if names.len() == 0 {
        seq![]
    } else {
        flatpak_uninstall_lines(names.drop_last()) + "flatpak uninstall -y "@ + names.last() + "\n"@
    }
}

/// Removes the marked apt packages (with autoremove) and Flatpak applications.
pub open spec fn spec_remove_script(ps: Seq<Package>) -> Seq<char> {
    let apt = marked_names_of(ps, PkgKind::Apt);
    (if apt.len() > 0 {
        "pkexec apt-get remove --purge -y "@ + join(apt, " "@) + " && pkexec apt-get autoremove -y\n"@
    } else {
        seq![]
    }) + flatpak_uninstall_lines(marked_names_of(ps, PkgKind::Flatpak))
}

pub open spec fn spec_remove_label(ps: Seq<Package>) -> Seq<char> {
    "제거 중: "@ + join(marked_names(ps), ", "@) + "..."@
}

pub open spec fn status_packages(st: Option<AppsStatus>) -> Seq<Package> {
    match st {
        Some(s) => s.packages@,
        None => seq![],
    }
}

/// Whether two scans agree on everything but the package list.
pub open spec fn same_but_packages(a: AppsStatus, b: AppsStatus) -> bool {
    &&& a.kakaotalk_installed == b.kakaotalk_installed
    &&& a.kakaotalk_launcher == b.kakaotalk_launcher
    &&& a.kakaotalk_exe == b.kakaotalk_exe
    &&& a.kakaotalk_desktop == b.kakaotalk_desktop
    &&& a.kakaotalk_wmclass_ok == b.kakaotalk_wmclass_ok
    &&& a.kakaotalk_icon_ok == b.kakaotalk_icon_ok
    &&& a.kakaotalk_ime_patched == b.kakaotalk_ime_patched
    &&& a.orca_deb_installed == b.orca_deb_installed
    &&& a.orca_appimage == b.orca_appimage
    &&& a.orca_version == b.orca_version
    &&& a.orca_desktop == b.orca_desktop
    &&& a.orca_icon_ok == b.orca_icon_ok
    &&& a.orca_dock_ok == b.orca_dock_ok
    &&& a.recording == b.recording
    &&& a.mpv == b.mpv
}

/// The package list with the mark of entry `i` flipped (when there is one).
pub open spec fn toggled(ps: Seq<Package>, i: int) -> Seq<Package> {
    if 0 <= i < ps.len() {
        ps.update(i, Package { marked: !ps[i].marked, ..ps[i] })
    } else {
        ps
    }
}

/// Whether the update leaves the scan and the search text alone.
pub open spec fn keeps_status(a: AppsState, b: AppsState) -> bool {
    a.status == b.status && a.search == b.search
}

/// The label and script of a request that runs one fixed script.
pub open spec fn fixed_request(msg: AppsMsg) -> Option<(Option<Seq<char>>, bool, Seq<char>)> {
    match msg {
        AppsMsg::InstallOrca => Some((Some("Orca 런처·독 등록 중..."@), true, INSTALL_ORCA_SCRIPT@)),
        AppsMsg::InstallMpv => Some((Some("mpv·VA-API 정보 도구 설치 중..."@), true, INSTALL_MPV_SCRIPT@)),
        AppsMsg::InstallKakaotalk => Some((Some("KakaoTalk 검증 환경 설치 중..."@), true, INSTALL_KAKAOTALK_SCRIPT@)),
        AppsMsg::LaunchKakaotalk => Some((None, false, LAUNCH_KAKAOTALK_SCRIPT@)),
        AppsMsg::ShowKakaotalk => Some((Some("카카오톡 창 불러오는 중..."@), false, SHOW_KAKAOTALK_SCRIPT@)),
        AppsMsg::QuitKakaotalk => Some((Some("카카오톡 완전 종료 중..."@), false, QUIT_KAKAOTALK_SCRIPT@)),
        AppsMsg::ForceKillKakaotalk => Some((Some("카카오톡 강제 kill 중..."@), false, FORCE_KILL_KAKAOTALK_SCRIPT@)),
        AppsMsg::FixKakaotalkDesktop => Some((Some("바로가기/독 아이콘 보정 중..."@), false, FIX_KAKAOTALK_DESKTOP_SCRIPT@)),
        AppsMsg::FixKakaotalkIcon => Some((Some("아이콘 추출/설치 중..."@), false, FIX_KAKAOTALK_ICON_SCRIPT@)),
        AppsMsg::FixKakaotalkIme => Some((Some("한글 입력 안정화 패치 적용 중..."@), false, FIX_KAKAOTALK_IME_SCRIPT@)),
        _ => None,
    }
}

impl AppsState {
    pub fn new() -> (s: Self)
        ensures
            s.status is None,
            s.search@ == Seq::<char>::empty(),
            s.running is None,
    {
        AppsState { status: None, search: String::new(), running: None }
    }

    fn run_fixed(&mut self, label: Option<&str>, stream: bool, script: &str) -> (r: (AppsAction, Option<CmdResult>))
        ensures
            keeps_status(*old(self), *final(self)),
            match label {
                Some(l) => opt_view(final(self).running) == Some(l@),
                None => final(self).running == old(self).running,
            },
            r.1 is None,
            if stream {
                r.0 matches AppsAction::RunStream(sc) && sc@ == script@
            } else {
                r.0 matches AppsAction::RunSh(sc) && sc@ == script@
            },
    {
        match label {
            Some(l) => { self.running = Some(string_of(chars_of(l))); },
            None => {},
        }
        let sc = string_of(chars_of(script));
        if stream { (AppsAction::RunStream(sc), None) } else { (AppsAction::RunSh(sc), None) }
    }

    /// The next state and the work to do for an event.  Marking toggles one
    /// package; removal runs one script for the marked packages (refusing an
    /// empty selection); the recording setup needs a scan with the driver's
    /// runtime; a finished task clears the busy label and rescans.
    pub fn update(&mut self, msg: AppsMsg) -> (r: (AppsAction, Option<CmdResult>))
        ensures
            match msg {
                AppsMsg::Refresh => r.0 is Scan && r.1 is None && *final(self) == *old(self),
                AppsMsg::Refreshed(st) => r.0 is Idle && r.1 is None && final(self).status == Some(st)
                    && final(self).search == old(self).search && final(self).running == old(self).running,
                AppsMsg::SearchChanged(q) => r.0 is Idle && r.1 is None && final(self).search == q
                    && final(self).status == old(self).status && final(self).running == old(self).running,
                AppsMsg::TogglePkg(i) => {
                    &&& r.0 is Idle && r.1 is None
                    &&& final(self).search == old(self).search && final(self).running == old(self).running
                    &&& match old(self).status {
                        None => final(self).status is None,
                        Some(st) => final(self).status matches Some(st2)
                            && same_but_packages(st, st2)
                            && st2.packages@ == toggled(st.packages@, i as int),
                    }
                },
                AppsMsg::RemoveMarked => {
                    &&& keeps_status(*old(self), *final(self))
                    &&& if marked_names(status_packages(old(self).status)).len() == 0 {
                        &&& r.0 is Idle && final(self).running == old(self).running
                        &&& r.1 matches Some(res) && !res.success && res.output@ == "제거할 패키지를 선택해주세요."@
                    } else {
                        &&& r.1 is None
                        &&& opt_view(final(self).running) == Some(spec_remove_label(status_packages(old(self).status)))
                        &&& r.0 matches AppsAction::RunSh(sc) && sc@ == spec_remove_script(status_packages(old(self).status))
                    }
                },
                AppsMsg::InstallRecording => {
                    &&& keeps_status(*old(self), *final(self))
                    &&& match old(self).status {
                        None => r.0 is Idle && final(self).running == old(self).running
                            && (r.1 matches Some(res) && !res.success && res.output@ == "상태를 먼저 불러오는 중입니다."@),
                        Some(st) => match st.recording.nvidia_extension {
                            None => r.0 is Idle && final(self).running == old(self).running
                                && (r.1 matches Some(res) && !res.success
                                    && res.output@ == "호스트 NVIDIA 드라이버 버전을 읽지 못했습니다."@),
                            Some(ext) => r.1 is None
                                && opt_view(final(self).running) == Some("GPU Screen Recorder 설치·런타임 맞춤 중..."@)
                                && (r.0 matches AppsAction::RunStream(sc) && sc@ == spec_recording_install_script(
                                    st.recording.gsr_scope, st.recording.system_flathub, st.recording.obs_scope, ext@)),
                        },
                    }
                },
                AppsMsg::SetMpvDefaultPlayer => r.0 is SetMpvDefaultPlayer && r.1 is None
                    && keeps_status(*old(self), *final(self))
                    && opt_view(final(self).running) == Some("mpv를 기본 동영상 플레이어로 지정 중..."@),
                AppsMsg::RegisterRecordingShortcut => r.0 is RegisterRecordingShortcut && r.1 is None && *final(self) == *old(self),
                AppsMsg::ToggleRecording => r.0 is ToggleRecording && r.1 is None && *final(self) == *old(self),
                AppsMsg::Done(res) => r.0 is Scan && r.1 == Some(res) && keeps_status(*old(self), *final(self))
                    && final(self).running is None,
                _ => {
                    fixed_request(msg) matches Some((label, stream, script)) && {
                        &&& keeps_status(*old(self), *final(self)) && r.1 is None
                        &&& match label {
                            Some(l) => opt_view(final(self).running) == Some(l),
                            None => final(self).running == old(self).running,
                        }
                        &&& if stream {
                            r.0 matches AppsAction::RunStream(sc) && sc@ == script
                        } else {
                            r.0 matches AppsAction::RunSh(sc) && sc@ == script
                        }
                    }
                },
            },
    {
        match msg {
            AppsMsg::Refresh => (AppsAction::Scan, None),
            AppsMsg::Refreshed(st) => {
                self.status = Some(st);
                (AppsAction::Idle, None)
            },
            AppsMsg::SearchChanged(q) => {
                self.search = q;
                (AppsAction::Idle, None)
            },
            AppsMsg::TogglePkg(i) => {
                let mut cur: Option<AppsStatus> = None;
                std::mem::swap(&mut cur, &mut self.status);
                match cur {
                    None => {},
                    Some(mut st) => {
                        let ghost st0 = st;
                        if i < st.packages.len() {
                            let mut p = st.packages.remove(i);
                            let ghost p0 = p;
                            p.marked = !p.marked;
                            st.packages.insert(i, p);
                            assert(st.packages@ =~= toggled(st0.packages@, i as int));
                        }
                        self.status = Some(st);
                    },
                }
                (AppsAction::Idle, None)
            },
            AppsMsg::RemoveMarked => self.remove_marked(),
            AppsMsg::InstallRecording => {
                let script = match &self.status {
                    None => {
                        let res = CmdResult { success: false, output: string_of(chars_of("상태를 먼저 불러오는 중입니다.")) };
                        return (AppsAction::Idle, Some(res));
                    },
                    Some(st) => match &st.recording.nvidia_extension {
                        None => {
                            let res = CmdResult { success: false, output: string_of(chars_of("호스트 NVIDIA 드라이버 버전을 읽지 못했습니다.")) };
                            return (AppsAction::Idle, Some(res));
                        },
                        Some(ext) => recording_install_script(
                            st.recording.gsr_scope, st.recording.system_flathub, st.recording.obs_scope, ext.as_str()),
                    },
                };
                self.running = Some(string_of(chars_of("GPU Screen Recorder 설치·런타임 맞춤 중...")));
                (AppsAction::RunStream(script), None)
            },
            AppsMsg::InstallOrca => self.run_fixed(Some("Orca 런처·독 등록 중..."), true, INSTALL_ORCA_SCRIPT),
            AppsMsg::InstallMpv => self.run_fixed(Some("mpv·VA-API 정보 도구 설치 중..."), true, INSTALL_MPV_SCRIPT),
            AppsMsg::SetMpvDefaultPlayer => {
                self.running = Some(string_of(chars_of("mpv를 기본 동영상 플레이어로 지정 중...")));
                (AppsAction::SetMpvDefaultPlayer, None)
            },
            AppsMsg::RegisterRecordingShortcut => (AppsAction::RegisterRecordingShortcut, None),
            AppsMsg::ToggleRecording => (AppsAction::ToggleRecording, None),
            AppsMsg::InstallKakaotalk => self.run_fixed(Some("KakaoTalk 검증 환경 설치 중..."), true, INSTALL_KAKAOTALK_SCRIPT),
            AppsMsg::LaunchKakaotalk => self.run_fixed(None, false, LAUNCH_KAKAOTALK_SCRIPT),
            AppsMsg::ShowKakaotalk => self.run_fixed(Some("카카오톡 창 불러오는 중..."), false, SHOW_KAKAOTALK_SCRIPT),
            AppsMsg::QuitKakaotalk => self.run_fixed(Some("카카오톡 완전 종료 중..."), false, QUIT_KAKAOTALK_SCRIPT),
            AppsMsg::ForceKillKakaotalk => self.run_fixed(Some("카카오톡 강제 kill 중..."), false, FORCE_KILL_KAKAOTALK_SCRIPT),
            AppsMsg::FixKakaotalkDesktop => self.run_fixed(Some("바로가기/독 아이콘 보정 중..."), false, FIX_KAKAOTALK_DESKTOP_SCRIPT),
            AppsMsg::FixKakaotalkIcon => self.run_fixed(Some("아이콘 추출/설치 중..."), false, FIX_KAKAOTALK_ICON_SCRIPT),
            AppsMsg::FixKakaotalkIme => self.run_fixed(Some("한글 입력 안정화 패치 적용 중..."), false, FIX_KAKAOTALK_IME_SCRIPT),
            AppsMsg::Done(res) => {
                self.running = None;
                (AppsAction::Scan, Some(res))
            },
        }
    }

    fn remove_marked(&mut self) -> (r: (AppsAction, Option<CmdResult>))
        ensures
            keeps_status(*old(self), *final(self)),
            if marked_names(status_packages(old(self).status)).len() == 0 {
                &&& r.0 is Idle && final(self).running == old(self).running
                &&& r.1 matches Some(res) && !res.success && res.output@ == "제거할 패키지를 선택해주세요."@
            } else {
                &&& r.1 is None
                &&& opt_view(final(self).running) == Some(spec_remove_label(status_packages(old(self).status)))
                &&& r.0 matches AppsAction::RunSh(sc) && sc@ == spec_remove_script(status_packages(old(self).status))
            },
    {
        let ghost ps = status_packages(self.status);
        let mut all: Vec<Vec<char>> = Vec::new();
        let mut apt: Vec<Vec<char>> = Vec::new();
        let mut flat: Vec<Vec<char>> = Vec::new();
        match &self.status {
            None => {},
            Some(st) => {
                let mut i: usize = 0;
                assert(ps.take(0) =~= Seq::<Package>::empty());
                while i < st.packages.len()
                    invariant
                        i <= st.packages.len(),
                        ps == st.packages@,
                        all.deep_view() == marked_names(ps.take(i as int)),
                        apt.deep_view() == marked_names_of(ps.take(i as int), PkgKind::Apt),
                        flat.deep_view() == marked_names_of(ps.take(i as int), PkgKind::Flatpak),
                    decreases st.packages.len() - i,
                {
                    let p = &st.packages[i];
                    assert(ps.take(i + 1).drop_last() =~= ps.take(i as int));
                    assert(ps.take(i + 1).last() == *p);
                    if p.marked {
                        push_piece(&mut all, chars_of_string(&p.name));
                        match p.kind {
                            PkgKind::Apt => push_piece(&mut apt, chars_of_string(&p.name)),
                            PkgKind::Flatpak => push_piece(&mut flat, chars_of_string(&p.name)),
                        }
                    }
                    i += 1;
                }
                assert(ps.take(st.packages.len() as int) =~= ps);
            },
        }
        if all.len() == 0 {
            let res = CmdResult { success: false, output: string_of(chars_of("제거할 패키지를 선택해주세요.")) };
            return (AppsAction::Idle, Some(res));
        }
        let mut label = chars_of("제거 중: ");
        extend(&mut label, join_str(&all, ", ").as_slice());
        extend_str(&mut label, "...");
        self.running = Some(string_of(label));
        let mut script: Vec<char> = Vec::new();
        if apt.len() > 0 {
            extend_str(&mut script, "pkexec apt-get remove --purge -y ");
            extend(&mut script, join_str(&apt, " ").as_slice());
            extend_str(&mut script, " && pkexec apt-get autoremove -y\n");
        }
        let ghost s0 = script@;
        let ghost fv = flat.deep_view();
        let mut k: usize = 0;
        assert(fv.take(0) =~= Seq::<Seq<char>>::empty());
        while k < flat.len()
            invariant
                k <= flat.len(),
                fv == flat.deep_view(),
                script@ == s0 + flatpak_uninstall_lines(fv.take(k as int)),
            decreases flat.len() - k,
        {
            proof { lemma_deep_view_chars(&flat[k as int]); }
            extend_str(&mut script, "flatpak uninstall -y ");
            extend(&mut script, flat[k].as_slice());
            extend_str(&mut script, "\n");
            assert(fv.take(k + 1).drop_last() =~= fv.take(k as int));
            assert(script@ =~= s0 + flatpak_uninstall_lines(fv.take(k + 1)));
            k += 1;
        }
        assert(fv.take(flat.len() as int) =~= fv);
        (AppsAction::RunSh(string_of(script)), None)
    }
}

} // verus!
