//! Diagnosis of the fcitx5 GTK3 input-module bug: the module of one packaged
//! version fails to load against an older GLib, and the tool then offers
//! (as text only) a downgrade to the repository candidate.

use vstd::prelude::*;
use crate::text::{
    chars_of, chars_of_string, contains, eq, eq_str, extend, extend_str, join, join_str, lemma_deep_view_chars,
    lines, lines_of, opt_view, push_piece, starts_with, string_of, strip_prefix_str, trim, trim_exec,
};

verus! {

/// The one packaged module version known to fail with "GLib version too old".
pub const KNOWN_BUGGY_GTK_MODULE_VERSION: &'static str = "5.1.3-2";

/// The packages whose versions the diagnosis reports.
pub open spec fn spec_gtk_module_packages() -> Seq<Seq<char>> {
    seq!["fcitx5-frontend-gtk3"@, "fcitx5-frontend-gtk4"@, "libfcitx5gclient2"@]
}

pub fn gtk_module_packages() -> (r: Vec<&'static str>)
    ensures
        r@.map_values(|s: &str| s@) == spec_gtk_module_packages(),
{
    let r = vec!["fcitx5-frontend-gtk3", "fcitx5-frontend-gtk4", "libfcitx5gclient2"];
    assert(r@.map_values(|s: &str| s@) =~= spec_gtk_module_packages());
    r
}

pub const NO_SAFE_GTK_VERSION: &'static str = "저장소에 안전한 버전 없음 — apt-cache policy로 직접 확인하세요";

#[derive(Debug, Clone, Copy, PartialEq, Eq, Structural)]
pub enum GtkModuleBugState {
    Confirmed,
    SuspectedByVersion,
    Healthy,
}

#[derive(Debug, Clone)]
pub struct GtkModuleBugStatus {
    pub packages: Vec<(String, Option<String>)>,
    pub state: GtkModuleBugState,
    pub fix_command: Option<String>,
}

pub open spec fn spec_is_buggy_gtk_version(version: Option<Seq<char>>) -> bool {
    version == Some(KNOWN_BUGGY_GTK_MODULE_VERSION@)
}

/// Whether an installed version is the known broken one.
pub fn is_buggy_gtk_version(version: Option<&str>) -> (r: bool)
    ensures
        r == spec_is_buggy_gtk_version(match version { Some(v) => Some(v@), None => None }),
{
    match version {
        None => false,
        Some(v) => {
            let c = chars_of(v);
            eq_str(c.as_slice(), KNOWN_BUGGY_GTK_MODULE_VERSION)
        },
    }
}

pub open spec fn spec_detect_glib_mismatch(output: Seq<char>) -> bool {
    contains(output, "GLib version too old"@)
}

/// Whether the module loader's output shows the GLib mismatch.
pub fn detect_glib_mismatch(output: &str) -> (r: bool)
    ensures
        r == spec_detect_glib_mismatch(output@),
{
    let c = chars_of(output);
    crate::text::contains_str(c.as_slice(), "GLib version too old")
}

pub open spec fn spec_gtk_module_bug_state(output: Option<Seq<char>>, buggy_version: bool) -> GtkModuleBugState {
    match output {
        Some(o) => if spec_detect_glib_mismatch(o) { GtkModuleBugState::Confirmed } else { GtkModuleBugState::Healthy },
        None => if buggy_version { GtkModuleBugState::SuspectedByVersion } else { GtkModuleBugState::Healthy },
    }
}

/// A reproduced load failure confirms the bug; without a loader run, a
/// broken version only makes it suspected.
pub fn gtk_module_bug_state(output: Option<&str>, buggy_version: bool) -> (r: GtkModuleBugState)
    ensures
        r == spec_gtk_module_bug_state(match output { Some(o) => Some(o@), None => None }, buggy_version),
{
    match output {
        Some(o) => {
            if detect_glib_mismatch(o) { GtkModuleBugState::Confirmed } else { GtkModuleBugState::Healthy }
        },
        None => {
            if buggy_version { GtkModuleBugState::SuspectedByVersion } else { GtkModuleBugState::Healthy }
        },
    }
}

/// The candidate version on one line of `apt-cache policy` output (Korean or
/// English locale); `(none)` and empty values are no candidate.
pub open spec fn apt_candidate_of_line(line: Seq<char>) -> Option<Seq<char>> {
    let t = trim(line);
    let rest = if starts_with(t, "후보:"@) {
        Some(t.skip(3))
    } else if starts_with(t, "Candidate:"@) {
        Some(t.skip(10))
    } else {
        None
    };
    match rest {
        None => None,
        Some(r) => {
            let v = trim(r);
            if v.len() == 0 || v[0] == '(' { None } else { Some(v) }
        },
    }
}

pub open spec fn first_candidate(ls: Seq<Seq<char>>) -> Option<Seq<char>>
    decreases ls.len(),
{
    if ls.len() == 0 {
        None
    } else {
        match apt_candidate_of_line(ls[0]) {
            Some(v) => Some(v),
            None => first_candidate(ls.drop_first()),
        }
    }
}

fn apt_candidate_of_line_exec(line: &[char]) -> (r: Option<Vec<char>>)
    ensures
        (match r { Some(v) => Some(v@), None => None }) == apt_candidate_of_line(line@),
{
    proof { reveal_strlit("후보:"); reveal_strlit("Candidate:"); }
    let t = trim_exec(line);
    let rest = match strip_prefix_str(t.as_slice(), "후보:") {
        Some(r) => Some(r),
        None => strip_prefix_str(t.as_slice(), "Candidate:"),
    };
    match rest {
        None => None,
        Some(r) => {
            let v = trim_exec(r.as_slice());
            if v.len() == 0 || v[0] == '(' { None } else { Some(v) }
        },
    }
}

pub open spec fn spec_parse_apt_candidate(output: Seq<char>) -> Option<Seq<char>> {
    first_candidate(lines(output))
}

/// The candidate version in `apt-cache policy` output: the first line that
/// names one.
pub fn parse_apt_candidate(output: &str) -> (r: Option<String>)
    ensures
        opt_view(r) == spec_parse_apt_candidate(output@),
{
    let ls = lines_of(output);
    let ghost lv = ls.deep_view();
    let mut i: usize = 0;
    assert(lv.skip(0) =~= lv);
    while i < ls.len()
        invariant
            i <= ls.len(),
            lv == ls.deep_view(),
            lv == lines(output@),
            first_candidate(lv.skip(i as int)) == first_candidate(lv),
        decreases ls.len() - i,
    {
        proof { lemma_deep_view_chars(&ls[i as int]); }
        assert(lv.skip(i as int).drop_first() =~= lv.skip(i + 1));
        match apt_candidate_of_line_exec(ls[i].as_slice()) {
            Some(v) => {
                return Some(string_of(v));
            },
            None => {},
        }
        i += 1;
    }
    None
}

/// One package entry of the guidance: name, installed version and candidate.
pub open spec fn triple_view(t: (String, String, Option<String>)) -> (Seq<char>, Seq<char>, Option<Seq<char>>) {
    (t.0@, t.1@, opt_view(t.2))
}

/// The `package=candidate` arguments, or `None` when some package has no
/// candidate, the candidate is the installed version, or it is the broken one.
pub open spec fn guidance_args(ps: Seq<(Seq<char>, Seq<char>, Option<Seq<char>>)>) -> Option<Seq<Seq<char>>>
    decreases ps.len(),
{
    if ps.len() == 0 {
        Some(seq![])
    } else {
        match guidance_args(ps.drop_last()) {
            None => None,
            Some(a) => {
                let (p, inst, cand) = ps.last();
                match cand {
                    None => None,
                    Some(c) => {
                        if c == inst || spec_is_buggy_gtk_version(Some(c)) {
                            None
                        } else {
                            Some(a.push(p + "="@ + c))
                        }
                    },
                }
            },
        }
    }
}

pub open spec fn spec_gtk_fix_guidance(ps: Seq<(Seq<char>, Seq<char>, Option<Seq<char>>)>) -> Seq<char> {
    match guidance_args(ps) {
        None => NO_SAFE_GTK_VERSION@,
        Some(a) => {
            if a.len() == 0 {
                NO_SAFE_GTK_VERSION@
            } else {
                "sudo apt-get install --reinstall --allow-downgrades "@ + join(a, " "@)
            }
        },
    }
}

/// The downgrade command to show, or the no-safe-version notice when any
/// package lacks a usable candidate (an incomplete command is never offered).
pub fn gtk_fix_guidance(packages: &[(String, String, Option<String>)]) -> (r: String)
    ensures
        r@ == spec_gtk_fix_guidance(packages@.map_values(|t: (String, String, Option<String>)| triple_view(t))),
{
    let ghost ps = packages@.map_values(|t: (String, String, Option<String>)| triple_view(t));
    let mut args: Vec<Vec<char>> = Vec::new();
    let mut i: usize = 0;
    assert(ps.take(0) =~= Seq::<(Seq<char>, Seq<char>, Option<Seq<char>>)>::empty());
    while i < packages.len()
        invariant
            i <= packages.len(),
            ps == packages@.map_values(|t: (String, String, Option<String>)| triple_view(t)),
            guidance_args(ps.take(i as int)) == Some(args.deep_view()),
        decreases packages.len() - i,
    {
        let (package, installed, candidate) = &packages[i];
        assert(ps.take(i + 1).drop_last() =~= ps.take(i as int));
        assert(ps.take(i + 1).last() == triple_view(packages@[i as int]));
        match candidate {
            None => {
                proof { lemma_none_stays(ps, i as int + 1); }
                return String::from_str(NO_SAFE_GTK_VERSION);
            },
            Some(c) => {
                let cv = chars_of_string(c);
                let iv = chars_of_string(installed);
                if eq(cv.as_slice(), iv.as_slice()) || eq_str(cv.as_slice(), KNOWN_BUGGY_GTK_MODULE_VERSION) {
                    proof { lemma_none_stays(ps, i as int + 1); }
                    return String::from_str(NO_SAFE_GTK_VERSION);
                }
                let mut a = chars_of_string(package);
                extend_str(&mut a, "=");
                extend(&mut a, cv.as_slice());
                let ghost before = args.deep_view();
                proof { lemma_deep_view_chars(&a); }
                crate::text::push_piece(&mut args, a);
                assert(args.deep_view() =~= before.push(package@ + "="@ + c@));
            },
        }
        i += 1;
    }
    assert(ps.take(packages.len() as int) =~= ps);
    if args.len() == 0 {
        return String::from_str(NO_SAFE_GTK_VERSION);
    }
    let mut out = chars_of("sudo apt-get install --reinstall --allow-downgrades ");
    let j = crate::text::join_str(&args, " ");
    extend(&mut out, j.as_slice());
    string_of(out)
}

/// Once some prefix has no guidance, no longer prefix has any.
proof fn lemma_none_stays(ps: Seq<(Seq<char>, Seq<char>, Option<Seq<char>>)>, k: int)
    requires
        0 <= k <= ps.len(),
        guidance_args(ps.take(k)) is None,
    ensures
        guidance_args(ps) is None,
    decreases ps.len() - k,
{
    if k < ps.len() {
        assert(ps.take(k + 1).drop_last() =~= ps.take(k));
        lemma_none_stays(ps, k + 1);
    } else {
        assert(ps.take(k) =~= ps);
    }
}

pub open spec fn spec_gtk_bug_title(state: GtkModuleBugState) -> Seq<char> {
    if state == GtkModuleBugState::Healthy {
        "[OK] fcitx5 GTK 입력기 모듈 정상"@
    } else {
        "[!] fcitx5 GTK 입력기 모듈에 알려진 버그"@
    }
}

pub fn gtk_bug_title(state: GtkModuleBugState) -> (r: &'static str)
    ensures
        r@ == spec_gtk_bug_title(state),
{
    if state == GtkModuleBugState::Healthy {
        "[OK] fcitx5 GTK 입력기 모듈 정상"
    } else {
        "[!] fcitx5 GTK 입력기 모듈에 알려진 버그"
    }
}

pub const GTK_BUG_CONFIRMED_TEXT: &'static str = "GTK3 모듈 로드 실패 재현됨: GLib version too old.\nGTK3 앱(예: Tauri)에서 이 모듈을 통한 한글 입력이 안 됩니다. Electron은 해당 없음.\nGTK4는 직접 검증하지 않았으며 아래 버전 정보만 제공합니다.";
pub const GTK_BUG_SUSPECTED_TEXT: &'static str = "확인 불가 — 알려진 버그 버전이지만 직접 검증은 못함";

pub open spec fn spec_gtk_bug_description(state: GtkModuleBugState) -> Seq<char> {
    match state {
        GtkModuleBugState::Confirmed => GTK_BUG_CONFIRMED_TEXT@,
        GtkModuleBugState::SuspectedByVersion => GTK_BUG_SUSPECTED_TEXT@,
        GtkModuleBugState::Healthy => ""@,
    }
}

pub fn gtk_bug_description(state: GtkModuleBugState) -> (r: &'static str)
    ensures
        r@ == spec_gtk_bug_description(state),
{
    match state {
        GtkModuleBugState::Confirmed => GTK_BUG_CONFIRMED_TEXT,
        GtkModuleBugState::SuspectedByVersion => GTK_BUG_SUSPECTED_TEXT,
        GtkModuleBugState::Healthy => "",
    }
}

/// The report when the GTK3 module is not installed.
pub const GTK_NO_MODULE_TEXT: &'static str = "[i] GTK3 fcitx5 모듈 없음 — 진단 생략";
/// Where the module bug is tracked.
pub const GTK_BUG_URL: &'static str = "https://bugs.kali.org/view.php?id=9146";

/// The packages and their installed versions, as text.
pub open spec fn packages_view(ps: Seq<(String, Option<String>)>) -> Seq<(Seq<char>, Option<Seq<char>>)> {
    ps.map_values(|p: (String, Option<String>)| (p.0@, opt_view(p.1)))
}

/// `package: version`, or `package: 미설치` when it is not installed.
pub open spec fn spec_package_line(p: (Seq<char>, Option<Seq<char>>)) -> Seq<char> {
    p.0 + ": "@ + match p.1 {
        Some(v) => v,
        None => "미설치"@,
    }
}

/// The report's lines: the verdict, each package, the explanation and the
/// bug's address when the module is affected, and the fix where there is one.
pub open spec fn spec_gtk_report_lines(
    packages: Seq<(Seq<char>, Option<Seq<char>>)>,
    state: GtkModuleBugState,
    fix: Option<Seq<char>>,
) -> Seq<Seq<char>> {
    seq![spec_gtk_bug_title(state)] + packages.map_values(|p: (Seq<char>, Option<Seq<char>>)| spec_package_line(p))
        + (if state != GtkModuleBugState::Healthy { seq![spec_gtk_bug_description(state), GTK_BUG_URL@] } else { seq![] })
        + (match fix {
            Some(c) => seq![c],
            None => seq![],
        })
}

pub open spec fn spec_gtk_module_bug_report(status: Option<GtkModuleBugStatus>) -> Seq<char> {
    match status {
        None => GTK_NO_MODULE_TEXT@,
        Some(st) => join(spec_gtk_report_lines(packages_view(st.packages@), st.state, opt_view(st.fix_command)), "\n"@),
    }
}

/// The diagnosis as text, one fact per line.
pub fn gtk_module_bug_report(status: Option<&GtkModuleBugStatus>) -> (r: String)
    ensures
        r@ == spec_gtk_module_bug_report(match status { Some(st) => Some(*st), None => None }),
{
    let st = match status {
        None => return string_of(chars_of(GTK_NO_MODULE_TEXT)),
        Some(st) => st,
    };
    let ghost pv = packages_view(st.packages@);
    let mut parts: Vec<Vec<char>> = Vec::new();
    push_piece(&mut parts, chars_of(gtk_bug_title(st.state)));
    let mut i: usize = 0;
    assert(pv.take(0).map_values(|p: (Seq<char>, Option<Seq<char>>)| spec_package_line(p)) =~= Seq::<Seq<char>>::empty());
    assert(parts.deep_view() =~= seq![spec_gtk_bug_title(st.state)]);
    while i < st.packages.len()
        invariant
            i <= st.packages@.len(),
            pv == packages_view(st.packages@),
            parts.deep_view() == seq![spec_gtk_bug_title(st.state)]
                + pv.take(i as int).map_values(|p: (Seq<char>, Option<Seq<char>>)| spec_package_line(p)),
        decreases st.packages@.len() - i,
    {
        let (name, version) = &st.packages[i];
        let mut line = chars_of_string(name);
        extend_str(&mut line, ": ");
        match version {
            Some(v) => extend(&mut line, chars_of_string(v).as_slice()),
            None => extend_str(&mut line, "미설치"),
        }
        assert(line@ == spec_package_line(pv[i as int]));
        push_piece(&mut parts, line);
        assert(pv.take(i + 1).map_values(|p: (Seq<char>, Option<Seq<char>>)| spec_package_line(p))
            =~= pv.take(i as int).map_values(|p: (Seq<char>, Option<Seq<char>>)| spec_package_line(p)).push(spec_package_line(pv[i as int])));
        i += 1;
    }
    assert(pv.take(st.packages@.len() as int) =~= pv);
    let ghost after_packages = parts.deep_view();
    if st.state != GtkModuleBugState::Healthy {
        push_piece(&mut parts, chars_of(gtk_bug_description(st.state)));
        push_piece(&mut parts, chars_of(GTK_BUG_URL));
        assert(parts.deep_view() =~= after_packages + seq![spec_gtk_bug_description(st.state), GTK_BUG_URL@]);
    } else {
        assert(after_packages + seq![] =~= after_packages);
    }
    let ghost after_state = parts.deep_view();
    match &st.fix_command {
        Some(c) => {
            push_piece(&mut parts, chars_of_string(c));
            assert(parts.deep_view() =~= after_state + seq![c@]);
        },
        None => {
            assert(after_state + seq![] =~= after_state);
        },
    }
    assert(parts.deep_view() =~= spec_gtk_report_lines(pv, st.state, opt_view(st.fix_command)));
    string_of(join_str(&parts, "\n"))
}

/// The installed packages that a downgrade is looked up for: none while the
/// module is healthy; else each installed package at the known buggy
/// version, or every installed one when the failure was reproduced.
pub open spec fn spec_gtk_candidates(ps: Seq<(Seq<char>, Option<Seq<char>>)>, state: GtkModuleBugState) -> Seq<(Seq<char>, Seq<char>)>
    decreases ps.len(),
{
    if ps.len() == 0 || state == GtkModuleBugState::Healthy {
        seq![]
    } else {
        let rest = spec_gtk_candidates(ps.drop_last(), state);
        match ps.last().1 {
            Some(v) => if spec_is_buggy_gtk_version(Some(v)) || state == GtkModuleBugState::Confirmed {
                rest.push((ps.last().0, v))
            } else {
                rest
            },
            None => rest,
        }
    }
}

pub fn gtk_candidate_packages(packages: &Vec<(String, Option<String>)>, state: GtkModuleBugState) -> (r: Vec<(String, String)>)
    ensures
        r@.map_values(|p: (String, String)| (p.0@, p.1@)) == spec_gtk_candidates(packages_view(packages@), state),
{
    let ghost pv = packages_view(packages@);
    let mut out: Vec<(String, String)> = Vec::new();
    if state == GtkModuleBugState::Healthy {
        assert(out@.map_values(|p: (String, String)| (p.0@, p.1@)) =~= Seq::<(Seq<char>, Seq<char>)>::empty());
        return out;
    }
    let mut i: usize = 0;
    assert(pv.take(0) =~= Seq::<(Seq<char>, Option<Seq<char>>)>::empty());
    assert(out@.map_values(|p: (String, String)| (p.0@, p.1@)) =~= Seq::<(Seq<char>, Seq<char>)>::empty());
    while i < packages.len()
        invariant
            i <= packages@.len(),
            state != GtkModuleBugState::Healthy,
            pv == packages_view(packages@),
            out@.map_values(|p: (String, String)| (p.0@, p.1@)) == spec_gtk_candidates(pv.take(i as int), state),
        decreases packages@.len() - i,
    {
        let ghost t = pv.take(i + 1);
        assert(t.drop_last() =~= pv.take(i as int));
        assert(t.last() == pv[i as int]);
        let (name, version) = &packages[i];
        match version {
            Some(v) => {
                if is_buggy_gtk_version(Some(v.as_str())) || state == GtkModuleBugState::Confirmed {
                    let ghost before = out@;
                    out.push((string_of(chars_of_string(name)), string_of(chars_of_string(v))));
                    assert(out@.map_values(|p: (String, String)| (p.0@, p.1@))
                        =~= before.map_values(|p: (String, String)| (p.0@, p.1@)).push((name@, v@)));
                }
            },
            None => {},
        }
        i += 1;
    }
    assert(pv.take(packages@.len() as int) =~= pv);
    out
}

} // verus!
