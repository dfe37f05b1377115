//! CUPS printer diagnostics: parsing the scan TSV, reading IEEE 1284
//! device-id fields, and the rules that flag broken print queues.

use vstd::prelude::*;
use crate::runner::CmdResult;
use crate::text::{lines, lines_of, parse_u8, parse_u8_exec, parse_usize, parse_usize_exec, to_string, matches_at, chars_of, chars_of_string, contains, contains_str, decimal, eq, eq_str, extend, extend_str, find, find_exec, find_str, join, join_str, lemma_deep_view_chars, lemma_find, matches_at_exec, opt_view, push_decimal, push_piece, replace, replace_str, split_char, split_char_exec, starts_with, starts_with_str, str_to_uppercase, string_of, strings_chars, strings_view, subseq, trim, trim_exec, unicode_upper, upper};

verus! {

/// A print queue registered with CUPS.
#[derive(Debug, Clone, PartialEq)]
pub struct Queue {
    pub name: String,
    pub uri: String,
    /// printer-make-and-model (the PPD NickName)
    pub model: String,
    /// 3 idle, 4 printing, 5 stopped
    pub state: u8,
    pub is_default: bool,
    pub jobs: usize,
}

/// A device that lpinfo sees, registered or not.
#[derive(Debug, Clone, PartialEq)]
pub struct Device {
    pub uri: String,
    pub info: String,
    pub device_id: String,
}

#[derive(Debug, Clone, Copy, PartialEq, Eq, Structural)]
pub enum Level {
    Error,
    Warn,
    Info,
}

/// One diagnostic finding.
#[derive(Debug, Clone, PartialEq)]
pub struct Issue {
    pub level: Level,
    pub title: String,
    pub detail: String,
    /// The queue that the usual remedy (deleting it, cancelling its jobs) acts on.
    pub fix_queue: Option<String>,
}

#[derive(Debug, Clone, PartialEq)]
pub struct Scan {
    pub queues: Vec<Queue>,
    pub devices: Vec<Device>,
}

pub struct QueueView {
    pub name: Seq<char>,
    pub uri: Seq<char>,
    pub model: Seq<char>,
    pub state: u8,
    pub is_default: bool,
    pub jobs: usize,
}

pub struct DeviceView {
    pub uri: Seq<char>,
    pub info: Seq<char>,
    pub device_id: Seq<char>,
}

pub struct IssueView {
    pub level: Level,
    pub title: Seq<char>,
    pub detail: Seq<char>,
    pub fix_queue: Option<Seq<char>>,
}

impl View for Queue {
    type V = QueueView;

    open spec fn view(&self) -> QueueView {
        QueueView {
            name: self.name@,
            uri: self.uri@,
            model: self.model@,
            state: self.state,
            is_default: self.is_default,
            jobs: self.jobs,
        }
    }
}

impl View for Device {
    type V = DeviceView;

    open spec fn view(&self) -> DeviceView {
        DeviceView { uri: self.uri@, info: self.info@, device_id: self.device_id@ }
    }
}

impl View for Issue {
    type V = IssueView;

    open spec fn view(&self) -> IssueView {
        IssueView {
            level: self.level,
            title: self.title@,
            detail: self.detail@,
            fix_queue: opt_view(self.fix_queue),
        }
    }
}

pub open spec fn queues_view(v: Seq<Queue>) -> Seq<QueueView> {
    v.map_values(|q: Queue| q@)
}

pub open spec fn devices_view(v: Seq<Device>) -> Seq<DeviceView> {
    v.map_values(|d: Device| d@)
}

pub open spec fn issues_view(v: Seq<Issue>) -> Seq<IssueView> {
    v.map_values(|i: Issue| i@)
}

// ---------------------------------------------------------------- device-id

/// The value of the first `prefix`-tagged part among `parts`, trimmed.
pub open spec fn field_in(parts: Seq<Seq<char>>, prefix: Seq<char>) -> Option<Seq<char>>
    decreases parts.len(),
{
    if parts.len() == 0 {
        None
    } else {
        let t = trim(parts[0]);
        if starts_with(t, prefix) {
            Some(trim(t.skip(prefix.len() as int)))
        } else {
            field_in(parts.drop_first(), prefix)
        }
    }
}

/// The `KEY:value;` entry of an IEEE 1284 device-id.
pub open spec fn spec_field(device_id: Seq<char>, key: Seq<char>) -> Option<Seq<char>> {
    field_in(split_char(device_id, ';'), key.push(':'))
}

/// The value of the `key` entry (MFG, MDL, CMD, URF ...) of a device-id.
pub fn field(device_id: &str, key: &str) -> (r: Option<String>)
    ensures
        opt_view(r) == spec_field(device_id@, key@),
{
    let id = chars_of(device_id);
    let parts = split_char_exec(id.as_slice(), ';');
    let mut prefix = chars_of(key);
    prefix.push(':');
    let ghost pv = parts.deep_view();
    let mut i: usize = 0;
    assert(pv.skip(0) =~= pv);
    while i < parts.len()
        invariant
            i <= parts.len(),
            pv == parts.deep_view(),
            pv == split_char(device_id@, ';'),
            prefix@ == key@.push(':'),
            spec_field(device_id@, key@) == field_in(pv.skip(i as int), prefix@),
        decreases parts.len() - i,
    {
        proof { lemma_deep_view_chars(&parts[i as int]); }
        let t = trim_exec(parts[i].as_slice());
        assert(pv.skip(i as int)[0] == parts@[i as int]@);
        assert(pv.skip(i as int).drop_first() =~= pv.skip(i + 1));
        if matches_at_exec(t.as_slice(), prefix.as_slice(), 0) {
            assert(t@.subrange(0, prefix@.len() as int) =~= t@.take(prefix@.len() as int));
            let rest = subseq(t.as_slice(), prefix.len(), t.len());
            assert(rest@ =~= t@.skip(prefix@.len() as int));
            let v = trim_exec(rest.as_slice());
            return Some(string_of(v));
        }
        assert(t@.subrange(0, prefix@.len() as int) =~= t@.take(prefix@.len() as int));
        i += 1;
    }
    None
}

/// What a device-id's `CMD:` list names: the page description languages that
/// the printer itself can interpret, upper-cased.
pub open spec fn spec_cmd_langs(device_id: Seq<char>) -> Seq<Seq<char>> {
    match spec_field(device_id, "CMD"@) {
        Some(v) => split_char(v, ',').map_values(|s: Seq<char>| unicode_upper(trim(s))),
        None => seq![],
    }
}

/// The languages of a device-id's `CMD:` list.
pub fn cmd_langs(device_id: &str) -> (r: Vec<String>)
    ensures
        strings_view(r@) == spec_cmd_langs(device_id@),
{
    let mut out: Vec<String> = Vec::new();
    match field(device_id, "CMD") {
        None => {
            assert(strings_view(out@) =~= Seq::<Seq<char>>::empty());
        },
        Some(v) => {
            let vc = chars_of_string(&v);
            let pieces = split_char_exec(vc.as_slice(), ',');
            let ghost pv = pieces.deep_view();
            let ghost want = split_char(v@, ',').map_values(|s: Seq<char>| unicode_upper(trim(s)));
            let mut i: usize = 0;
            assert(strings_view(out@) =~= want.take(0));
            while i < pieces.len()
                invariant
                    i <= pieces.len(),
                    pv == pieces.deep_view(),
                    pv == split_char(v@, ','),
                    want == split_char(v@, ',').map_values(|s: Seq<char>| unicode_upper(trim(s))),
                    strings_view(out@) == want.take(i as int),
                decreases pieces.len() - i,
            {
                proof { lemma_deep_view_chars(&pieces[i as int]); }
                let t = trim_exec(pieces[i].as_slice());
                let u = upper(t.as_slice());
                assert(pv[i as int] == pieces@[i as int]@);
                assert(want[i as int] == unicode_upper(trim(pv[i as int])));
                let ghost before = out@;
                out.push(string_of(u));
                assert(strings_view(out@) =~= strings_view(before).push(u@));
                assert(want.take(i + 1) =~= want.take(i as int).push(want[i as int]));
                assert(strings_view(out@) =~= want.take(i + 1));
                i += 1;
            }
            assert(want.take(pieces.len() as int) =~= want);
        },
    }
    out
}

pub open spec fn is_postscript_lang(l: Seq<char>) -> bool {
    contains(l, "POSTSCRIPT"@) || contains(l, "BRSCRIPT"@) || contains(l, "BR-SCRIPT"@)
        || l == "PS"@ || contains(l, "KPDL"@)
}

pub open spec fn is_pcl_lang(l: Seq<char>) -> bool {
    contains(l, "PCL"@) || contains(l, "XL"@)
}

pub open spec fn spec_has_postscript(langs: Seq<Seq<char>>) -> bool {
    exists|i: int| 0 <= i < langs.len() && is_postscript_lang(#[trigger] langs[i])
}

pub open spec fn spec_has_pcl(langs: Seq<Seq<char>>) -> bool {
    exists|i: int| 0 <= i < langs.len() && is_pcl_lang(#[trigger] langs[i])
}

/// Whether one of the languages is a PostScript dialect.
pub fn has_postscript(langs: &[String]) -> (r: bool)
    ensures
        r == spec_has_postscript(strings_view(langs@)),
{
    let ghost lv = strings_view(langs@);
    let mut i: usize = 0;
    while i < langs.len()
        invariant
            i <= langs.len(),
            lv == strings_view(langs@),
            forall|j: int| 0 <= j < i ==> !is_postscript_lang(#[trigger] lv[j]),
        decreases langs.len() - i,
    {
        let l = chars_of_string(&langs[i]);
        let ps = contains_str(l.as_slice(), "POSTSCRIPT") || contains_str(l.as_slice(), "BRSCRIPT")
            || contains_str(l.as_slice(), "BR-SCRIPT") || eq_str(l.as_slice(), "PS")
            || contains_str(l.as_slice(), "KPDL");
        assert(lv[i as int] == l@);
        if ps {
            return true;
        }
        i += 1;
    }
    false
}

/// Whether one of the languages is PCL or PCL XL.
pub fn has_pcl(langs: &[String]) -> (r: bool)
    ensures
        r == spec_has_pcl(strings_view(langs@)),
{
    let ghost lv = strings_view(langs@);
    let mut i: usize = 0;
    while i < langs.len()
        invariant
            i <= langs.len(),
            lv == strings_view(langs@),
            forall|j: int| 0 <= j < i ==> !is_pcl_lang(#[trigger] lv[j]),
        decreases langs.len() - i,
    {
        let l = chars_of_string(&langs[i]);
        let pcl = contains_str(l.as_slice(), "PCL") || contains_str(l.as_slice(), "XL");
        assert(lv[i as int] == l@);
        if pcl {
            return true;
        }
        i += 1;
    }
    false
}

/// The language a driver emits, guessed from its PPD name.
#[derive(Debug, Clone, Copy, PartialEq, Eq, Structural)]
pub enum DriverKind {
    PostScript,
    Pcl,
    Vendor,
}

pub open spec fn spec_driver_kind(model: Seq<char>) -> DriverKind {
    let m = unicode_upper(model);
    if contains(m, "BR-SCRIPT"@) || contains(m, "POSTSCRIPT"@) || contains(m, "KPDL"@)
        || contains(m, "-PS"@) {
        DriverKind::PostScript
    } else if contains(m, "PCL"@) || contains(m, "PXL"@) || contains(m, "LJ"@)
        || contains(m, "LASERJET"@) {
        DriverKind::Pcl
    } else {
        DriverKind::Vendor
    }
}

/// Which language a driver with the given PPD name sends.
pub fn driver_kind(model: &str) -> (r: DriverKind)
    ensures
        r == spec_driver_kind(model@),
{
    let u = str_to_uppercase(model);
    let m = chars_of_string(&u);
    let ms = m.as_slice();
    if contains_str(ms, "BR-SCRIPT") || contains_str(ms, "POSTSCRIPT") || contains_str(ms, "KPDL")
        || contains_str(ms, "-PS") {
        DriverKind::PostScript
    } else if contains_str(ms, "PCL") || contains_str(ms, "PXL") || contains_str(ms, "LJ")
        || contains_str(ms, "LASERJET") {
        DriverKind::Pcl
    } else {
        DriverKind::Vendor
    }
}

// ---------------------------------------------------------------- diagnosis

/// A device URI shortened to its scheme and at most 28 characters after it.
pub open spec fn spec_short_uri(uri: Seq<char>) -> Seq<char> {
    match find(uri, "://"@) {
        Some(i) => {
            let rest = uri.skip(i + 3);
            let head = if rest.len() > 28 { rest.take(28) } else { rest };
            uri.take(i) + "://"@ + head + (if rest.len() > 28 { "..."@ } else { ""@ })
        },
        None => uri,
    }
}

pub fn short_uri(uri: &str) -> (r: String)
    ensures
        r@ == spec_short_uri(uri@),
{
    let u = chars_of(uri);
    match find_str(u.as_slice(), "://") {
        Some(i) => {
            proof {
                reveal_strlit("://");
                lemma_find(u@, "://"@);
                assert(matches_at(u@, "://"@, i as int));
                assert("://"@.len() == 3);
            }
            assert(i + 3 <= u@.len());
            assert(i + 3 <= u.len());
            let rest = subseq(u.as_slice(), i + 3, u.len());
            assert(rest@ =~= u@.skip(i + 3));
            let mut out = subseq(u.as_slice(), 0, i);
            assert(out@ =~= u@.take(i as int));
            extend_str(&mut out, "://");
            if rest.len() > 28 {
                let head = subseq(rest.as_slice(), 0, 28);
                assert(head@ =~= rest@.take(28));
                extend(&mut out, head.as_slice());
                extend_str(&mut out, "...");
            } else {
                extend(&mut out, rest.as_slice());
                extend_str(&mut out, "");
            }
            string_of(out)
        },
        None => string_of(u),
    }
}

/// The names of the queues in `qs` that point at `uri`, in order.
pub open spec fn dup_names(qs: Seq<QueueView>, uri: Seq<char>) -> Seq<Seq<char>>
    decreases qs.len(),
{
    if qs.len() == 0 {
        seq![]
    } else {
        let r = dup_names(qs.drop_last(), uri);
        if qs.last().uri == uri {
            r.push(qs.last().name)
        } else {
            r
        }
    }
}

/// The duplicate-queue finding that `q` raises: one per device URI, carried
/// by the first of the queues that share it.
pub open spec fn dup_issue(qs: Seq<QueueView>, q: QueueView) -> Seq<IssueView> {
    let names = dup_names(qs, q.uri);
    if names.len() > 1 && names[0] == q.name {
        seq![IssueView {
            level: Level::Warn,
            title: "같은 프린터에 큐가 "@ + decimal(names.len()) + "개 등록됨"@,
            detail: join(names, ", "@) + " — 모두 같은 장치("@ + spec_short_uri(q.uri)
                + ")를 가리킵니다. 하나만 남기고 지우세요."@,
            fix_queue: None,
        }]
    } else {
        seq![]
    }
}

/// The device whose URI is `uri`, first in list order.
pub open spec fn find_device(ds: Seq<DeviceView>, uri: Seq<char>) -> Option<DeviceView>
    decreases ds.len(),
{
    if ds.len() == 0 {
        None
    } else if ds[0].uri == uri {
        Some(ds[0])
    } else {
        find_device(ds.drop_first(), uri)
    }
}

/// A driver that sends a language the printer does not list.
pub open spec fn lang_issue(q: QueueView, langs: Seq<Seq<char>>) -> Seq<IssueView> {
    let kind = spec_driver_kind(q.model);
    if kind == DriverKind::PostScript && !spec_has_postscript(langs) {
        seq![IssueView {
            level: Level::Error,
            title: q.name + ": PostScript 드라이버인데 프린터가 PostScript를 모릅니다"@,
            detail: "드라이버 '"@ + q.model + "' 는 PostScript를 보냅니다. 이 프린터가 알리는 언어는 CMD:"@
                + join(langs, ","@)
                + " 뿐이라 백지나 깨진 페이지가 나옵니다. 이 큐를 지우고 기종 전용 드라이버로 다시 등록하세요."@,
            fix_queue: Some(q.name),
        }]
    } else if kind == DriverKind::Pcl && !spec_has_pcl(langs) {
        seq![IssueView {
            level: Level::Error,
            title: q.name + ": PCL 드라이버인데 프린터가 PCL을 모릅니다"@,
            detail: "드라이버 '"@ + q.model + "' 는 PCL을 보냅니다. 이 프린터가 알리는 언어는 CMD:"@
                + join(langs, ","@) + " 뿐입니다."@,
            fix_queue: Some(q.name),
        }]
    } else {
        seq![]
    }
}

/// A PPD made for another model (generic PPDs are a legitimate choice).
pub open spec fn model_issue(q: QueueView, dev: DeviceView) -> Seq<IssueView> {
    match spec_field(dev.device_id, "MDL"@) {
        Some(mdl) => {
            let base = replace(mdl, " series"@, ""@);
            let m = unicode_upper(q.model);
            if !contains(m, "GENERIC"@) && !contains(m, unicode_upper(base)) && base.len() > 0 {
                seq![IssueView {
                    level: Level::Warn,
                    title: q.name + ": 다른 기종 드라이버일 수 있습니다"@,
                    detail: "프린터는 '"@ + mdl + "' 인데 드라이버는 '"@ + q.model + "' 입니다."@,
                    fix_queue: Some(q.name),
                }]
            } else {
                seq![]
            }
        },
        None => seq![],
    }
}

/// The driver findings for one queue: none when its device is not seen or
/// lists no languages.
pub open spec fn driver_issues(q: QueueView, ds: Seq<DeviceView>) -> Seq<IssueView> {
    match find_device(ds, q.uri) {
        None => seq![],
        Some(dev) => {
            let langs = spec_cmd_langs(dev.device_id);
            if langs.len() == 0 {
                seq![]
            } else {
                lang_issue(q, langs) + model_issue(q, dev)
            }
        },
    }
}

/// A stopped queue, or one with jobs waiting.
pub open spec fn state_issue(q: QueueView) -> Seq<IssueView> {
    if q.state == 5 {
        seq![IssueView {
            level: Level::Error,
            title: q.name + ": 큐가 정지됨"@,
            detail: "작업이 실패해 큐가 멈췄습니다. [작업 취소]를 누르면 대기 작업을 비우고 다시 켭니다."@,
            fix_queue: Some(q.name),
        }]
    } else if q.jobs > 0 {
        seq![IssueView {
            level: Level::Info,
            title: q.name + ": 대기 작업 "@ + decimal(q.jobs as nat) + "건"@,
            detail: "인쇄가 안 되고 쌓이기만 한다면 [작업 취소]로 비우고 다시 시도하세요."@,
            fix_queue: Some(q.name),
        }]
    } else {
        seq![]
    }
}

/// An AirPrint-capable printer attached over USB only.
pub open spec fn airprint_issue(d: DeviceView) -> Seq<IssueView> {
    if starts_with(d.uri, "usb://"@) && spec_field(d.device_id, "URF"@) is Some {
        seq![IssueView {
            level: Level::Info,
            title: d.info + ": 랜선을 꽂으면 드라이버 없이 쓸 수 있습니다"@,
            detail: "이 프린터는 AirPrint(URF)를 지원합니다. 유선 네트워크에 연결하면 드라이버 설치 없이 컬러·양면까지 자동으로 잡힙니다. USB 로는 IPP-over-USB 인터페이스가 없어 드라이버가 필요합니다."@,
            fix_queue: None,
        }]
    } else {
        seq![]
    }
}

pub open spec fn dup_issues(qs: Seq<QueueView>, prefix: Seq<QueueView>) -> Seq<IssueView>
    decreases prefix.len(),
{
    if prefix.len() == 0 {
        seq![]
    } else {
        dup_issues(qs, prefix.drop_last()) + dup_issue(qs, prefix.last())
    }
}

pub open spec fn all_driver_issues(qs: Seq<QueueView>, ds: Seq<DeviceView>) -> Seq<IssueView>
    decreases qs.len(),
{
    if qs.len() == 0 {
        seq![]
    } else {
        all_driver_issues(qs.drop_last(), ds) + driver_issues(qs.last(), ds)
    }
}

pub open spec fn all_state_issues(qs: Seq<QueueView>) -> Seq<IssueView>
    decreases qs.len(),
{
    if qs.len() == 0 {
        seq![]
    } else {
        all_state_issues(qs.drop_last()) + state_issue(qs.last())
    }
}

pub open spec fn all_airprint_issues(ds: Seq<DeviceView>) -> Seq<IssueView>
    decreases ds.len(),
{
    if ds.len() == 0 {
        seq![]
    } else {
        all_airprint_issues(ds.drop_last()) + airprint_issue(ds.last())
    }
}

/// Every finding for a scan, in the order the rules run: duplicate queues,
/// driver language and model mismatches, stopped or busy queues, AirPrint hints.
pub open spec fn spec_diagnose(qs: Seq<QueueView>, ds: Seq<DeviceView>) -> Seq<IssueView> {
    dup_issues(qs, qs) + all_driver_issues(qs, ds) + all_state_issues(qs) + all_airprint_issues(ds)
}


fn push_issue(out: &mut Vec<Issue>, i: Issue)
    ensures
        issues_view(final(out)@) == issues_view(old(out)@).push(i@),
{
    let ghost iv = i@;
    out.push(i);
    assert(issues_view(out@) =~= issues_view(old(out)@).push(iv));
}

fn dup_issue_exec(qs: &Vec<Queue>, q: &Queue, out: &mut Vec<Issue>)
    ensures
        issues_view(final(out)@) == issues_view(old(out)@) + dup_issue(queues_view(qs@), q@),
{
    let ghost qv = queues_view(qs@);
    let mut names: Vec<Vec<char>> = Vec::new();
    let mut j: usize = 0;
    assert(qv.take(0) =~= Seq::<QueueView>::empty());
    assert(names.deep_view() =~= Seq::<Seq<char>>::empty());
    while j < qs.len()
        invariant
            j <= qs.len(),
            qv == queues_view(qs@),
            names.deep_view() == dup_names(qv.take(j as int), q.uri@),
        decreases qs.len() - j,
    {
        assert(qv.take(j + 1).drop_last() =~= qv.take(j as int));
        assert(qv.take(j + 1).last() == qs@[j as int]@);
        if qs[j].uri == q.uri {
            let nm = chars_of_string(&qs[j].name);
            push_piece(&mut names, nm);
        }
        j += 1;
    }
    assert(qv.take(qs.len() as int) =~= qv);
    let qn = chars_of_string(&q.name);
    if names.len() > 1 {
        proof { lemma_deep_view_chars(&names[0]); }
        if eq(names[0].as_slice(), qn.as_slice()) {
            let mut title: Vec<char> = Vec::new();
            extend_str(&mut title, "같은 프린터에 큐가 ");
            push_decimal(&mut title, names.len() as u64);
            extend_str(&mut title, "개 등록됨");
            let mut detail = join_str(&names, ", ");
            extend_str(&mut detail, " — 모두 같은 장치(");
            let su = short_uri(q.uri.as_str());
            let suc = chars_of_string(&su);
            extend(&mut detail, suc.as_slice());
            extend_str(&mut detail, ")를 가리킵니다. 하나만 남기고 지우세요.");
            let issue = Issue {
                level: Level::Warn,
                title: string_of(title),
                detail: string_of(detail),
                fix_queue: None,
            };
            push_issue(out, issue);
            assert(issues_view(out@) =~= issues_view(old(out)@) + dup_issue(qv, q@));
            return;
        }
    }
    assert(issues_view(out@) =~= issues_view(old(out)@) + dup_issue(qv, q@));
}

fn find_device_exec(ds: &Vec<Device>, uri: &String) -> (r: Option<usize>)
    ensures
        r matches Some(k) ==> k < ds.len() && find_device(devices_view(ds@), uri@) == Some(ds@[k as int]@),
        r is None ==> find_device(devices_view(ds@), uri@) is None,
{
    let ghost dv = devices_view(ds@);
    let mut j: usize = 0;
    assert(dv.skip(0) =~= dv);
    while j < ds.len()
        invariant
            j <= ds.len(),
            dv == devices_view(ds@),
            find_device(dv, uri@) == find_device(dv.skip(j as int), uri@),
        decreases ds.len() - j,
    {
        assert(dv.skip(j as int).drop_first() =~= dv.skip(j + 1));
        assert(dv.skip(j as int)[0] == ds@[j as int]@);
        if ds[j].uri == *uri {
            return Some(j);
        }
        j += 1;
    }
    None
}

fn lang_issue_exec(q: &Queue, langs: &Vec<String>, out: &mut Vec<Issue>)
    ensures
        issues_view(final(out)@) == issues_view(old(out)@) + lang_issue(q@, strings_view(langs@)),
{
    let kind = driver_kind(q.model.as_str());
    let lc = strings_chars(langs);
    let qn = chars_of_string(&q.name);
    let qm = chars_of_string(&q.model);
    if kind == DriverKind::PostScript && !has_postscript(langs.as_slice()) {
        let mut title = qn.clone();
        extend_str(&mut title, ": PostScript 드라이버인데 프린터가 PostScript를 모릅니다");
        let mut detail: Vec<char> = Vec::new();
        extend_str(&mut detail, "드라이버 '");
        extend(&mut detail, qm.as_slice());
        extend_str(&mut detail, "' 는 PostScript를 보냅니다. 이 프린터가 알리는 언어는 CMD:");
        let j = join_str(&lc, ",");
        extend(&mut detail, j.as_slice());
        extend_str(&mut detail, " 뿐이라 백지나 깨진 페이지가 나옵니다. 이 큐를 지우고 기종 전용 드라이버로 다시 등록하세요.");
        push_issue(out, Issue {
            level: Level::Error,
            title: string_of(title),
            detail: string_of(detail),
            fix_queue: Some(q.name.clone()),
        });
    } else if kind == DriverKind::Pcl && !has_pcl(langs.as_slice()) {
        let mut title = qn.clone();
        extend_str(&mut title, ": PCL 드라이버인데 프린터가 PCL을 모릅니다");
        let mut detail: Vec<char> = Vec::new();
        extend_str(&mut detail, "드라이버 '");
        extend(&mut detail, qm.as_slice());
        extend_str(&mut detail, "' 는 PCL을 보냅니다. 이 프린터가 알리는 언어는 CMD:");
        let j = join_str(&lc, ",");
        extend(&mut detail, j.as_slice());
        extend_str(&mut detail, " 뿐입니다.");
        push_issue(out, Issue {
            level: Level::Error,
            title: string_of(title),
            detail: string_of(detail),
            fix_queue: Some(q.name.clone()),
        });
    }
    assert(issues_view(final(out)@) =~= issues_view(old(out)@) + lang_issue(q@, strings_view(langs@)));
}

fn model_issue_exec(q: &Queue, dev: &Device, out: &mut Vec<Issue>)
    ensures
        issues_view(final(out)@) == issues_view(old(out)@) + model_issue(q@, dev@),
{
    match field(dev.device_id.as_str(), "MDL") {
        Some(mdl) => {
            let mc = chars_of_string(&mdl);
            proof { reveal_strlit(" series"); }
            let base = replace_str(mc.as_slice(), " series", "");
            let m = upper(chars_of_string(&q.model).as_slice());
            let ub = upper(base.as_slice());
            let generic = contains_str(m.as_slice(), "GENERIC");
            let same = find_exec(m.as_slice(), ub.as_slice()).is_some();
            if !generic && !same && base.len() > 0 {
                let mut title = chars_of_string(&q.name);
                extend_str(&mut title, ": 다른 기종 드라이버일 수 있습니다");
                let mut detail: Vec<char> = Vec::new();
                extend_str(&mut detail, "프린터는 '");
                extend(&mut detail, mc.as_slice());
                extend_str(&mut detail, "' 인데 드라이버는 '");
                extend(&mut detail, chars_of_string(&q.model).as_slice());
                extend_str(&mut detail, "' 입니다.");
                push_issue(out, Issue {
                    level: Level::Warn,
                    title: string_of(title),
                    detail: string_of(detail),
                    fix_queue: Some(q.name.clone()),
                });
            }
        },
        None => {},
    }
    assert(issues_view(final(out)@) =~= issues_view(old(out)@) + model_issue(q@, dev@));
}

fn driver_issues_exec(q: &Queue, ds: &Vec<Device>, out: &mut Vec<Issue>)
    ensures
        issues_view(final(out)@) == issues_view(old(out)@) + driver_issues(q@, devices_view(ds@)),
{
    match find_device_exec(ds, &q.uri) {
        None => {
            assert(issues_view(out@) =~= issues_view(old(out)@) + driver_issues(q@, devices_view(ds@)));
        },
        Some(k) => {
            let dev = &ds[k];
            let langs = cmd_langs(dev.device_id.as_str());
            if langs.len() == 0 {
                assert(issues_view(out@) =~= issues_view(old(out)@) + driver_issues(q@, devices_view(ds@)));
                return;
            }
            lang_issue_exec(q, &langs, out);
            model_issue_exec(q, dev, out);
            assert(issues_view(out@) =~= issues_view(old(out)@) + driver_issues(q@, devices_view(ds@)));
        },
    }
}

fn state_issue_exec(q: &Queue, out: &mut Vec<Issue>)
    ensures
        issues_view(final(out)@) == issues_view(old(out)@) + state_issue(q@),
{
    if q.state == 5 {
        let mut title = chars_of_string(&q.name);
        extend_str(&mut title, ": 큐가 정지됨");
        let detail = chars_of("작업이 실패해 큐가 멈췄습니다. [작업 취소]를 누르면 대기 작업을 비우고 다시 켭니다.");
        push_issue(out, Issue {
            level: Level::Error,
            title: string_of(title),
            detail: string_of(detail),
            fix_queue: Some(q.name.clone()),
        });
    } else if q.jobs > 0 {
        let mut title = chars_of_string(&q.name);
        extend_str(&mut title, ": 대기 작업 ");
        push_decimal(&mut title, q.jobs as u64);
        extend_str(&mut title, "건");
        let detail = chars_of("인쇄가 안 되고 쌓이기만 한다면 [작업 취소]로 비우고 다시 시도하세요.");
        push_issue(out, Issue {
            level: Level::Info,
            title: string_of(title),
            detail: string_of(detail),
            fix_queue: Some(q.name.clone()),
        });
    }
    assert(issues_view(final(out)@) =~= issues_view(old(out)@) + state_issue(q@));
}

fn airprint_issue_exec(d: &Device, out: &mut Vec<Issue>)
    ensures
        issues_view(final(out)@) == issues_view(old(out)@) + airprint_issue(d@),
{
    let uc = chars_of_string(&d.uri);
    if starts_with_str(uc.as_slice(), "usb://") && field(d.device_id.as_str(), "URF").is_some() {
        let mut title = chars_of_string(&d.info);
        extend_str(&mut title, ": 랜선을 꽂으면 드라이버 없이 쓸 수 있습니다");
        let detail = chars_of("이 프린터는 AirPrint(URF)를 지원합니다. 유선 네트워크에 연결하면 \
                         드라이버 설치 없이 컬러·양면까지 자동으로 잡힙니다. \
                         USB 로는 IPP-over-USB 인터페이스가 없어 드라이버가 필요합니다.");
        push_issue(out, Issue {
            level: Level::Info,
            title: string_of(title),
            detail: string_of(detail),
            fix_queue: None,
        });
    }
    assert(issues_view(final(out)@) =~= issues_view(old(out)@) + airprint_issue(d@));
}

/// The findings for a scan:
/// - several queues on the same device (GUI auto-add, manual add, vendor installer),
/// - a driver in a language the printer cannot interpret (BR-Script3 on a model without PostScript),
/// - a PPD made for another model,
/// - stopped queues and waiting jobs,
/// - AirPrint printers attached over USB.
pub fn diagnose(scan: &Scan) -> (r: Vec<Issue>)
    ensures
        issues_view(r@) == spec_diagnose(queues_view(scan.queues@), devices_view(scan.devices@)),
{
    let qs = &scan.queues;
    let ds = &scan.devices;
    let ghost qv = queues_view(qs@);
    let ghost dv = devices_view(ds@);
    let mut out: Vec<Issue> = Vec::new();
    assert(qv.take(0) =~= Seq::<QueueView>::empty());
    assert(issues_view(out@) =~= Seq::<IssueView>::empty());

    let mut i: usize = 0;
    while i < qs.len()
        invariant
            i <= qs.len(),
            qv == queues_view(qs@),
            issues_view(out@) == dup_issues(qv, qv.take(i as int)),
        decreases qs.len() - i,
    {
        dup_issue_exec(qs, &qs[i], &mut out);
        assert(qv.take(i + 1).drop_last() =~= qv.take(i as int));
        i += 1;
    }
    assert(qv.take(qs.len() as int) =~= qv);
    let ghost p1 = issues_view(out@);

    let mut i: usize = 0;
    while i < qs.len()
        invariant
            i <= qs.len(),
            qv == queues_view(qs@),
            dv == devices_view(ds@),
            issues_view(out@) == p1 + all_driver_issues(qv.take(i as int), dv),
        decreases qs.len() - i,
    {
        let ghost before = issues_view(out@);
        driver_issues_exec(&qs[i], ds, &mut out);
        assert(qv.take(i + 1).drop_last() =~= qv.take(i as int));
        assert(issues_view(out@) =~= p1 + all_driver_issues(qv.take(i + 1), dv));
        i += 1;
    }
    let ghost p2 = issues_view(out@);

    let mut i: usize = 0;
    while i < qs.len()
        invariant
            i <= qs.len(),
            qv == queues_view(qs@),
            issues_view(out@) == p2 + all_state_issues(qv.take(i as int)),
        decreases qs.len() - i,
    {
        state_issue_exec(&qs[i], &mut out);
        assert(qv.take(i + 1).drop_last() =~= qv.take(i as int));
        assert(issues_view(out@) =~= p2 + all_state_issues(qv.take(i + 1)));
        i += 1;
    }
    let ghost p3 = issues_view(out@);

    let mut i: usize = 0;
    assert(dv.take(0) =~= Seq::<DeviceView>::empty());
    while i < ds.len()
        invariant
            i <= ds.len(),
            dv == devices_view(ds@),
            issues_view(out@) == p3 + all_airprint_issues(dv.take(i as int)),
        decreases ds.len() - i,
    {
        airprint_issue_exec(&ds[i], &mut out);
        assert(dv.take(i + 1).drop_last() =~= dv.take(i as int));
        assert(issues_view(out@) =~= p3 + all_airprint_issues(dv.take(i + 1)));
        i += 1;
    }
    assert(dv.take(ds.len() as int) =~= dv);
    assert(issues_view(out@) =~= spec_diagnose(qv, dv));
    out
}

pub open spec fn spec_test_print_script(q: Seq<char>) -> Seq<char> {
    "set -e; \
         f=/usr/share/cups/data/testprint; \
         if [ ! -f \"$f\" ]; then \
           f=$(mktemp); \
           printf '\\n\\n    popmgr 테스트 페이지\\n\\n    큐: "@ + q + "\\n    시각: %s\\n\\n' \"$(date '+%Y-%m-%d %H:%M:%S')\" > \"$f\"; \
         fi; \
         id=$(lp -d '"@ + q + "' \"$f\" 2>&1); \
         echo \"$id\"; \
         echo '종이가 나오지 않으면 진단의 드라이버 경고를 확인하세요.'"@
}

/// Prints the CUPS test page on queue `q`, or a text page where CUPS has none.
pub fn test_print_script(q: &str) -> (r: String)
    ensures
        r@ == spec_test_print_script(q@),
{
    let q = chars_of(q);
    let mut o: Vec<char> = Vec::new();
    extend_str(&mut o, "set -e; \
         f=/usr/share/cups/data/testprint; \
         if [ ! -f \"$f\" ]; then \
           f=$(mktemp); \
           printf '\\n\\n    popmgr 테스트 페이지\\n\\n    큐: ");
    extend(&mut o, q.as_slice());
    extend_str(&mut o, "\\n    시각: %s\\n\\n' \"$(date '+%Y-%m-%d %H:%M:%S')\" > \"$f\"; \
         fi; \
         id=$(lp -d '");
    extend(&mut o, q.as_slice());
    extend_str(&mut o, "' \"$f\" 2>&1); \
         echo \"$id\"; \
         echo '종이가 나오지 않으면 진단의 드라이버 경고를 확인하세요.'");
    string_of(o)
}

pub open spec fn spec_register_script(uri: Seq<char>, device_id: Seq<char>) -> Seq<char> {
    "set -o pipefail; \
         export LC_ALL=C; \
         uri='"@ + uri + "'; did='"@ + device_id + "'; \
         mdl=$(printf '%s' \"$did\" | sed -n 's/.*MDL:\\([^;]*\\).*/\\1/p'); \
         [ -z \"$mdl\" ] && mdl='printer'; \
         name=$(printf '%s' \"$mdl\" | tr ' ' '_' | tr -cd 'A-Za-z0-9_.-'); \
         base=$(printf '%s' \"$mdl\" | sed 's/ series$//'); \
         models=$(lpinfo -m 2>/dev/null); \
         m=$(printf '%s\\n' \"$models\" | grep -iF \"$base\" | head -1 | awk '{print $1}'); \
         why='기종 전용 드라이버'; \
         if [ -z \"$m\" ]; then \
           case \"$did\" in \
             *POSTSCRIPT*|*BRSCRIPT*|*BR-Script*|*KPDL*) \
               m=$(printf '%s\\n' \"$models\" | grep -i 'Generic PostScript' | head -1 | awk '{print $1}'); \
               why='제네릭 PostScript';; \
             *PCLXL*|*PCL6*|*XL2HB*|*XL*) \
               m=$(printf '%s\\n' \"$models\" | grep -i 'Generic PCL 6/PCL XL Printer Foomatic/pxlcolor' | head -1 | awk '{print $1}'); \
               why='제네릭 PCL-XL(컬러)';; \
             *PCL*) \
               m=$(printf '%s\\n' \"$models\" | grep -i 'Generic PCL 5c Printer' | head -1 | awk '{print $1}'); \
               why='제네릭 PCL 5c';; \
           esac; \
         fi; \
         if [ -z \"$m\" ]; then \
           echo \"이 기종($mdl)에 맞는 드라이버가 시스템에 없습니다.\"; \
           echo '제조사 리눅스 드라이버를 설치한 뒤 다시 시도하세요.'; \
           exit 1; \
         fi; \
         lpadmin -p \"$name\" -E -v \"$uri\" -m \"$m\" -D \"$mdl\" 2>&1 || exit 1; \
         lpoptions -d \"$name\" >/dev/null 2>&1; \
         echo \"등록 완료: $name\"; \
         echo \"드라이버: $why ($m)\"; \
         echo '테스트 인쇄로 실제 출력을 확인하세요.'"@
}

/// Registers the device at `uri`, choosing the driver from its device-id:
/// a PPD named after the model first, else a generic PPD for a language the
/// printer lists; with neither it registers nothing and says why.
pub fn register_script(uri: &str, device_id: &str) -> (r: String)
    ensures
        r@ == spec_register_script(uri@, device_id@),
{
    let uri = chars_of(uri);
    let device_id = chars_of(device_id);
    let mut o: Vec<char> = Vec::new();
    extend_str(&mut o, "set -o pipefail; \
         export LC_ALL=C; \
         uri='");
    extend(&mut o, uri.as_slice());
    extend_str(&mut o, "'; did='");
    extend(&mut o, device_id.as_slice());
    extend_str(&mut o, "'; \
         mdl=$(printf '%s' \"$did\" | sed -n 's/.*MDL:\\([^;]*\\).*/\\1/p'); \
         [ -z \"$mdl\" ] && mdl='printer'; \
         name=$(printf '%s' \"$mdl\" | tr ' ' '_' | tr -cd 'A-Za-z0-9_.-'); \
         base=$(printf '%s' \"$mdl\" | sed 's/ series$//'); \
         models=$(lpinfo -m 2>/dev/null); \
         m=$(printf '%s\\n' \"$models\" | grep -iF \"$base\" | head -1 | awk '{print $1}'); \
         why='기종 전용 드라이버'; \
         if [ -z \"$m\" ]; then \
           case \"$did\" in \
             *POSTSCRIPT*|*BRSCRIPT*|*BR-Script*|*KPDL*) \
               m=$(printf '%s\\n' \"$models\" | grep -i 'Generic PostScript' | head -1 | awk '{print $1}'); \
               why='제네릭 PostScript';; \
             *PCLXL*|*PCL6*|*XL2HB*|*XL*) \
               m=$(printf '%s\\n' \"$models\" | grep -i 'Generic PCL 6/PCL XL Printer Foomatic/pxlcolor' | head -1 | awk '{print $1}'); \
               why='제네릭 PCL-XL(컬러)';; \
             *PCL*) \
               m=$(printf '%s\\n' \"$models\" | grep -i 'Generic PCL 5c Printer' | head -1 | awk '{print $1}'); \
               why='제네릭 PCL 5c';; \
           esac; \
         fi; \
         if [ -z \"$m\" ]; then \
           echo \"이 기종($mdl)에 맞는 드라이버가 시스템에 없습니다.\"; \
           echo '제조사 리눅스 드라이버를 설치한 뒤 다시 시도하세요.'; \
           exit 1; \
         fi; \
         lpadmin -p \"$name\" -E -v \"$uri\" -m \"$m\" -D \"$mdl\" 2>&1 || exit 1; \
         lpoptions -d \"$name\" >/dev/null 2>&1; \
         echo \"등록 완료: $name\"; \
         echo \"드라이버: $why ($m)\"; \
         echo '테스트 인쇄로 실제 출력을 확인하세요.'");
    string_of(o)
}


// ---------------------------------------------------------------- laws of the diagnosis

/// A finding that queue `n` is stopped: an error, titled `n: 큐가 정지됨`,
/// whose fix acts on queue `n`.
pub open spec fn is_stopped_finding(x: IssueView, n: Seq<char>) -> bool {
    x.level == Level::Error && x.title == n + ": 큐가 정지됨"@ && x.fix_queue == Some(n)
}

/// The findings in `r` that say queue `n` is stopped.
pub open spec fn stopped_findings(r: Seq<IssueView>, n: Seq<char>) -> nat
    decreases r.len(),
{
    if r.len() == 0 {
        0
    } else {
        stopped_findings(r.drop_last(), n) + if is_stopped_finding(r.last(), n) { 1nat } else { 0nat }
    }
}

/// The queues named `n` whose CUPS state is 5 (stopped).
pub open spec fn stopped_queues(qs: Seq<QueueView>, n: Seq<char>) -> nat
    decreases qs.len(),
{
    if qs.len() == 0 {
        0
    } else {
        stopped_queues(qs.drop_last(), n) + if qs.last().name == n && qs.last().state == 5 { 1nat } else { 0nat }
    }
}

proof fn lemma_findings_add(a: Seq<IssueView>, b: Seq<IssueView>, n: Seq<char>)
    ensures
        stopped_findings(a + b, n) == stopped_findings(a, n) + stopped_findings(b, n),
    decreases b.len(),
{
    if b.len() > 0 {
        assert((a + b).drop_last() =~= a + b.drop_last());
        lemma_findings_add(a, b.drop_last(), n);
    } else {
        assert(a + b =~= a);
    }
}

proof fn lemma_no_findings(r: Seq<IssueView>, n: Seq<char>)
    requires
        forall|i: int| 0 <= i < r.len() ==> !is_stopped_finding(#[trigger] r[i], n),
    ensures
        stopped_findings(r, n) == 0,
    decreases r.len(),
{
    if r.len() > 0 {
        lemma_no_findings(r.drop_last(), n);
    }
}

proof fn lemma_suffix_cancel(a: Seq<char>, x: Seq<char>, y: Seq<char>)
    requires
        a + x == a + y,
    ensures
        x == y,
{
    assert((a + x).skip(a.len() as int) =~= x);
    assert((a + y).skip(a.len() as int) =~= y);
}

proof fn lemma_dup_findings(qs: Seq<QueueView>, prefix: Seq<QueueView>, n: Seq<char>)
    ensures
        stopped_findings(dup_issues(qs, prefix), n) == 0,
    decreases prefix.len(),
{
    if prefix.len() > 0 {
        lemma_dup_findings(qs, prefix.drop_last(), n);
        let d = dup_issue(qs, prefix.last());
        lemma_no_findings(d, n);
        lemma_findings_add(dup_issues(qs, prefix.drop_last()), d, n);
    }
}

proof fn lemma_driver_findings(qs: Seq<QueueView>, ds: Seq<DeviceView>, n: Seq<char>)
    ensures
        stopped_findings(all_driver_issues(qs, ds), n) == 0,
    decreases qs.len(),
{
    if qs.len() > 0 {
        lemma_driver_findings(qs.drop_last(), ds, n);
        let q = qs.last();
        let d = driver_issues(q, ds);
        reveal_strlit(": 큐가 정지됨");
        reveal_strlit(": PostScript 드라이버인데 프린터가 PostScript를 모릅니다");
        reveal_strlit(": PCL 드라이버인데 프린터가 PCL을 모릅니다");
        assert forall|i: int| 0 <= i < d.len() implies !is_stopped_finding(#[trigger] d[i], n) by {
            if is_stopped_finding(d[i], n) {
                let dev = find_device(ds, q.uri)->Some_0;
                let langs = spec_cmd_langs(dev.device_id);
                let li = lang_issue(q, langs);
                assert(d == li + model_issue(q, dev));
                if i < li.len() {
                    assert(d[i] == li[i]);
                    assert(n == q.name);
                    if d[i].title == q.name + ": PostScript 드라이버인데 프린터가 PostScript를 모릅니다"@ {
                        lemma_suffix_cancel(q.name, ": PostScript 드라이버인데 프린터가 PostScript를 모릅니다"@, ": 큐가 정지됨"@);
                    } else {
                        lemma_suffix_cancel(q.name, ": PCL 드라이버인데 프린터가 PCL을 모릅니다"@, ": 큐가 정지됨"@);
                    }
                } else {
                    assert(d[i] == model_issue(q, dev)[i - li.len()]);
                }
            }
        }
        lemma_no_findings(d, n);
        lemma_findings_add(all_driver_issues(qs.drop_last(), ds), d, n);
    }
}

proof fn lemma_state_findings(qs: Seq<QueueView>, n: Seq<char>)
    ensures
        stopped_findings(all_state_issues(qs), n) == stopped_queues(qs, n),
    decreases qs.len(),
{
    if qs.len() > 0 {
        lemma_state_findings(qs.drop_last(), n);
        let q = qs.last();
        let st = state_issue(q);
        lemma_findings_add(all_state_issues(qs.drop_last()), st, n);
        reveal_with_fuel(stopped_findings, 2);
        if q.state == 5 {
            assert(st.drop_last() =~= Seq::<IssueView>::empty());
            assert(stopped_findings(st, n) == if is_stopped_finding(st[0], n) { 1nat } else { 0nat });
            if is_stopped_finding(st[0], n) {
                lemma_prefix_cancel(n, q.name, ": 큐가 정지됨"@);
            }
        } else if q.jobs > 0 {
            assert(st.drop_last() =~= Seq::<IssueView>::empty());
            assert(st.last().level == Level::Info);
            assert(stopped_findings(st, n) == 0);
        } else {
            assert(stopped_findings(st, n) == 0);
        }
    }
}

proof fn lemma_prefix_cancel(a: Seq<char>, b: Seq<char>, x: Seq<char>)
    requires
        a + x == b + x,
    ensures
        a == b,
{
    assert((a + x).len() == (b + x).len());
    assert((a + x).take(a.len() as int) =~= a);
    assert((b + x).take(b.len() as int) =~= b);
}

proof fn lemma_airprint_findings(ds: Seq<DeviceView>, n: Seq<char>)
    ensures
        stopped_findings(all_airprint_issues(ds), n) == 0,
    decreases ds.len(),
{
    if ds.len() > 0 {
        lemma_airprint_findings(ds.drop_last(), n);
        let a = airprint_issue(ds.last());
        lemma_no_findings(a, n);
        lemma_findings_add(all_airprint_issues(ds.drop_last()), a, n);
    }
}

/// A stopped queue is reported once: for every name, the findings that
/// queue `n` is stopped (an error titled `n: 큐가 정지됨` whose fix acts on
/// `n`) are exactly as many as the queues named `n` in CUPS state 5. So a
/// stopped queue with its own name gives exactly one such finding, and a
/// queue that is idle or printing (state 3 or 4) gives none.
pub proof fn law_stopped_queue_reported_once(qs: Seq<QueueView>, ds: Seq<DeviceView>, n: Seq<char>)
    ensures
        stopped_findings(spec_diagnose(qs, ds), n) == stopped_queues(qs, n),
{
    lemma_dup_findings(qs, qs, n);
    lemma_driver_findings(qs, ds, n);
    lemma_state_findings(qs, n);
    lemma_airprint_findings(ds, n);
    let a = dup_issues(qs, qs);
    let b = all_driver_issues(qs, ds);
    let c = all_state_issues(qs);
    let d = all_airprint_issues(ds);
    lemma_findings_add(a, b, n);
    lemma_findings_add(a + b, c, n);
    lemma_findings_add(a + b + c, d, n);
}

// ---------------------------------------------------------------- scan TSV

/// The queue that a `Q` record of the scan TSV describes.
pub open spec fn queue_of_fields(f: Seq<Seq<char>>) -> Option<QueueView> {
    if f.len() >= 7 && f[0] == "Q"@ {
        Some(QueueView {
            name: f[1],
            uri: f[2],
            model: f[3],
            state: match parse_u8(f[4]) { Some(v) => v, None => 0 },
            is_default: f[5] == "1"@,
            jobs: match parse_usize(trim(f[6])) { Some(v) => v, None => 0 },
        })
    } else {
        None
    }
}

/// The device that a `D` record of the scan TSV describes.
pub open spec fn device_of_fields(f: Seq<Seq<char>>) -> Option<DeviceView> {
    if f.len() >= 4 && f[0] == "D"@ {
        Some(DeviceView { uri: f[1], info: f[2], device_id: f[3] })
    } else {
        None
    }
}

pub open spec fn scan_queues(ls: Seq<Seq<char>>) -> Seq<QueueView>
    decreases ls.len(),
{
    if ls.len() == 0 {
        seq![]
    } else {
        let r = scan_queues(ls.drop_last());
        match queue_of_fields(split_char(ls.last(), '\t')) {
            Some(q) => r.push(q),
            None => r,
        }
    }
}

pub open spec fn scan_devices(ls: Seq<Seq<char>>) -> Seq<DeviceView>
    decreases ls.len(),
{
    if ls.len() == 0 {
        seq![]
    } else {
        let r = scan_devices(ls.drop_last());
        match device_of_fields(split_char(ls.last(), '\t')) {
            Some(d) => r.push(d),
            None => r,
        }
    }
}

/// Reads the scan TSV: `Q\tname\turi\tmodel\tstate\tdefault\tjobs` and
/// `D\turi\tinfo\tdevice-id` records; other lines are ignored.
pub fn parse_scan(out: &str) -> (r: Scan)
    ensures
        queues_view(r.queues@) == scan_queues(lines(out@)),
        devices_view(r.devices@) == scan_devices(lines(out@)),
{
    let ls = lines_of(out);
    let ghost lv = ls.deep_view();
    let mut queues: Vec<Queue> = Vec::new();
    let mut devices: Vec<Device> = Vec::new();
    let mut i: usize = 0;
    assert(lv.take(0) =~= Seq::<Seq<char>>::empty());
    assert(queues_view(queues@) =~= Seq::<QueueView>::empty());
    assert(devices_view(devices@) =~= Seq::<DeviceView>::empty());
    while i < ls.len()
        invariant
            i <= ls.len(),
            lv == ls.deep_view(),
            lv == lines(out@),
            queues_view(queues@) == scan_queues(lv.take(i as int)),
            devices_view(devices@) == scan_devices(lv.take(i as int)),
        decreases ls.len() - i,
    {
        proof { lemma_deep_view_chars(&ls[i as int]); }
        let f = split_char_exec(ls[i].as_slice(), '\t');
        let ghost fv = f.deep_view();
        proof {
            reveal_strlit("Q");
            reveal_strlit("D");
            assert("Q"@[0] != "D"@[0]);
        }
        assert(lv.take(i + 1).drop_last() =~= lv.take(i as int));
        assert(lv.take(i + 1).last() == ls@[i as int]@);
        if f.len() >= 7 && eq_str(f[0].as_slice(), "Q") {
            proof {
                lemma_deep_view_chars(&f[0]);
                lemma_deep_view_chars(&f[1]);
                lemma_deep_view_chars(&f[2]);
                lemma_deep_view_chars(&f[3]);
                lemma_deep_view_chars(&f[4]);
                lemma_deep_view_chars(&f[5]);
                lemma_deep_view_chars(&f[6]);
            }
            let state = match parse_u8_exec(f[4].as_slice()) {
                Some(v) => v,
                None => 0,
            };
            let jt = trim_exec(f[6].as_slice());
            let jobs = match parse_usize_exec(jt.as_slice()) {
                Some(v) => v,
                None => 0,
            };
            let q = Queue {
                name: to_string(f[1].as_slice()),
                uri: to_string(f[2].as_slice()),
                model: to_string(f[3].as_slice()),
                state,
                is_default: eq_str(f[5].as_slice(), "1"),
                jobs,
            };
            let ghost qv = q@;
            let ghost before = queues@;
            queues.push(q);
            assert(queues_view(queues@) =~= queues_view(before).push(qv));
        } else if f.len() >= 4 && eq_str(f[0].as_slice(), "D") {
            proof {
                lemma_deep_view_chars(&f[0]);
                lemma_deep_view_chars(&f[1]);
                lemma_deep_view_chars(&f[2]);
                lemma_deep_view_chars(&f[3]);
            }
            let d = Device {
                uri: to_string(f[1].as_slice()),
                info: to_string(f[2].as_slice()),
                device_id: to_string(f[3].as_slice()),
            };
            let ghost dv = d@;
            let ghost before = devices@;
            devices.push(d);
            assert(devices_view(devices@) =~= devices_view(before).push(dv));
        } else {
            proof {
                if f.len() >= 1 {
                    lemma_deep_view_chars(&f[0]);
                }
            }
        }
        i += 1;
    }
    assert(lv.take(ls.len() as int) =~= lv);
    Scan { queues, devices }
}

/// Lists the queues (name, URI, make and model, state, default flag, queued
/// jobs) and the devices that CUPS sees, as the TSV that `parse_scan` reads.
/// CUPS gives no JSON, so only the needed values are picked out.
pub const SCAN_SH: &'static str = r#"
export LC_ALL=C
default=$(lpstat -d 2>/dev/null | sed -n 's/^system default destination: *//p')
lpstat -a 2>/dev/null | awk '{print $1}' | while read -r q; do
  uri=$(lpstat -v "$q" 2>/dev/null | sed -n 's/^device for [^:]*: *//p')
  opts=$(lpoptions -p "$q" 2>/dev/null)
  mm=$(printf '%s' "$opts" | sed -n "s/.*printer-make-and-model='\([^']*\)'.*/\1/p")
  [ -z "$mm" ] && mm=$(printf '%s' "$opts" | tr ' ' '\n' | sed -n 's/^printer-make-and-model=//p')
  st=$(printf '%s' "$opts" | tr ' ' '\n' | sed -n 's/^printer-state=//p')
  nj=$(lpstat -o "$q" 2>/dev/null | grep -c .)
  d=0; [ "$q" = "$default" ] && d=1
  printf 'Q\t%s\t%s\t%s\t%s\t%s\t%s\n' "$q" "$uri" "$mm" "$st" "$d" "$nj"
done
lpinfo -l -v 2>/dev/null | awk '
  /^Device: uri = / { uri=substr($0, index($0,"= ")+2) }
  / info = /        { info=substr($0, index($0,"= ")+2) }
  / device-id = /   { did=substr($0, index($0,"= ")+2);
                      if (uri ~ /:\/\//) printf "D\t%s\t%s\t%s\n", uri, info, did }
'
"#;

/// What a run of `SCAN_SH` shows: nothing when it failed without a word of
/// output, else the queues and devices of its TSV.
pub fn scan_result(success: bool, output: &str) -> (r: Scan)
    ensures
        !success && trim(output@).len() == 0 ==> r.queues@.len() == 0 && r.devices@.len() == 0,
        success || trim(output@).len() != 0 ==> queues_view(r.queues@) == scan_queues(lines(output@))
            && devices_view(r.devices@) == scan_devices(lines(output@)),
{
    let t = trim_exec(chars_of(output).as_slice());
    if !success && t.len() == 0 {
        Scan { queues: Vec::new(), devices: Vec::new() }
    } else {
        parse_scan(output)
    }
}

pub open spec fn spec_setdef_label(q: Seq<char>) -> Seq<char> {
    q + " 을(를) 기본 프린터로 지정 중..."@
}

fn setdef_label(q: &Vec<char>) -> (r: Vec<char>)
    ensures
        r@ == spec_setdef_label(q@),
{
    let mut o: Vec<char> = Vec::new();
    extend(&mut o, q.as_slice());
    extend_str(&mut o, " 을(를) 기본 프린터로 지정 중...");
    o
}

pub open spec fn spec_setdef_script(q: Seq<char>) -> Seq<char> {
    "lpoptions -d '"@ + q + "' >/dev/null 2>&1 && echo '기본 프린터: "@ + q + "'"@
}

fn setdef_script(q: &Vec<char>) -> (r: Vec<char>)
    ensures
        r@ == spec_setdef_script(q@),
{
    let mut o: Vec<char> = Vec::new();
    extend_str(&mut o, "lpoptions -d '");
    extend(&mut o, q.as_slice());
    extend_str(&mut o, "' >/dev/null 2>&1 && echo '기본 프린터: ");
    extend(&mut o, q.as_slice());
    extend_str(&mut o, "'");
    o
}

pub open spec fn spec_del_label(q: Seq<char>) -> Seq<char> {
    q + " 삭제 중..."@
}

fn del_label(q: &Vec<char>) -> (r: Vec<char>)
    ensures
        r@ == spec_del_label(q@),
{
    let mut o: Vec<char> = Vec::new();
    extend(&mut o, q.as_slice());
    extend_str(&mut o, " 삭제 중...");
    o
}

pub open spec fn spec_del_script(q: Seq<char>) -> Seq<char> {
    "cancel -a '"@ + q + "' 2>/dev/null; lpadmin -x '"@ + q + "' 2>&1 && echo '큐 삭제 완료: "@ + q + "'"@
}

fn del_script(q: &Vec<char>) -> (r: Vec<char>)
    ensures
        r@ == spec_del_script(q@),
{
    let mut o: Vec<char> = Vec::new();
    extend_str(&mut o, "cancel -a '");
    extend(&mut o, q.as_slice());
    extend_str(&mut o, "' 2>/dev/null; lpadmin -x '");
    extend(&mut o, q.as_slice());
    extend_str(&mut o, "' 2>&1 && echo '큐 삭제 완료: ");
    extend(&mut o, q.as_slice());
    extend_str(&mut o, "'");
    o
}

pub open spec fn spec_test_label(q: Seq<char>) -> Seq<char> {
    q + " 테스트 페이지 인쇄 중..."@
}

fn test_label(q: &Vec<char>) -> (r: Vec<char>)
    ensures
        r@ == spec_test_label(q@),
{
    let mut o: Vec<char> = Vec::new();
    extend(&mut o, q.as_slice());
    extend_str(&mut o, " 테스트 페이지 인쇄 중...");
    o
}

pub open spec fn spec_cancel_label(q: Seq<char>) -> Seq<char> {
    q + " 대기 작업 취소 중..."@
}

fn cancel_label(q: &Vec<char>) -> (r: Vec<char>)
    ensures
        r@ == spec_cancel_label(q@),
{
    let mut o: Vec<char> = Vec::new();
    extend(&mut o, q.as_slice());
    extend_str(&mut o, " 대기 작업 취소 중...");
    o
}

pub open spec fn spec_cancel_script(q: Seq<char>) -> Seq<char> {
    "cancel -a '"@ + q + "' 2>&1; cupsenable '"@ + q + "' 2>/dev/null; \
                     echo '"@ + q + " 대기 작업을 모두 취소하고 큐를 다시 켰습니다.'"@
}

fn cancel_script(q: &Vec<char>) -> (r: Vec<char>)
    ensures
        r@ == spec_cancel_script(q@),
{
    let mut o: Vec<char> = Vec::new();
    extend_str(&mut o, "cancel -a '");
    extend(&mut o, q.as_slice());
    extend_str(&mut o, "' 2>&1; cupsenable '");
    extend(&mut o, q.as_slice());
    extend_str(&mut o, "' 2>/dev/null; \
                     echo '");
    extend(&mut o, q.as_slice());
    extend_str(&mut o, " 대기 작업을 모두 취소하고 큐를 다시 켰습니다.'");
    o
}


// ---------------------------------------------------------------- tab state

/// Events of the printer tab: user requests and finished work.
#[derive(Debug, Clone)]
pub enum PrinterMsg {
    Refresh,
    Refreshed(Scan),
    SetDefault(String),
    Delete(String),
    TestPrint(String),
    CancelJobs(String),
    /// device URI
    Register(String),
    Applied(CmdResult),
}

/// Work the tab asks its host to do next.
#[derive(Debug, Clone, PartialEq)]
pub enum PrinterAction {
    Idle,
    /// Run the scan and answer with `Refreshed`.
    Scan,
    /// Run the script with bash and answer with `Applied`.
    RunScript(String),
}

pub struct PrinterState {
    pub scan: Scan,
    pub scanned: bool,
    pub running: Option<String>,
}

/// The device-id of the device at `uri`, or nothing.
pub open spec fn device_id_for(ds: Seq<DeviceView>, uri: Seq<char>) -> Seq<char> {
    match find_device(ds, uri) {
        Some(d) => d.device_id,
        None => seq![],
    }
}

impl PrinterState {
    pub fn new() -> (s: Self)
        ensures
            s.scan.queues@.len() == 0,
            s.scan.devices@.len() == 0,
            !s.scanned,
            s.running is None,
    {
        PrinterState {
            scan: Scan { queues: Vec::new(), devices: Vec::new() },
            scanned: false,
            running: None,
        }
    }

    /// The next state and the work to do for an event.  A request marks the
    /// tab busy with a label and runs one script; a finished script clears the
    /// label, rescans and hands its result on to the log.
    pub fn update(&mut self, msg: PrinterMsg) -> (r: (PrinterAction, Option<CmdResult>))
        ensures
            match msg {
                PrinterMsg::Refresh => {
                    &&& r.0 is Scan && r.1 is None
                    &&& *final(self) == *old(self)
                },
                PrinterMsg::Refreshed(s) => {
                    &&& r.0 is Idle && r.1 is None
                    &&& final(self).scan == s && final(self).scanned
                    &&& final(self).running == old(self).running
                },
                PrinterMsg::SetDefault(q) => {
                    &&& r.1 is None
                    &&& opt_view(final(self).running) == Some(spec_setdef_label(q@))
                    &&& r.0 matches PrinterAction::RunScript(sc) && sc@ == spec_setdef_script(q@)
                    &&& final(self).scan == old(self).scan && final(self).scanned == old(self).scanned
                },
                PrinterMsg::Delete(q) => {
                    &&& r.1 is None
                    &&& opt_view(final(self).running) == Some(spec_del_label(q@))
                    &&& r.0 matches PrinterAction::RunScript(sc) && sc@ == spec_del_script(q@)
                    &&& final(self).scan == old(self).scan && final(self).scanned == old(self).scanned
                },
                PrinterMsg::TestPrint(q) => {
                    &&& r.1 is None
                    &&& opt_view(final(self).running) == Some(spec_test_label(q@))
                    &&& r.0 matches PrinterAction::RunScript(sc) && sc@ == spec_test_print_script(q@)
                    &&& final(self).scan == old(self).scan && final(self).scanned == old(self).scanned
                },
                PrinterMsg::CancelJobs(q) => {
                    &&& r.1 is None
                    &&& opt_view(final(self).running) == Some(spec_cancel_label(q@))
                    &&& r.0 matches PrinterAction::RunScript(sc) && sc@ == spec_cancel_script(q@)
                    &&& final(self).scan == old(self).scan && final(self).scanned == old(self).scanned
                },
                PrinterMsg::Register(uri) => {
                    &&& r.1 is None
                    &&& opt_view(final(self).running) == Some("드라이버를 고르고 등록하는 중..."@)
                    &&& r.0 matches PrinterAction::RunScript(sc) && sc@ == spec_register_script(
                        uri@,
                        device_id_for(devices_view(old(self).scan.devices@), uri@),
                    )
                    &&& final(self).scan == old(self).scan && final(self).scanned == old(self).scanned
                },
                PrinterMsg::Applied(res) => {
                    &&& r.0 is Scan && r.1 == Some(res)
                    &&& final(self).running is None
                    &&& final(self).scan == old(self).scan && final(self).scanned == old(self).scanned
                },
            },
    {
        match msg {
            PrinterMsg::Refresh => (PrinterAction::Scan, None),
            PrinterMsg::Refreshed(s) => {
                self.scan = s;
                self.scanned = true;
                (PrinterAction::Idle, None)
            },
            PrinterMsg::SetDefault(q) => {
                let qc = chars_of_string(&q);
                self.running = Some(string_of(setdef_label(&qc)));
                (PrinterAction::RunScript(string_of(setdef_script(&qc))), None)
            },
            PrinterMsg::Delete(q) => {
                let qc = chars_of_string(&q);
                self.running = Some(string_of(del_label(&qc)));
                (PrinterAction::RunScript(string_of(del_script(&qc))), None)
            },
            PrinterMsg::TestPrint(q) => {
                let qc = chars_of_string(&q);
                self.running = Some(string_of(test_label(&qc)));
                (PrinterAction::RunScript(test_print_script(q.as_str())), None)
            },
            PrinterMsg::CancelJobs(q) => {
                let qc = chars_of_string(&q);
                self.running = Some(string_of(cancel_label(&qc)));
                (PrinterAction::RunScript(string_of(cancel_script(&qc))), None)
            },
            PrinterMsg::Register(uri) => {
                self.running = Some(string_of(chars_of("드라이버를 고르고 등록하는 중...")));
                let did = match find_device_exec(&self.scan.devices, &uri) {
                    Some(k) => self.scan.devices[k].device_id.clone(),
                    None => String::new(),
                };
                (PrinterAction::RunScript(register_script(uri.as_str(), did.as_str())), None)
            },
            PrinterMsg::Applied(res) => {
                self.running = None;
                (PrinterAction::Scan, Some(res))
            },
        }
    }
}

/// Index of the first queue that points at `uri`.
pub open spec fn first_with_uri(qs: Seq<QueueView>, uri: Seq<char>) -> Option<int>
    decreases qs.len(),
{
    if qs.len() == 0 {
        None
    } else {
        match first_with_uri(qs.drop_last(), uri) {
            Some(k) => Some(k),
            None => if qs.last().uri == uri { Some(qs.len() - 1) } else { None },
        }
    }
}

pub proof fn lemma_first_with_uri(qs: Seq<QueueView>, uri: Seq<char>)
    ensures
        match first_with_uri(qs, uri) {
            Some(k) => 0 <= k < qs.len() && qs[k].uri == uri
                && (forall|j: int| 0 <= j < k ==> qs[j].uri != uri)
                && dup_names(qs, uri).len() > 0 && dup_names(qs, uri)[0] == qs[k].name,
            None => (forall|j: int| 0 <= j < qs.len() ==> qs[j].uri != uri) && dup_names(qs, uri).len() == 0,
        },
    decreases qs.len(),
{
    if qs.len() > 0 {
        let t = qs.drop_last();
        lemma_first_with_uri(t, uri);
        assert forall|j: int| 0 <= j < t.len() implies t[j] == qs[j] by {}
    }
}

/// The queues are told apart by name (CUPS queue names are unique).
pub open spec fn distinct_names(qs: Seq<QueueView>) -> bool {
    forall|i: int, j: int| 0 <= i < j < qs.len() ==> qs[i].name != qs[j].name
}

/// A device that two or more queues point at is reported once, by the first
/// of those queues; a device with one queue is not reported.
pub proof fn law_duplicates_flagged_once(qs: Seq<QueueView>, uri: Seq<char>)
    requires
        distinct_names(qs),
    ensures
        dup_names(qs, uri).len() > 1 ==> (exists|k: int| 0 <= k < qs.len() && qs[k].uri == uri
            && #[trigger] dup_issue(qs, qs[k]).len() == 1
            && forall|m: int| 0 <= m < qs.len() && qs[m].uri == uri && m != k ==> dup_issue(qs, qs[m]).len() == 0),
        dup_names(qs, uri).len() <= 1 ==> forall|m: int| 0 <= m < qs.len() && qs[m].uri == uri
            ==> #[trigger] dup_issue(qs, qs[m]).len() == 0,
{
    lemma_first_with_uri(qs, uri);
    match first_with_uri(qs, uri) {
        Some(k) => {
            if dup_names(qs, uri).len() > 1 {
                assert(dup_issue(qs, qs[k]).len() == 1);
                assert forall|m: int| 0 <= m < qs.len() && qs[m].uri == uri && m != k implies dup_issue(qs, qs[m]).len() == 0 by {
                    if m < k {
                    } else {
                        assert(qs[k].name != qs[m].name);
                    }
                }
            }
        },
        None => {},
    }
}

} // verus!
