//! Disks: grouping the block devices that `lsblk` reports into disks with
//! their partitions, which partitions are worth showing, and the `udisksctl`
//! commands that mount, unmount and power off.

use vstd::prelude::*;
use crate::runner::CmdResult;
use crate::text::{
    trim, starts_with, trim_exec, chars_of_string, chars_of, eq_str, starts_with_str, to_string,
    extend, extend_str, string_of, upper, unicode_upper, opt_view,
};

verus! {

/// One block device as `lsblk -J` reports it, each field as the JSON string
/// held there (absent when the key is missing or not a string).
pub struct LsblkEntry {
    pub kind: Option<String>,
    pub path: Option<String>,
    pub size: Option<String>,
    pub fstype: Option<String>,
    pub label: Option<String>,
    pub mountpoint: Option<String>,
    pub model: Option<String>,
    pub tran: Option<String>,
    /// The `rm` flag, where it is a JSON boolean.
    pub removable: Option<bool>,
}

/// A top-level device with its children, where it has a `children` array.
pub struct LsblkDevice {
    pub entry: LsblkEntry,
    pub children: Option<Vec<LsblkEntry>>,
}

#[derive(Debug, Clone, PartialEq)]
pub struct PartInfo {
    pub path: String,
    pub size: String,
    pub fstype: Option<String>,
    pub label: Option<String>,
    pub mountpoint: Option<String>,
}

#[derive(Debug, Clone, PartialEq)]
pub struct DiskGroup {
    pub path: String,
    pub size: String,
    pub model: String,
    pub tran: String,
    pub removable: bool,
    pub parts: Vec<PartInfo>,
}

pub ghost struct PartView {
    pub path: Seq<char>,
    pub size: Seq<char>,
    pub fstype: Option<Seq<char>>,
    pub label: Option<Seq<char>>,
    pub mountpoint: Option<Seq<char>>,
}

pub ghost struct DiskView {
    pub path: Seq<char>,
    pub size: Seq<char>,
    pub model: Seq<char>,
    pub tran: Seq<char>,
    pub removable: bool,
    pub parts: Seq<PartView>,
}

impl View for PartInfo {
    type V = PartView;

    open spec fn view(&self) -> PartView {
        PartView {
            path: self.path@,
            size: self.size@,
            fstype: opt_view(self.fstype),
            label: opt_view(self.label),
            mountpoint: opt_view(self.mountpoint),
        }
    }
}

pub open spec fn parts_view(ps: Seq<PartInfo>) -> Seq<PartView> {
    ps.map_values(|p: PartInfo| p@)
}

impl View for DiskGroup {
    type V = DiskView;

    open spec fn view(&self) -> DiskView {
        DiskView {
            path: self.path@,
            size: self.size@,
            model: self.model@,
            tran: self.tran@,
            removable: self.removable,
            parts: parts_view(self.parts@),
        }
    }
}

pub open spec fn disks_view(ds: Seq<DiskGroup>) -> Seq<DiskView> {
    ds.map_values(|d: DiskGroup| d@)
}

// ------------------------------------------------------------------ grouping

/// A string field, trimmed; empty when absent.
pub open spec fn field(v: Option<String>) -> Seq<char> {
    match v {
        Some(s) => trim(s@),
        None => seq![],
    }
}

/// A string field, trimmed; absent when it is absent or blank.
pub open spec fn opt_field(v: Option<String>) -> Option<Seq<char>> {
    match v {
        Some(s) => if trim(s@).len() > 0 { Some(trim(s@)) } else { None },
        None => None,
    }
}

/// The partition described by an entry.
pub open spec fn part_of(e: LsblkEntry) -> PartView {
    PartView {
        path: field(e.path),
        size: field(e.size),
        fstype: opt_field(e.fstype),
        label: opt_field(e.label),
        mountpoint: opt_field(e.mountpoint),
    }
}

/// The partitions among a disk's children: those of type `part`, in order.
pub open spec fn child_parts(cs: Seq<LsblkEntry>) -> Seq<PartView>
    decreases cs.len(),
{
    if cs.len() == 0 {
        seq![]
    } else if field(cs.last().kind) == "part"@ {
        child_parts(cs.drop_last()).push(part_of(cs.last()))
    } else {
        child_parts(cs.drop_last())
    }
}

/// The partitions of a disk: its `part` children where it has children;
/// otherwise the whole disk, where it carries a file system itself.
pub open spec fn disk_parts(d: LsblkDevice) -> Seq<PartView> {
    match d.children {
        Some(cs) => child_parts(cs@),
        None => if opt_field(d.entry.fstype) is Some { seq![part_of(d.entry)] } else { seq![] },
    }
}

/// Whether a top-level device is listed: a disk with media in it that is
/// neither a compressed-RAM device nor a loop device.
pub open spec fn listed(d: LsblkDevice) -> bool {
    &&& field(d.entry.kind) == "disk"@
    &&& field(d.entry.size) != "0B"@
    &&& !starts_with(field(d.entry.path), "/dev/zram"@)
    &&& !starts_with(field(d.entry.path), "/dev/loop"@)
}

pub open spec fn disk_of(d: LsblkDevice) -> DiskView {
    DiskView {
        path: field(d.entry.path),
        size: field(d.entry.size),
        model: field(d.entry.model),
        tran: field(d.entry.tran),
        removable: match d.entry.removable { Some(b) => b, None => false },
        parts: disk_parts(d),
    }
}

/// The listed disks, in the order `lsblk` reported them.
pub open spec fn disk_groups(ds: Seq<LsblkDevice>) -> Seq<DiskView>
    decreases ds.len(),
{
    if ds.len() == 0 {
        seq![]
    } else if listed(ds.last()) {
        disk_groups(ds.drop_last()).push(disk_of(ds.last()))
    } else {
        disk_groups(ds.drop_last())
    }
}

fn field_exec(v: &Option<String>) -> (r: String)
    ensures
        r@ == field(*v),
{
    match v {
        Some(s) => {
            let c = chars_of_string(s);
            string_of(trim_exec(c.as_slice()))
        },
        None => String::new(),
    }
}

fn opt_field_exec(v: &Option<String>) -> (r: Option<String>)
    ensures
        opt_view(r) == opt_field(*v),
{
    match v {
        Some(s) => {
            let c = chars_of_string(s);
            let t = trim_exec(c.as_slice());
            if t.len() > 0 {
                Some(string_of(t))
            } else {
                None
            }
        },
        None => None,
    }
}

fn part_exec(e: &LsblkEntry) -> (p: PartInfo)
    ensures
        p@ == part_of(*e),
{
    PartInfo {
        path: field_exec(&e.path),
        size: field_exec(&e.size),
        fstype: opt_field_exec(&e.fstype),
        label: opt_field_exec(&e.label),
        mountpoint: opt_field_exec(&e.mountpoint),
    }
}

fn parts_exec(d: &LsblkDevice) -> (r: Vec<PartInfo>)
    ensures
        parts_view(r@) == disk_parts(*d),
{
    let mut out: Vec<PartInfo> = Vec::new();
    match &d.children {
        Some(cs) => {
            let mut i: usize = 0;
            assert(cs@.take(0) =~= Seq::<LsblkEntry>::empty());
            assert(parts_view(out@) =~= child_parts(cs@.take(0)));
            while i < cs.len()
                invariant
                    i <= cs.len(),
                    parts_view(out@) == child_parts(cs@.take(i as int)),
                decreases cs.len() - i,
            {
                let k = field_exec(&cs[i].kind);
                let is_part = eq_str(chars_of_string(&k).as_slice(), "part");
                assert(cs@.take(i + 1).drop_last() =~= cs@.take(i as int));
                assert(cs@.take(i + 1).last() == cs@[i as int]);
                if is_part {
                    let p = part_exec(&cs[i]);
                    let ghost before = out@;
                    out.push(p);
                    assert(parts_view(out@) =~= parts_view(before).push(p@));
                }
                i += 1;
            }
            assert(cs@.take(cs.len() as int) =~= cs@);
        },
        None => {
            let f = opt_field_exec(&d.entry.fstype);
            if f.is_some() {
                let p = part_exec(&d.entry);
                out.push(p);
                assert(parts_view(out@) =~= seq![p@]);
            } else {
                assert(parts_view(out@) =~= Seq::<PartView>::empty());
            }
        },
    }
    out
}

/// Groups the devices that `lsblk` reported into the disks that are listed,
/// each with its partitions.
pub fn group_disks(devs: &Vec<LsblkDevice>) -> (r: Vec<DiskGroup>)
    ensures
        disks_view(r@) == disk_groups(devs@),
{
    let mut out: Vec<DiskGroup> = Vec::new();
    let mut i: usize = 0;
    assert(devs@.take(0) =~= Seq::<LsblkDevice>::empty());
    assert(disks_view(out@) =~= disk_groups(devs@.take(0)));
    while i < devs.len()
        invariant
            i <= devs.len(),
            disks_view(out@) == disk_groups(devs@.take(i as int)),
        decreases devs.len() - i,
    {
        let d = &devs[i];
        assert(devs@.take(i + 1).drop_last() =~= devs@.take(i as int));
        assert(devs@.take(i + 1).last() == devs@[i as int]);
        let kind = chars_of_string(&field_exec(&d.entry.kind));
        let size = field_exec(&d.entry.size);
        let path = field_exec(&d.entry.path);
        let sc = chars_of_string(&size);
        let pc = chars_of_string(&path);
        let keep = eq_str(kind.as_slice(), "disk") && !eq_str(sc.as_slice(), "0B")
            && !starts_with_str(pc.as_slice(), "/dev/zram") && !starts_with_str(pc.as_slice(), "/dev/loop");
        if keep {
            let removable = match d.entry.removable {
                Some(b) => b,
                None => false,
            };
            let g = DiskGroup {
                path,
                size,
                model: field_exec(&d.entry.model),
                tran: field_exec(&d.entry.tran),
                removable,
                parts: parts_exec(d),
            };
            let ghost before = out@;
            out.push(g);
            assert(disks_view(out@) =~= disks_view(before).push(g@));
        }
        i += 1;
    }
    assert(devs@.take(devs.len() as int) =~= devs@);
    out
}

// ------------------------------------------------------------------ what is shown

/// A mount point that the user made: under `/media/`, `/mnt/` or `/run/media/`.
pub open spec fn user_mount(mp: Seq<char>) -> bool {
    starts_with(mp, "/media/"@) || starts_with(mp, "/mnt/"@) || starts_with(mp, "/run/media/"@)
}

pub fn is_user_mount(mp: &str) -> (r: bool)
    ensures
        r == user_mount(mp@),
{
    let c = chars_of(mp);
    starts_with_str(c.as_slice(), "/media/") || starts_with_str(c.as_slice(), "/mnt/")
        || starts_with_str(c.as_slice(), "/run/media/")
}

/// Whether a partition is worth showing: not mounted but carrying a file
/// system other than swap, or mounted where the user mounts.
pub open spec fn actionable(p: PartView) -> bool {
    match p.mountpoint {
        None => match p.fstype {
            Some(f) => f != "swap"@,
            None => false,
        },
        Some(mp) => user_mount(mp),
    }
}

/// Whether an unmounted partition can be mounted: it carries a file system
/// other than swap.
pub open spec fn mountable(p: PartView) -> bool {
    match p.fstype {
        Some(f) => f != "swap"@,
        None => false,
    }
}

fn mountable_exec(p: &PartInfo) -> (r: bool)
    ensures
        r == mountable(p@),
{
    match &p.fstype {
        Some(f) => !eq_str(chars_of_string(f).as_slice(), "swap"),
        None => false,
    }
}

pub fn part_actionable(p: &PartInfo) -> (r: bool)
    ensures
        r == actionable(p@),
{
    match &p.mountpoint {
        None => mountable_exec(p),
        Some(mp) => is_user_mount(mp.as_str()),
    }
}

/// A disk that is shown among the external ones: removable, or on USB.
pub open spec fn external(d: DiskView) -> bool {
    d.removable || d.tran == "usb"@
}

pub fn is_external(d: &DiskGroup) -> (r: bool)
    ensures
        r == external(d@),
{
    d.removable || eq_str(chars_of_string(&d.tran).as_slice(), "usb")
}

/// The positions of the partitions shown on a disk's card, in order: all of
/// them on an external disk, the actionable ones on an internal disk.
pub open spec fn shown_indices(ps: Seq<PartView>, ext: bool) -> Seq<usize>
    decreases ps.len(),
{
    if ps.len() == 0 {
        seq![]
    } else if ext || actionable(ps.last()) {
        shown_indices(ps.drop_last(), ext).push((ps.len() - 1) as usize)
    } else {
        shown_indices(ps.drop_last(), ext)
    }
}

pub fn shown_parts(d: &DiskGroup, ext: bool) -> (r: Vec<usize>)
    ensures
        r@ == shown_indices(parts_view(d.parts@), ext),
{
    let mut r: Vec<usize> = Vec::new();
    let mut i: usize = 0;
    let ghost pv = parts_view(d.parts@);
    assert(pv.take(0) =~= Seq::<PartView>::empty());
    while i < d.parts.len()
        invariant
            i <= d.parts.len(),
            pv == parts_view(d.parts@),
            r@ == shown_indices(pv.take(i as int), ext),
        decreases d.parts.len() - i,
    {
        assert(pv.take(i + 1).drop_last() =~= pv.take(i as int));
        assert(pv.take(i + 1).last() == d.parts@[i as int]@);
        if ext || part_actionable(&d.parts[i]) {
            r.push(i);
        }
        i += 1;
    }
    assert(pv.take(d.parts.len() as int) =~= pv);
    r
}

/// Whether any partition of the disk is mounted.
pub fn any_mounted(d: &DiskGroup) -> (r: bool)
    ensures
        r == exists|j: int| 0 <= j < d.parts.len() && d.parts@[j].mountpoint is Some,
{
    let mut i: usize = 0;
    while i < d.parts.len()
        invariant
            i <= d.parts.len(),
            forall|j: int| 0 <= j < i ==> d.parts@[j].mountpoint is None,
        decreases d.parts.len() - i,
    {
        if d.parts[i].mountpoint.is_some() {
            assert(d.parts@[i as int].mountpoint is Some);
            return true;
        }
        i += 1;
    }
    false
}

/// Whether an internal disk is shown: it has a partition worth showing.
pub fn has_actionable_part(d: &DiskGroup) -> (r: bool)
    ensures
        r == exists|j: int| 0 <= j < d.parts.len() && actionable(d.parts@[j]@),
{
    let mut i: usize = 0;
    while i < d.parts.len()
        invariant
            i <= d.parts.len(),
            forall|j: int| 0 <= j < i ==> !actionable(#[trigger] d.parts@[j]@),
        decreases d.parts.len() - i,
    {
        if part_actionable(&d.parts[i]) {
            return true;
        }
        i += 1;
    }
    false
}

/// The heading of a disk's card.
pub open spec fn title_of(d: DiskView) -> Seq<char> {
    if d.model.len() == 0 {
        d.path + " ("@ + d.size + ")"@
    } else {
        d.model + " — "@ + d.path + " ("@ + d.size + ")"@
    }
}

pub fn disk_title(d: &DiskGroup) -> (r: String)
    ensures
        r@ == title_of(d@),
{
    let mut o: Vec<char> = Vec::new();
    let model = chars_of_string(&d.model);
    if model.len() != 0 {
        extend(&mut o, model.as_slice());
        extend_str(&mut o, " — ");
    }
    extend(&mut o, chars_of_string(&d.path).as_slice());
    extend_str(&mut o, " (");
    extend(&mut o, chars_of_string(&d.size).as_slice());
    extend_str(&mut o, ")");
    assert(o@ =~= title_of(d@));
    string_of(o)
}

/// The transport tag beside the heading: empty, or the transport in upper
/// case between brackets.
pub open spec fn tran_tag_of(d: DiskView) -> Seq<char> {
    if d.tran.len() == 0 {
        seq![]
    } else {
        "  ["@ + unicode_upper(d.tran) + "]"@
    }
}

pub fn tran_tag(d: &DiskGroup) -> (r: String)
    ensures
        r@ == tran_tag_of(d@),
{
    let t = chars_of_string(&d.tran);
    if t.len() == 0 {
        return String::new();
    }
    let mut o: Vec<char> = Vec::new();
    extend_str(&mut o, "  [");
    let u = upper(t.as_slice());
    extend(&mut o, u.as_slice());
    extend_str(&mut o, "]");
    assert(o@ =~= tran_tag_of(d@));
    string_of(o)
}

/// The name of a partition on its row: label or path, then file system and
/// size in brackets.
pub open spec fn part_name_of(p: PartView) -> Seq<char> {
    let head = match p.label {
        Some(l) => l,
        None => p.path,
    };
    match p.fstype {
        Some(f) => head + " ("@ + f + ", "@ + p.size + ")"@,
        None => head + " ("@ + p.size + ")"@,
    }
}

pub fn part_name(p: &PartInfo) -> (r: String)
    ensures
        r@ == part_name_of(p@),
{
    let mut o: Vec<char> = Vec::new();
    match &p.label {
        Some(l) => extend(&mut o, chars_of_string(l).as_slice()),
        None => extend(&mut o, chars_of_string(&p.path).as_slice()),
    }
    extend_str(&mut o, " (");
    match &p.fstype {
        Some(f) => {
            extend(&mut o, chars_of_string(f).as_slice());
            extend_str(&mut o, ", ");
        },
        None => {},
    }
    extend(&mut o, chars_of_string(&p.size).as_slice());
    extend_str(&mut o, ")");
    assert(o@ =~= part_name_of(p@));
    string_of(o)
}

// ------------------------------------------------------------------ commands

pub open spec fn mount_script_of(dev: Seq<char>) -> Seq<char> {
    "udisksctl mount -b '"@ + dev + "' 2>&1"@
}

pub open spec fn unmount_script_of(dev: Seq<char>) -> Seq<char> {
    "udisksctl unmount -b '"@ + dev + "' 2>&1"@
}

pub open spec fn power_off_script_of(dev: Seq<char>) -> Seq<char> {
    "udisksctl power-off -b '"@ + dev + "' 2>&1 && echo '"@ + dev + " 안전 제거 완료 — 케이블을 뽑아도 됩니다.'"@
}

pub open spec fn open_script_of(mp: Seq<char>) -> Seq<char> {
    "nohup xdg-open '"@ + mp + "' >/dev/null 2>&1 & echo '파일 관리자로 열기: "@ + mp + "'"@
}

pub fn mount_script(dev: &String) -> (r: String)
    ensures
        r@ == mount_script_of(dev@),
{
    let mut o: Vec<char> = Vec::new();
    extend_str(&mut o, "udisksctl mount -b '");
    extend(&mut o, chars_of_string(dev).as_slice());
    extend_str(&mut o, "' 2>&1");
    assert(o@ =~= mount_script_of(dev@));
    string_of(o)
}

pub fn unmount_script(dev: &String) -> (r: String)
    ensures
        r@ == unmount_script_of(dev@),
{
    let mut o: Vec<char> = Vec::new();
    extend_str(&mut o, "udisksctl unmount -b '");
    extend(&mut o, chars_of_string(dev).as_slice());
    extend_str(&mut o, "' 2>&1");
    assert(o@ =~= unmount_script_of(dev@));
    string_of(o)
}

pub fn power_off_script(dev: &String) -> (r: String)
    ensures
        r@ == power_off_script_of(dev@),
{
    let d = chars_of_string(dev);
    let mut o: Vec<char> = Vec::new();
    extend_str(&mut o, "udisksctl power-off -b '");
    extend(&mut o, d.as_slice());
    extend_str(&mut o, "' 2>&1 && echo '");
    extend(&mut o, d.as_slice());
    extend_str(&mut o, " 안전 제거 완료 — 케이블을 뽑아도 됩니다.'");
    assert(o@ =~= power_off_script_of(dev@));
    string_of(o)
}

pub fn open_script(mp: &String) -> (r: String)
    ensures
        r@ == open_script_of(mp@),
{
    let m = chars_of_string(mp);
    let mut o: Vec<char> = Vec::new();
    extend_str(&mut o, "nohup xdg-open '");
    extend(&mut o, m.as_slice());
    extend_str(&mut o, "' >/dev/null 2>&1 & echo '파일 관리자로 열기: ");
    extend(&mut o, m.as_slice());
    extend_str(&mut o, "'");
    assert(o@ =~= open_script_of(mp@));
    string_of(o)
}

fn with_suffix(dev: &String, suffix: &str) -> (r: String)
    ensures
        r@ == dev@ + suffix@,
{
    let mut o = chars_of_string(dev);
    extend_str(&mut o, suffix);
    string_of(o)
}

// ------------------------------------------------------------------ state

pub enum DiskMsg {
    Refresh,
    Refreshed(Vec<DiskGroup>),
    Mount(String),
    Unmount(String),
    PowerOff(String),
    Open(String),
    Applied(CmdResult),
}

/// What the caller is to do after an update.
pub enum DiskAction {
    Idle,
    /// List the block devices and answer `Refreshed`.
    Scan,
    /// Run the script and answer `Applied` with its result.
    Run(String),
}

pub struct DiskState {
    pub disks: Vec<DiskGroup>,
    pub scanned: bool,
    pub running: Option<String>,
}

impl DiskState {
    pub fn new() -> (s: Self)
        ensures
            s.disks@.len() == 0,
            !s.scanned,
            s.running is None,
    {
        DiskState { disks: Vec::new(), scanned: false, running: None }
    }

    /// Handles a message: a scan result replaces the disks; a mount, unmount
    /// or power-off marks the state busy and runs its command; opening runs
    /// the file manager; a finished command clears the busy mark, rescans and
    /// hands its result on to the log.
    pub fn update(&mut self, msg: DiskMsg) -> (r: (DiskAction, Option<CmdResult>))
        ensures
            match msg {
                DiskMsg::Refresh => r.0 is Scan && r.1 is None
                    && final(self).disks@ == old(self).disks@ && final(self).scanned == old(self).scanned
                    && final(self).running == old(self).running,
                DiskMsg::Refreshed(d) => r.0 is Idle && r.1 is None
                    && final(self).disks@ == d@ && final(self).scanned
                    && final(self).running == old(self).running,
                DiskMsg::Mount(dev) => (match r.0 {
                        DiskAction::Run(s) => s@ == mount_script_of(dev@),
                        _ => false,
                    }) && r.1 is None
                    && final(self).disks@ == old(self).disks@ && final(self).scanned == old(self).scanned
                    && opt_view(final(self).running) == Some(dev@ + " 마운트 중..."@),
                DiskMsg::Unmount(dev) => (match r.0 {
                        DiskAction::Run(s) => s@ == unmount_script_of(dev@),
                        _ => false,
                    }) && r.1 is None
                    && final(self).disks@ == old(self).disks@ && final(self).scanned == old(self).scanned
                    && opt_view(final(self).running) == Some(dev@ + " 마운트 해제 중..."@),
                DiskMsg::PowerOff(dev) => (match r.0 {
                        DiskAction::Run(s) => s@ == power_off_script_of(dev@),
                        _ => false,
                    }) && r.1 is None
                    && final(self).disks@ == old(self).disks@ && final(self).scanned == old(self).scanned
                    && opt_view(final(self).running) == Some(dev@ + " 안전 제거 중..."@),
                DiskMsg::Open(mp) => (match r.0 {
                        DiskAction::Run(s) => s@ == open_script_of(mp@),
                        _ => false,
                    }) && r.1 is None
                    && final(self).disks@ == old(self).disks@ && final(self).scanned == old(self).scanned
                    && final(self).running == old(self).running,
                DiskMsg::Applied(res) => r.0 is Scan && r.1 == Some(res)
                    && final(self).disks@ == old(self).disks@ && final(self).scanned == old(self).scanned
                    && final(self).running is None,
            },
    {
        match msg {
            DiskMsg::Refresh => (DiskAction::Scan, None),
            DiskMsg::Refreshed(d) => {
                self.disks = d;
                self.scanned = true;
                (DiskAction::Idle, None)
            },
            DiskMsg::Mount(dev) => {
                self.running = Some(with_suffix(&dev, " 마운트 중..."));
                (DiskAction::Run(mount_script(&dev)), None)
            },
            DiskMsg::Unmount(dev) => {
                self.running = Some(with_suffix(&dev, " 마운트 해제 중..."));
                (DiskAction::Run(unmount_script(&dev)), None)
            },
            DiskMsg::PowerOff(dev) => {
                self.running = Some(with_suffix(&dev, " 안전 제거 중..."));
                (DiskAction::Run(power_off_script(&dev)), None)
            },
            DiskMsg::Open(mp) => (DiskAction::Run(open_script(&mp)), None),
            DiskMsg::Applied(res) => {
                self.running = None;
                (DiskAction::Scan, Some(res))
            },
        }
    }
}

/// No listed disk is a loop device, a compressed-RAM device or a slot
/// without media.
pub proof fn law_listed_disks(ds: Seq<LsblkDevice>)
    ensures
        forall|k: int| 0 <= k < disk_groups(ds).len() ==> {
            let d = #[trigger] disk_groups(ds)[k];
            &&& !starts_with(d.path, "/dev/loop"@)
            &&& !starts_with(d.path, "/dev/zram"@)
            &&& d.size != "0B"@
        },
    decreases ds.len(),
{
    if ds.len() > 0 {
        let t = ds.drop_last();
        law_listed_disks(t);
        let g = disk_groups(ds);
        assert forall|k: int| 0 <= k < g.len() implies {
            let d = #[trigger] g[k];
            &&& !starts_with(d.path, "/dev/loop"@)
            &&& !starts_with(d.path, "/dev/zram"@)
            &&& d.size != "0B"@
        } by {
            if listed(ds.last()) {
                if k < disk_groups(t).len() {
                    assert(g[k] == disk_groups(t)[k]);
                } else {
                    assert(g[k] == disk_of(ds.last()));
                }
            } else {
                assert(g[k] == disk_groups(t)[k]);
            }
        }
    }
}

} // verus!
