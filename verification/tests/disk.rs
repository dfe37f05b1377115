use popmgr::runner::CmdResult;
use popmgr::ui::disk::{
    any_mounted, disk_title, group_disks, has_actionable_part, is_external, is_user_mount, mount_script,
    open_script, part_actionable, part_name, power_off_script, shown_parts, tran_tag, unmount_script,
    DiskAction, DiskGroup, DiskMsg, DiskState, LsblkDevice, LsblkEntry, PartInfo,
};

fn entry(kind: &str, path: &str, size: &str, fstype: Option<&str>, mp: Option<&str>) -> LsblkEntry {
    LsblkEntry {
        kind: Some(kind.into()),
        path: Some(path.into()),
        size: Some(size.into()),
        fstype: fstype.map(|s| s.to_string()),
        label: None,
        mountpoint: mp.map(|s| s.to_string()),
        model: Some(" SanDisk  ".into()),
        tran: Some("usb".into()),
        removable: Some(true),
    }
}

fn part(path: &str, fstype: Option<&str>, mp: Option<&str>) -> PartInfo {
    PartInfo {
        path: path.into(),
        size: "1G".into(),
        fstype: fstype.map(|s| s.to_string()),
        label: None,
        mountpoint: mp.map(|s| s.to_string()),
    }
}

#[test]
fn groups_disks_with_their_partitions() {
    let devs = vec![
        LsblkDevice {
            entry: entry("disk", "/dev/sdb", "14.9G", None, None),
            children: Some(vec![
                entry("part", "/dev/sdb1", "14.9G", Some("vfat"), Some("/media/u/STICK")),
                entry("crypt", "/dev/mapper/x", "1G", None, None),
            ]),
        },
        LsblkDevice { entry: entry("loop", "/dev/loop0", "4K", None, None), children: None },
        LsblkDevice { entry: entry("disk", "/dev/sdc", "0B", None, None), children: None },
        LsblkDevice { entry: entry("disk", "/dev/zram0", "8G", None, None), children: None },
        LsblkDevice { entry: entry("disk", "/dev/sdd", "32G", Some("exfat"), None), children: None },
    ];
    let g = group_disks(&devs);
    assert_eq!(g.len(), 2);
    assert_eq!(g[0].path, "/dev/sdb");
    assert_eq!(g[0].model, "SanDisk");
    assert_eq!(g[0].parts.len(), 1);
    assert_eq!(g[0].parts[0].mountpoint.as_deref(), Some("/media/u/STICK"));
    assert_eq!(g[1].parts.len(), 1);
    assert_eq!(g[1].parts[0].path, "/dev/sdd");
    assert_eq!(g[1].parts[0].fstype.as_deref(), Some("exfat"));
}

#[test]
fn blank_fields_count_as_absent() {
    let mut e = entry("disk", "/dev/sde", "1G", Some("  "), None);
    e.label = Some("".into());
    let g = group_disks(&vec![LsblkDevice { entry: e, children: None }]);
    assert_eq!(g.len(), 1);
    assert!(g[0].parts.is_empty());
}

#[test]
fn user_mounts_and_actionable_partitions() {
    assert!(is_user_mount("/media/u/X"));
    assert!(is_user_mount("/run/media/u/X"));
    assert!(is_user_mount("/mnt/data"));
    assert!(!is_user_mount("/boot/efi"));
    assert!(part_actionable(&part("/dev/sda3", Some("ntfs"), None)));
    assert!(!part_actionable(&part("/dev/sda2", Some("swap"), None)));
    assert!(!part_actionable(&part("/dev/sda4", None, None)));
    assert!(!part_actionable(&part("/dev/sda1", Some("vfat"), Some("/boot/efi"))));
}

#[test]
fn shows_every_partition_of_an_external_disk_and_actionable_ones_of_an_internal_disk() {
    let d = DiskGroup {
        path: "/dev/nvme0n1".into(),
        size: "1T".into(),
        model: "".into(),
        tran: "nvme".into(),
        removable: false,
        parts: vec![
            part("/dev/nvme0n1p1", Some("vfat"), Some("/boot/efi")),
            part("/dev/nvme0n1p3", Some("ntfs"), None),
        ],
    };
    assert!(!is_external(&d));
    assert_eq!(shown_parts(&d, false), vec![1]);
    assert_eq!(shown_parts(&d, true), vec![0, 1]);
    assert!(any_mounted(&d));
    assert!(has_actionable_part(&d));
    assert_eq!(disk_title(&d), "/dev/nvme0n1 (1T)");
    assert_eq!(tran_tag(&d), "  [NVME]");
}

#[test]
fn titles_and_partition_names() {
    let d = DiskGroup {
        path: "/dev/sdb".into(),
        size: "14.9G".into(),
        model: "SanDisk".into(),
        tran: "".into(),
        removable: true,
        parts: vec![],
    };
    assert!(is_external(&d));
    assert_eq!(disk_title(&d), "SanDisk — /dev/sdb (14.9G)");
    assert_eq!(tran_tag(&d), "");
    let mut p = part("/dev/sdb1", Some("vfat"), None);
    assert_eq!(part_name(&p), "/dev/sdb1 (vfat, 1G)");
    p.label = Some("STICK".into());
    assert_eq!(part_name(&p), "STICK (vfat, 1G)");
    p.fstype = None;
    assert_eq!(part_name(&p), "STICK (1G)");
}

#[test]
fn udisks_scripts() {
    let d = "/dev/sdb1".to_string();
    assert_eq!(mount_script(&d), "udisksctl mount -b '/dev/sdb1' 2>&1");
    assert_eq!(unmount_script(&d), "udisksctl unmount -b '/dev/sdb1' 2>&1");
    assert_eq!(
        power_off_script(&"/dev/sdb".to_string()),
        "udisksctl power-off -b '/dev/sdb' 2>&1 && echo '/dev/sdb 안전 제거 완료 — 케이블을 뽑아도 됩니다.'"
    );
    assert_eq!(
        open_script(&"/media/u/X".to_string()),
        "nohup xdg-open '/media/u/X' >/dev/null 2>&1 & echo '파일 관리자로 열기: /media/u/X'"
    );
}

#[test]
fn disk_state_marks_busy_and_clears_after_the_command() {
    let mut s = DiskState::new();
    assert!(!s.scanned);
    let (a, r) = s.update(DiskMsg::Mount("/dev/sdb1".into()));
    assert!(matches!(a, DiskAction::Run(ref x) if x == "udisksctl mount -b '/dev/sdb1' 2>&1"));
    assert!(r.is_none());
    assert_eq!(s.running.as_deref(), Some("/dev/sdb1 마운트 중..."));
    let (a, r) = s.update(DiskMsg::Applied(CmdResult { success: true, output: "ok".into() }));
    assert!(matches!(a, DiskAction::Scan));
    assert_eq!(r.unwrap().output, "ok");
    assert!(s.running.is_none());
    let (a, _) = s.update(DiskMsg::Refreshed(vec![]));
    assert!(matches!(a, DiskAction::Idle));
    assert!(s.scanned);
}
