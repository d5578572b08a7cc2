use dfrs::cli::Options;
use dfrs::dedup::filter_mountinfo_list;
use dfrs::mountinfo::{parse_mountinfo, MountInfo};
use dfrs::report::{get_all_entries, usage_row};
use dfrs::usage::{get_dev, FsUsage};

fn mk(line: &str) -> MountInfo {
    parse_mountinfo(line).unwrap()
}

fn three_mounts() -> Vec<MountInfo> {
    vec![
        mk("1 1 8:1 / / rw - ext4 /dev/sda1 rw"),
        mk("2 1 0:5 / /proc rw - proc proc rw"),
        mk("3 1 0:50 / /mnt/share rw - nfs server:/export rw"),
    ]
}

#[test]
fn test_end_to_end_local_only() {
    // local-only defaults: the proc pseudo filesystem and the remote
    // share drop out, only the root mount is reported
    let options = Options::new();
    let kept = filter_mountinfo_list(three_mounts(), &options);
    assert_eq!(kept.len(), 1);
    assert_eq!(kept[0].mount_point, "/");

    let table = get_all_entries(three_mounts(), &options);
    assert_eq!(table.content.len(), 1);
    let row = &table.content[0];
    assert_eq!(row.len(), 12);
    assert_eq!(row[0], "/dev/sda1");
    assert_eq!(row[1], "ext4");
    assert_eq!(row[11], "/");
    let rendered = table.to_string();
    assert!(rendered.contains("Filesystem"));
    assert!(rendered.contains("/dev/sda1"));
}

#[test]
fn test_get_dev_skips_filtered_mount() {
    let options = Options::new();
    let proc = mk("2 1 0:5 / /proc rw - proc proc rw");
    assert!(get_dev(proc, &options).is_none());
    let nfs = mk("3 1 0:50 / /mnt/share rw - nfs server:/export rw");
    assert!(get_dev(nfs, &options).is_none());
}

#[test]
fn test_get_dev_stat_failure_is_silent() {
    let options = Options::new();
    let gone = mk("4 1 8:9 / /surely/not/a/mount/point rw - ext4 /dev/sdz9 rw");
    assert!(get_dev(gone, &options).is_none());
}

#[test]
fn test_get_dev_on_root() {
    let options = Options::new();
    let root = mk("1 1 8:1 / / rw - ext4 /dev/sda1 rw");
    let usage = get_dev(root, &options).unwrap();
    assert_eq!(usage.target, "/");
    assert_eq!(usage.fstype, "ext4");
    assert_eq!(usage.source, "/dev/sda1");
    // the statistics of a real filesystem: consistent and nonempty
    assert!(usage.size > 0);
    assert!(usage.used <= usage.size);
    assert!(usage.pcent <= 100);
    assert!(usage.ipcent <= 100);
}

#[test]
fn test_usage_row_rendering() {
    let mut u = FsUsage::new();
    u.source = "/dev/sda1".to_string();
    u.fstype = "ext4".to_string();
    u.target = "/".to_string();
    u.itotal = 100;
    u.iused = 25;
    u.iavail = 75;
    u.ipcent = 25;
    u.size = 1000;
    u.used = 400;
    u.avail = 600;
    u.pcent = 40;
    let row = usage_row(&u);
    assert_eq!(
        row,
        [
            "/dev/sda1", "ext4", "100", "25", "75", "25%", "1000", "400", "600", "40%", "-", "/"
        ]
    );
}

#[test]
fn test_usage_row_dash_for_zero_inodes() {
    let u = FsUsage::new();
    let row = usage_row(&u);
    assert_eq!(row[5], "-");
    assert_eq!(row[9], "0%");
}

#[test]
fn test_empty_report() {
    // every mount filtered out: an empty table, the no-filesystems case
    let options = Options::new();
    let table = get_all_entries(
        vec![mk("2 1 0:5 / /proc rw - proc proc rw")],
        &options,
    );
    assert!(table.is_empty());
}
