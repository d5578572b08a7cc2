use dfrs::cli::Options;
use dfrs::dedup::filter_mountinfo_list;
use dfrs::mountinfo::{parse_mountinfo, MountInfo};

fn mk(line: &str) -> MountInfo {
    parse_mountinfo(line).unwrap()
}

fn sample_lines() -> Vec<&'static str> {
    vec![
        "1 1 8:1 / / rw - ext4 /dev/sda1 rw",
        "2 1 8:1 / /mnt/bind rw - ext4 /dev/sda1 rw",
        "3 1 8:2 / /home rw - ext4 /dev/sda2 rw",
        "4 1 0:5 / /dev rw - devtmpfs dev rw",
        "5 1 0:50 / /mnt/a rw - nfs server:/export rw",
        "6 1 0:50 / /mnt/b rw - nfs server:/export rw",
    ]
}

fn parse_all(lines: &[&str]) -> Vec<MountInfo> {
    lines.iter().map(|l| mk(l)).collect()
}

fn mount_ids(list: &[MountInfo]) -> Vec<u32> {
    list.iter().map(|m| m.mount_id).collect()
}

#[test]
fn test_dedup_idempotent() {
    let mut options = Options::new();
    options.show_local_fs = false;
    let once = filter_mountinfo_list(parse_all(&sample_lines()), &options);
    let ids_once = mount_ids(&once);
    let twice = filter_mountinfo_list(once, &options);
    assert_eq!(ids_once, mount_ids(&twice));
}

#[test]
fn test_dedup_unique_devices() {
    let mut options = Options::new();
    options.show_local_fs = false;
    options.show_all_fs = true;
    let out = filter_mountinfo_list(parse_all(&sample_lines()), &options);
    for i in 0..out.len() {
        for j in 0..out.len() {
            if i != j {
                assert_ne!(out[i].dev(), out[j].dev());
            }
        }
    }
}

#[test]
fn test_bind_mount_prefers_mount_nearer_root() {
    let options = Options::new();
    let list = vec![
        mk("1 1 8:1 / / rw - ext4 /dev/sda1 rw"),
        mk("2 1 8:1 / /mnt/bind rw - ext4 /dev/sda1 rw"),
    ];
    let out = filter_mountinfo_list(list, &options);
    assert_eq!(out.len(), 1);
    assert_eq!(out[0].mount_point, "/");

    // the same pair in the other order still keeps the entry at /
    let options = Options::new();
    let list = vec![
        mk("2 1 8:1 / /mnt/bind rw - ext4 /dev/sda1 rw"),
        mk("1 1 8:1 / / rw - ext4 /dev/sda1 rw"),
    ];
    let out = filter_mountinfo_list(list, &options);
    assert_eq!(out.len(), 1);
    assert_eq!(out[0].mount_point, "/");
}

#[test]
fn test_remote_duplicates_kept_as_one_without_grand_total() {
    let mut options = Options::new();
    options.show_local_fs = false;
    let list = vec![
        mk("5 1 0:50 / /mnt/a rw - nfs server:/export rw"),
        mk("6 1 0:50 / /mnt/b rw - nfs server:/export rw"),
    ];
    let out = filter_mountinfo_list(list, &options);
    assert_eq!(out.len(), 1);
    assert_eq!(out[0].mount_point, "/mnt/a");
}

#[test]
fn test_tmpfs_whitelist_and_blacklist() {
    // dummy filesystems are dropped by default
    let options = Options::new();
    let list = vec![mk("10 1 0:40 / /tmp rw - tmpfs tmpfs rw")];
    let out = filter_mountinfo_list(list, &options);
    assert_eq!(out.len(), 0);

    // a whitelist entry brings the type back
    let mut options = Options::new();
    options.listed_fs = vec!["tmpfs".to_string()];
    let list = vec![mk("10 1 0:40 / /tmp rw - tmpfs tmpfs rw")];
    let out = filter_mountinfo_list(list, &options);
    assert_eq!(out.len(), 1);
    assert_eq!(out[0].fs_type, "tmpfs");

    // the blacklist wins over the whitelist
    let mut options = Options::new();
    options.listed_fs = vec!["tmpfs".to_string()];
    options.excluded_fs = vec!["tmpfs".to_string()];
    let list = vec![mk("10 1 0:40 / /tmp rw - tmpfs tmpfs rw")];
    let out = filter_mountinfo_list(list, &options);
    assert_eq!(out.len(), 0);
}

#[test]
fn test_dedup_empty_input() {
    let options = Options::new();
    let out = filter_mountinfo_list(Vec::new(), &options);
    assert!(out.is_empty());
}

#[test]
fn test_local_only_drops_remote() {
    let options = Options::new();
    let list = vec![
        mk("1 1 8:1 / / rw - ext4 /dev/sda1 rw"),
        mk("5 1 0:50 / /mnt/a rw - nfs server:/export rw"),
    ];
    let out = filter_mountinfo_list(list, &options);
    assert_eq!(mount_ids(&out), [1]);
}

#[test]
fn test_duplicate_mount_point_keeps_earlier() {
    let options = Options::new();
    let list = vec![
        mk("1 1 8:1 / /data rw - ext4 /dev/sda1 rw"),
        mk("2 1 8:1 / /data rw - ext4 /dev/sdb1 rw"),
    ];
    let out = filter_mountinfo_list(list, &options);
    assert_eq!(out.len(), 1);
    assert_eq!(out[0].mount_source, "/dev/sda1");
}

#[test]
fn test_later_record_replaces_incumbent() {
    let options = Options::new();
    // equal-length mount points and roots: no keep rule applies, the
    // challenger replaces the incumbent in place
    let list = vec![
        mk("1 1 8:1 / /a rw - ext4 /dev/sda1 rw"),
        mk("2 1 8:1 / /b rw - ext4 /dev/sda1 rw"),
        mk("3 1 8:2 / /c rw - ext4 /dev/sda2 rw"),
    ];
    let out = filter_mountinfo_list(list, &options);
    assert_eq!(mount_ids(&out), [2, 3]);
}
