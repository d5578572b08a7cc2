use dfrs::mountinfo::parse_mountinfo;
use dfrs::mountinfo::parse_options;
use dfrs::mountinfo::DfError;

#[test]
fn test_parse_mountinfo() {
    let line = "26 29 0:5 / /dev rw,nosuid,relatime shared:2 - devtmpfs dev rw,size=7631200k,nr_inodes=1907800,mode=755,inode64";
    let mntinfo = parse_mountinfo(line).unwrap();
    assert_eq!(mntinfo.mount_id, 26);
    assert_eq!(mntinfo.parent_mount_id, 29);
    assert_eq!(mntinfo.major_dev, 0);
    assert_eq!(mntinfo.minor_dev, 5);
    assert_eq!(mntinfo.root, "/");
    assert_eq!(mntinfo.mount_point, "/dev");
    assert_eq!(mntinfo.mount_options, ["rw", "nosuid", "relatime"]);
    assert_eq!(mntinfo.optional_fields, Some(vec!["shared:2".to_string()]));
    assert_eq!(mntinfo.fs_type, "devtmpfs");
    assert_eq!(mntinfo.mount_source, "dev");
    assert_eq!(
        mntinfo.super_options,
        [
            "rw",
            "size=7631200k",
            "nr_inodes=1907800",
            "mode=755",
            "inode64"
        ]
    );
    println!("{:?}", mntinfo);
}

#[test]
fn test_no_optional_fields() {
    let line = "26 29 0:5 / /dev rw,nosuid,relatime - devtmpfs dev rw,size=7631200k,nr_inodes=1907800,mode=755,inode64";
    let mntinfo = parse_mountinfo(line).unwrap();
    assert_eq!(mntinfo.mount_id, 26);
    assert_eq!(mntinfo.parent_mount_id, 29);
    assert_eq!(mntinfo.major_dev, 0);
    assert_eq!(mntinfo.minor_dev, 5);
    assert_eq!(mntinfo.root, "/");
    assert_eq!(mntinfo.mount_point, "/dev");
    assert_eq!(mntinfo.mount_options, ["rw", "nosuid", "relatime"]);
    assert!(mntinfo.optional_fields.is_none());
    assert_eq!(mntinfo.fs_type, "devtmpfs");
    assert_eq!(mntinfo.mount_source, "dev");
    assert_eq!(
        mntinfo.super_options,
        [
            "rw",
            "size=7631200k",
            "nr_inodes=1907800",
            "mode=755",
            "inode64"
        ]
    );
    println!("{:?}", mntinfo);
}

#[test]
fn test_two_optional_fields() {
    let line = "36 25 0:31 / /sys/fs/cgroup rw,nosuid shared:9 master:1 - cgroup2 cgroup2 rw,nsdelegate";
    let mnt = parse_mountinfo(line).unwrap();
    assert_eq!(mnt.mount_id, 36);
    assert_eq!(mnt.parent_mount_id, 25);
    assert_eq!(mnt.major_dev, 0);
    assert_eq!(mnt.minor_dev, 31);
    assert_eq!(mnt.root, "/");
    assert_eq!(mnt.mount_point, "/sys/fs/cgroup");
    assert_eq!(mnt.mount_options, ["rw", "nosuid"]);
    assert_eq!(
        mnt.optional_fields,
        Some(vec!["shared:9".to_string(), "master:1".to_string()])
    );
    assert_eq!(mnt.fs_type, "cgroup2");
    assert_eq!(mnt.mount_source, "cgroup2");
    assert_eq!(mnt.super_options, ["rw", "nsdelegate"]);
}

#[test]
fn test_malformed_mount_id() {
    let line = "x 29 0:5 / /dev rw - devtmpfs dev rw";
    assert_eq!(parse_mountinfo(line).unwrap_err(), DfError::MalformedRecord);
}

#[test]
fn test_missing_separator() {
    let line = "26 29 0:5 / /dev rw devtmpfs dev rw";
    assert_eq!(parse_mountinfo(line).unwrap_err(), DfError::MalformedRecord);
}

#[test]
fn test_short_tail_after_separator() {
    let line = "26 29 0:5 / /dev rw - devtmpfs dev";
    assert_eq!(parse_mountinfo(line).unwrap_err(), DfError::MalformedRecord);
}

#[test]
fn test_malformed_device_pair() {
    let line = "26 29 05 / /dev rw - devtmpfs dev rw";
    assert_eq!(parse_mountinfo(line).unwrap_err(), DfError::MalformedRecord);
}

#[test]
fn test_parse_options_splits_on_commas() {
    assert_eq!(parse_options("rw,nosuid,relatime"), ["rw", "nosuid", "relatime"]);
    assert_eq!(parse_options("rw"), ["rw"]);
    assert_eq!(parse_options(""), [""]);
}

#[test]
fn test_dev_composite() {
    let a = parse_mountinfo("1 1 8:1 / / rw - ext4 /dev/sda1 rw").unwrap();
    let b = parse_mountinfo("2 1 8:1 / /mnt rw - ext4 /dev/sda1 rw").unwrap();
    let c = parse_mountinfo("3 1 8:2 / /home rw - ext4 /dev/sda2 rw").unwrap();
    assert_eq!(a.dev(), b.dev());
    assert_ne!(a.dev(), c.dev());
}

#[test]
fn test_fs_type_classification() {
    let nfs = parse_mountinfo("7 1 0:50 / /mnt/share rw - nfs server:/export rw").unwrap();
    assert!(nfs.is_remote());
    assert!(!nfs.is_dummy());
    let proc = parse_mountinfo("8 1 0:5 / /proc rw - proc proc rw").unwrap();
    assert!(proc.is_dummy());
    assert!(!proc.is_remote());
    let ext4 = parse_mountinfo("9 1 8:1 / / rw - ext4 /dev/sda1 rw").unwrap();
    assert!(!ext4.is_dummy());
    assert!(!ext4.is_remote());
}
