use dfrs::cli::Options;
use dfrs::mountinfo::DfError;
use dfrs::report::options_to_fields;
use dfrs::usage::{fieldname_to_label, percent_round_up, FsUsage};

#[test]
fn test_percent_zero_denominator() {
    assert_eq!(percent_round_up(0, 0), 0);
}

#[test]
fn test_percent_zero_used() {
    assert_eq!(percent_round_up(0, 5), 0);
    assert_eq!(percent_round_up(0, 1_000_000), 0);
}

#[test]
fn test_percent_full() {
    assert_eq!(percent_round_up(5, 5), 100);
    assert_eq!(percent_round_up(1, 1), 100);
    assert_eq!(percent_round_up(u64::MAX, u64::MAX), 100);
}

#[test]
fn test_percent_rounds_up() {
    assert_eq!(percent_round_up(1, 3), 34);
    assert_eq!(percent_round_up(2, 3), 67);
    assert_eq!(percent_round_up(1, 101), 1);
    assert_eq!(percent_round_up(1, 1000), 1);
}

#[test]
fn test_percent_exact() {
    assert_eq!(percent_round_up(1, 100), 1);
    assert_eq!(percent_round_up(50, 100), 50);
    assert_eq!(percent_round_up(1, 4), 25);
}

#[test]
fn test_fsusage_new() {
    let u = FsUsage::new();
    assert_eq!(u.source, "-");
    assert_eq!(u.fstype, "-");
    assert_eq!(u.file, "-");
    assert_eq!(u.target, "-");
    assert_eq!(u.size, 0);
    assert_eq!(u.itotal, 0);
    assert_eq!(u.pcent, 0);
    assert_eq!(u.ipcent, 0);
}

#[test]
fn test_fieldname_to_label() {
    assert_eq!(fieldname_to_label("source"), "Filesystem");
    assert_eq!(fieldname_to_label("fstype"), "Type");
    assert_eq!(fieldname_to_label("target"), "Mounted on");
    assert_eq!(fieldname_to_label("size"), "1K-blocks");
    assert_eq!(fieldname_to_label("pcent"), "Use%");
    assert_eq!(fieldname_to_label("ipcent"), "IUse%");
    assert_eq!(fieldname_to_label("bogus"), "");
}

#[test]
fn test_options_to_fields_default() {
    let options = Options::new();
    let fields = options_to_fields(&options).unwrap();
    assert_eq!(
        fields,
        ["Filesystem", "1K-blocks", "Used", "Avail", "Use%", "File", "Mounted on"]
    );
}

#[test]
fn test_options_to_fields_inodes() {
    let mut options = Options::new();
    options.inodes = true;
    let fields = options_to_fields(&options).unwrap();
    assert_eq!(
        fields,
        ["Filesystem", "Inodes", "IUsed", "IFree", "IUse%", "Mounted on"]
    );
}

#[test]
fn test_options_to_fields_all() {
    let mut options = Options::new();
    options.output_all_fields = true;
    let fields = options_to_fields(&options).unwrap();
    assert_eq!(fields.len(), 12);
    assert_eq!(fields[0], "Filesystem");
    assert_eq!(fields[11], "Mounted on");
}

#[test]
fn test_options_to_fields_explicit_list() {
    let mut options = Options::new();
    options.field_list = vec!["source".to_string(), "pcent".to_string()];
    let fields = options_to_fields(&options).unwrap();
    assert_eq!(fields, ["Filesystem", "Use%"]);
}

#[test]
fn test_options_to_fields_unknown_name() {
    let mut options = Options::new();
    options.field_list = vec!["source".to_string(), "nope".to_string()];
    assert_eq!(
        options_to_fields(&options).unwrap_err(),
        DfError::UnknownOutputField
    );
}

#[test]
fn test_options_new_defaults() {
    let options = Options::new();
    assert!(options.show_local_fs);
    assert!(!options.show_all_fs);
    assert!(options.human_readable);
    assert!(!options.print_grand_total);
    assert!(options.listed_fs.is_empty());
    assert!(options.excluded_fs.is_empty());
    assert!(options.field_list.is_empty());
}
