//! The report pipeline: which columns a configuration selects, how one
//! usage snapshot becomes a table row, and the assembly of the full
//! table from a mount list.

use vstd::prelude::*;

use crate::cli::Options;
use crate::dedup::{dedup_seq, filter_mountinfo_list};
use crate::mountinfo::{DfError, MountInfo};
use crate::strutil::dec_str;
use crate::table::{FieldAlign, Table};
use crate::usage::{
    fieldname_to_label, get_dev, is_known_field, label_of, some_stat_matches, stat_ok,
    usage_matches, FsStat, FsUsage,
};

verus! {

/// Every column label, in display order.
pub open spec fn all_labels() -> Seq<Seq<char>> {
    seq![
        "Filesystem"@,
        "Type"@,
        "Inodes"@,
        "IUsed"@,
        "IFree"@,
        "IUse%"@,
        "1K-blocks"@,
        "Used"@,
        "Avail"@,
        "Use%"@,
        "File"@,
        "Mounted on"@,
    ]
}

/// The default column labels of the block-usage view.
pub open spec fn block_labels() -> Seq<Seq<char>> {
    seq!["Filesystem"@, "1K-blocks"@, "Used"@, "Avail"@, "Use%"@, "File"@, "Mounted on"@]
}

/// The column labels of the inode view.
pub open spec fn inode_labels() -> Seq<Seq<char>> {
    seq!["Filesystem"@, "Inodes"@, "IUsed"@, "IFree"@, "IUse%"@, "Mounted on"@]
}

/// Resolves the configuration to the list of column labels to show:
/// all of them, the explicitly requested field list (rejected whole if
/// any name is unknown), or the inode or block default set.
pub fn options_to_fields(options: &Options) -> (r: Result<Vec<String>, DfError>)
    ensures
        match r {
            Ok(v) => {
                &&& options.output_all_fields ==> v.deep_view() == all_labels()
                &&& (!options.output_all_fields && options.field_list@.len() > 0) ==> {
                    &&& v@.len() == options.field_list@.len()
                    &&& forall|i: int|
                        0 <= i < v@.len() ==> is_known_field(
                            #[trigger] options.field_list.deep_view()[i],
                        ) && v.deep_view()[i] == label_of(options.field_list.deep_view()[i])
                }
                &&& (!options.output_all_fields && options.field_list@.len() == 0
                    && options.inodes) ==> v.deep_view() == inode_labels()
                &&& (!options.output_all_fields && options.field_list@.len() == 0
                    && !options.inodes) ==> v.deep_view() == block_labels()
            },
            Err(e) => {
                &&& e == DfError::UnknownOutputField
                &&& !options.output_all_fields
                &&& options.field_list@.len() > 0
                &&& exists|i: int|
                    0 <= i < options.field_list@.len() && !is_known_field(
                        #[trigger] options.field_list.deep_view()[i],
                    )
            },
        },
{
    if options.output_all_fields {
        let mut v: Vec<String> = Vec::new();
        v.push(String::from_str("Filesystem"));
        v.push(String::from_str("Type"));
        v.push(String::from_str("Inodes"));
        v.push(String::from_str("IUsed"));
        v.push(String::from_str("IFree"));
        v.push(String::from_str("IUse%"));
        v.push(String::from_str("1K-blocks"));
        v.push(String::from_str("Used"));
        v.push(String::from_str("Avail"));
        v.push(String::from_str("Use%"));
        v.push(String::from_str("File"));
        v.push(String::from_str("Mounted on"));
        proof {
            assert(v.deep_view() =~~= all_labels());
        }
        return Ok(v);
    }
    if options.field_list.len() > 0 {
        let ghost ldv = options.field_list.deep_view();
        let n = options.field_list.len();
        let mut v: Vec<String> = Vec::new();
        let mut i: usize = 0;
        while i < n
            invariant
                i <= n,
                n == options.field_list@.len(),
                ldv == options.field_list.deep_view(),
                v@.len() == i,
                forall|j: int|
                    0 <= j < i ==> is_known_field(#[trigger] ldv[j]) && v.deep_view()[j]
                        == label_of(ldv[j]),
            decreases n - i,
        {
            let name = fieldname_to_label(options.field_list[i].as_str());
            proof {
                crate::usage::lemma_label_empty_iff_unknown(ldv[i as int]);
            }
            if name.unicode_len() == 0 {
                return Err(DfError::UnknownOutputField);
            }
            let ghost vdv = v.deep_view();
            v.push(String::from_str(name));
            proof {
                assert(v.deep_view() =~~= vdv.push(label_of(ldv[i as int])));
            }
            i += 1;
        }
        return Ok(v);
    }
    if options.inodes {
        let mut v: Vec<String> = Vec::new();
        v.push(String::from_str("Filesystem"));
        v.push(String::from_str("Inodes"));
        v.push(String::from_str("IUsed"));
        v.push(String::from_str("IFree"));
        v.push(String::from_str("IUse%"));
        v.push(String::from_str("Mounted on"));
        proof {
            assert(v.deep_view() =~~= inode_labels());
        }
        return Ok(v);
    }
    let mut v: Vec<String> = Vec::new();
    v.push(String::from_str("Filesystem"));
    v.push(String::from_str("1K-blocks"));
    v.push(String::from_str("Used"));
    v.push(String::from_str("Avail"));
    v.push(String::from_str("Use%"));
    v.push(String::from_str("File"));
    v.push(String::from_str("Mounted on"));
    proof {
        assert(v.deep_view() =~~= block_labels());
    }
    Ok(v)
}

/// The twelve cells of one report row, in the order of `all_labels`:
/// textual fields as they stand, numbers in decimal, percentages with
/// a `%` sign, an inode percentage of `-` when there are no inodes,
/// and the unsupported file column as `-`.
pub fn usage_row(u: &FsUsage) -> (r: Vec<String>)
    ensures
        r@.len() == 12,
        r.deep_view()[0] == u.source@,
        r.deep_view()[1] == u.fstype@,
        r.deep_view()[2] == dec_str(u.itotal as nat),
        r.deep_view()[3] == dec_str(u.iused as nat),
        r.deep_view()[4] == dec_str(u.iavail as nat),
        r.deep_view()[5] == (if u.itotal == 0 {
            "-"@
        } else {
            dec_str(u.ipcent as nat) + "%"@
        }),
        r.deep_view()[6] == dec_str(u.size as nat),
        r.deep_view()[7] == dec_str(u.used as nat),
        r.deep_view()[8] == dec_str(u.avail as nat),
        r.deep_view()[9] == dec_str(u.pcent as nat) + "%"@,
        r.deep_view()[10] == "-"@,
        r.deep_view()[11] == u.target@,
{
    let mut row: Vec<String> = Vec::new();
    row.push(u.source.clone());
    row.push(u.fstype.clone());
    row.push(crate::strutil::u64_to_string(u.itotal));
    row.push(crate::strutil::u64_to_string(u.iused));
    row.push(crate::strutil::u64_to_string(u.iavail));
    if u.itotal == 0 {
        row.push(String::from_str("-"));
    } else {
        let mut p = crate::strutil::u64_to_string(u.ipcent as u64);
        p.append("%");
        row.push(p);
    }
    row.push(crate::strutil::u64_to_string(u.size));
    row.push(crate::strutil::u64_to_string(u.used));
    row.push(crate::strutil::u64_to_string(u.avail));
    let mut p = crate::strutil::u64_to_string(u.pcent as u64);
    p.append("%");
    row.push(p);
    row.push(String::from_str("-"));
    row.push(u.target.clone());
    row
}

/// A row whose textual cells carry the source, type and mount point
/// of the given record.
pub open spec fn row_from_mount(row: Vec<String>, m: MountInfo) -> bool {
    &&& row@.len() == 12
    &&& row.deep_view()[0] == m.mount_source@
    &&& row.deep_view()[1] == m.fs_type@
    &&& row.deep_view()[11] == m.mount_point@
}

/// A row that reports one record of the deduplicated mount list.
pub open spec fn row_sourced(row: Vec<String>, list: Seq<MountInfo>, opts: Options) -> bool {
    exists|k: int|
        0 <= k < dedup_seq(list, opts).len() && #[trigger] row_from_mount(
            row,
            dedup_seq(list, opts)[k],
        )
}

/// Builds the full report table: deduplicates the mount list, queries
/// each surviving mount, and adds one row per snapshot obtained. The
/// table always carries every column, at most one row can come out of
/// each deduplicated mount, and every row names the source, type and
/// mount point of one of them.
pub fn get_all_entries(mountlist: Vec<MountInfo>, options: &Options) -> (t: Table)
    ensures
        t.wf(),
        t.fields.deep_view() == all_labels(),
        t.content@.len() <= dedup_seq(mountlist@, *options).len(),
        forall|r: int|
            0 <= r < t.content@.len() ==> row_sourced(t.content@[r], mountlist@, *options),
{
    let mut field_names: Vec<&str> = Vec::new();
    field_names.push("Filesystem");
    field_names.push("Type");
    field_names.push("Inodes");
    field_names.push("IUsed");
    field_names.push("IFree");
    field_names.push("IUse%");
    field_names.push("1K-blocks");
    field_names.push("Used");
    field_names.push("Avail");
    field_names.push("Use%");
    field_names.push("File");
    field_names.push("Mounted on");
    let mut table = Table::new(&field_names);
    proof {
        assert(table.fields.deep_view() =~~= all_labels());
    }
    table.set_field_align("Filesystem", FieldAlign::Left);
    table.set_field_align("Type", FieldAlign::Left);
    table.set_field_align("Inodes", FieldAlign::Right);
    table.set_field_align("IUsed", FieldAlign::Right);
    table.set_field_align("IFree", FieldAlign::Right);
    table.set_field_align("IUse%", FieldAlign::Right);
    table.set_field_align("1K-blocks", FieldAlign::Right);
    table.set_field_align("Used", FieldAlign::Right);
    table.set_field_align("Avail", FieldAlign::Right);
    table.set_field_align("Use%", FieldAlign::Right);
    table.set_field_align("File", FieldAlign::Left);
    table.set_field_align("Mounted on", FieldAlign::Left);
    let ghost list0 = mountlist@;
    let mut rest = filter_mountinfo_list(mountlist, options);
    let ghost dd = dedup_seq(list0, *options);
    while rest.len() > 0
        invariant
            table.wf(),
            table.fields.deep_view() == all_labels(),
            dd == dedup_seq(list0, *options),
            rest@ == dd.subrange(dd.len() - rest@.len(), dd.len() as int),
            table.content@.len() + rest@.len() <= dd.len(),
            forall|r: int|
                0 <= r < table.content@.len() ==> row_sourced(table.content@[r], list0, *options),
        decreases rest.len(),
    {
        let ghost k = dd.len() - rest@.len();
        let mount = rest.remove(0);
        let ghost mnt = mount;
        proof {
            assert(mount == dd[k]);
            assert(rest@ =~= dd.subrange(dd.len() - rest@.len(), dd.len() as int));
        }
        if let Some(fsu) = get_dev(mount, options) {
            let row = usage_row(&fsu);
            proof {
                assert(some_stat_matches(fsu, mnt));
                let st = choose|st: FsStat| stat_ok(st) && #[trigger] usage_matches(fsu, mnt, st);
                assert(usage_matches(fsu, mnt, st));
                assert(row_from_mount(row, dd[k]));
            }
            let mut refs: Vec<&str> = Vec::new();
            let mut i: usize = 0;
            while i < row.len()
                invariant
                    i <= row@.len(),
                    refs@.len() == i,
                    forall|j: int| 0 <= j < i ==> refs.deep_view()[j] == row.deep_view()[j],
                decreases row@.len() - i,
            {
                refs.push(row[i].as_str());
                i += 1;
            }
            proof {
                assert(refs.deep_view() =~~= row.deep_view());
            }
            let ghost old_rows = table.content@;
            table.add_row(&refs);
            proof {
                assert(table.content@[old_rows.len() as int].deep_view() == row.deep_view());
                assert(row_from_mount(table.content@[old_rows.len() as int], dd[k]));
                assert(row_sourced(table.content@[old_rows.len() as int], list0, *options));
            }
        }
    }
    table
}

} // verus!
