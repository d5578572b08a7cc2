//! Mount-table records: the structured form of one mount-table line, the
//! parser that produces it, and the classification of filesystem types
//! that filtering and deduplication rely on.

use vstd::prelude::*;

use crate::strutil::{dec_val, is_u32_dec, parse_u32, split_seq, split_str, str_eq};

verus! {

/// Errors of the report generator.
///
/// `MalformedRecord`: a mount-table line violates the expected shape;
/// `UnknownOutputField`: a requested output field name is not recognized.
#[derive(Debug, Clone, Copy, PartialEq, Eq)]
pub enum DfError {
    MalformedRecord,
    UnknownOutputField,
}

/// One mount-table record.
///
/// `major_dev`/`minor_dev` form the composite device identifier; several
/// records may share it (bind mounts, submounts). `optional_fields` is
/// `Some` only when the raw line carries fields before the `-` separator.
#[derive(Debug)]
pub struct MountInfo {
    pub mount_id: u32,
    pub parent_mount_id: u32,
    pub major_dev: u32,
    pub minor_dev: u32,
    pub root: String,
    pub mount_point: String,
    pub mount_options: Vec<String>,
    pub optional_fields: Option<Vec<String>>,
    pub fs_type: String,
    pub mount_source: String,
    pub super_options: Vec<String>,
}

/// Filesystem types whose backing store is reached over the network.
/// This classification is policy, kept here as one reference table.
pub open spec fn is_remote_fs_type(t: Seq<char>) -> bool {
    ||| t == "nfs"@
    ||| t == "nfs4"@
    ||| t == "cifs"@
    ||| t == "smbfs"@
    ||| t == "smb3"@
    ||| t == "afs"@
    ||| t == "9p"@
    ||| t == "fuse.sshfs"@
}

/// Virtual filesystem types backed by no persistent storage.
/// This classification is policy, kept here as one reference table.
pub open spec fn is_dummy_fs_type(t: Seq<char>) -> bool {
    ||| t == "proc"@
    ||| t == "sysfs"@
    ||| t == "tmpfs"@
    ||| t == "devtmpfs"@
    ||| t == "devpts"@
    ||| t == "cgroup"@
    ||| t == "cgroup2"@
    ||| t == "securityfs"@
    ||| t == "debugfs"@
    ||| t == "tracefs"@
    ||| t == "pstore"@
    ||| t == "bpf"@
    ||| t == "mqueue"@
    ||| t == "hugetlbfs"@
    ||| t == "configfs"@
    ||| t == "fusectl"@
    ||| t == "autofs"@
}

impl MountInfo {
    /// The composite device number: two records describe the same
    /// underlying device exactly when these are equal.
    pub open spec fn spec_dev(&self) -> u64 {
        ((self.major_dev as int) * 0x1_0000_0000 + (self.minor_dev as int)) as u64
    }

    pub fn dev(&self) -> (r: u64)
        ensures
            r == self.spec_dev(),
    {
        (self.major_dev as u64) * 0x1_0000_0000u64 + (self.minor_dev as u64)
    }

    pub fn is_remote(&self) -> (r: bool)
        ensures
            r == is_remote_fs_type(self.fs_type@),
    {
        let t = self.fs_type.as_str();
        str_eq(t, "nfs") || str_eq(t, "nfs4") || str_eq(t, "cifs") || str_eq(t, "smbfs") || str_eq(
            t,
            "smb3",
        ) || str_eq(t, "afs") || str_eq(t, "9p") || str_eq(t, "fuse.sshfs")
    }

    pub fn is_dummy(&self) -> (r: bool)
        ensures
            r == is_dummy_fs_type(self.fs_type@),
    {
        let t = self.fs_type.as_str();
        str_eq(t, "proc") || str_eq(t, "sysfs") || str_eq(t, "tmpfs") || str_eq(t, "devtmpfs")
            || str_eq(t, "devpts") || str_eq(t, "cgroup") || str_eq(t, "cgroup2") || str_eq(
            t,
            "securityfs",
        ) || str_eq(t, "debugfs") || str_eq(t, "tracefs") || str_eq(t, "pstore") || str_eq(t, "bpf")
            || str_eq(t, "mqueue") || str_eq(t, "hugetlbfs") || str_eq(t, "configfs") || str_eq(
            t,
            "fusectl",
        ) || str_eq(t, "autofs")
    }
}

/// Splits a comma-separated option string into its entries.
pub fn parse_options(options: &str) -> (v: Vec<String>)
    ensures
        v.deep_view() == split_seq(options@, ','),
{
    split_str(options, ',')
}

/// The index of the first `-` separator token at or after position 6,
/// where the optional fields of a mount-table line end.
pub open spec fn sep_index(w: Seq<Seq<char>>, lo: int) -> Option<int>
    decreases w.len() - lo,
{
    if lo < 0 || lo >= w.len() {
        None
    } else if w[lo] == "-"@ {
        Some(lo)
    } else {
        sep_index(w, lo + 1)
    }
}

proof fn lemma_sep_index(w: Seq<Seq<char>>, lo: int, i: int)
    requires
        0 <= lo <= i <= w.len(),
        forall|k: int| lo <= k < i ==> w[k] != "-"@,
        i == w.len() || w[i] == "-"@,
    ensures
        sep_index(w, lo) == (if i < w.len() {
            Some(i)
        } else {
            None::<int>
        }),
    decreases i - lo,
{
    if lo < i {
        lemma_sep_index(w, lo + 1, i);
    }
}

/// A well-formed mount-table line, seen as its space-separated fields:
/// six mandatory leading fields, a `-` separator somewhere after them
/// with at least three fields following, numeric identifiers, and a
/// `major:minor` device pair.
pub open spec fn wf_mount_line(w: Seq<Seq<char>>) -> bool {
    &&& sep_index(w, 6) is Some
    &&& sep_index(w, 6)->0 + 3 < w.len()
    &&& is_u32_dec(w[0])
    &&& is_u32_dec(w[1])
    &&& split_seq(w[2], ':').len() >= 2
    &&& is_u32_dec(split_seq(w[2], ':')[0])
    &&& is_u32_dec(split_seq(w[2], ':')[1])
}

/// How a parsed record corresponds to the fields of its line.
pub open spec fn record_matches(m: MountInfo, line: Seq<char>) -> bool {
    let w = split_seq(line, ' ');
    let j = sep_index(w, 6)->0;
    let d = split_seq(w[2], ':');
    &&& m.mount_id == dec_val(w[0])
    &&& m.parent_mount_id == dec_val(w[1])
    &&& m.major_dev == dec_val(d[0])
    &&& m.minor_dev == dec_val(d[1])
    &&& m.root@ == w[3]
    &&& m.mount_point@ == w[4]
    &&& m.mount_options.deep_view() == split_seq(w[5], ',')
    &&& (if j == 6 {
        m.optional_fields is None
    } else {
        m.optional_fields.deep_view() == Some(w.subrange(6, j))
    })
    &&& m.fs_type@ == w[j + 1]
    &&& m.mount_source@ == w[j + 2]
    &&& m.super_options.deep_view() == split_seq(w[j + 3], ',')
}

/// Parses one line of mount-table data, or rejects it as malformed.
/// Succeeds exactly on well-formed lines, and then recovers every field
/// of the record from the line.
pub fn parse_mountinfo(line: &str) -> (r: Result<MountInfo, DfError>)
    ensures
        match r {
            Ok(m) => wf_mount_line(split_seq(line@, ' ')) && record_matches(m, line@),
            Err(e) => e == DfError::MalformedRecord && !wf_mount_line(split_seq(line@, ' ')),
        },
{
    let w = split_str(line, ' ');
    let n = w.len();
    let ghost wv = w.deep_view();
    if n < 7 {
        assert(sep_index(wv, 6) is None);
        return Err(DfError::MalformedRecord);
    }
    // find the `-` separator after the optional fields
    let mut j: usize = 6;
    let mut found = false;
    while !found && j < n
        invariant
            6 <= j <= n,
            forall|k: int| 6 <= k < j ==> wv[k] != "-"@,
            found ==> j < n && wv[j as int] == "-"@,
        decreases n - j + (if found {
            0int
        } else {
            1
        }),
    {
        if str_eq(w[j].as_str(), "-") {
            found = true;
        } else {
            j += 1;
        }
    }
    if !found {
        proof {
            lemma_sep_index(wv, 6, n as int);
        }
        return Err(DfError::MalformedRecord);
    }
    proof {
        lemma_sep_index(wv, 6, j as int);
    }
    if n - j < 4 {
        return Err(DfError::MalformedRecord);
    }
    let mount_id = match parse_u32(w[0].as_str()) {
        Some(x) => x,
        None => {
            return Err(DfError::MalformedRecord);
        },
    };
    let parent_mount_id = match parse_u32(w[1].as_str()) {
        Some(x) => x,
        None => {
            return Err(DfError::MalformedRecord);
        },
    };
    let d = split_str(w[2].as_str(), ':');
    if d.len() < 2 {
        return Err(DfError::MalformedRecord);
    }
    let major_dev = match parse_u32(d[0].as_str()) {
        Some(x) => x,
        None => {
            return Err(DfError::MalformedRecord);
        },
    };
    let minor_dev = match parse_u32(d[1].as_str()) {
        Some(x) => x,
        None => {
            return Err(DfError::MalformedRecord);
        },
    };
    // optional fields, between position 6 and the separator
    let mut opt: Vec<String> = Vec::new();
    let mut k: usize = 6;
    while k < j
        invariant
            6 <= k <= j <= n,
            n == w.len(),
            wv == w.deep_view(),
            opt.deep_view() == wv.subrange(6, k as int),
        decreases j - k,
    {
        let ghost od = opt.deep_view();
        opt.push(w[k].clone());
        proof {
            assert(opt.deep_view() =~~= od + seq![wv[k as int]]);
            assert(od + seq![wv[k as int]] =~~= wv.subrange(6, k + 1));
        }
        k += 1;
    }
    let optional_fields = if j == 6 {
        None
    } else {
        Some(opt)
    };
    let m = MountInfo {
        mount_id,
        parent_mount_id,
        major_dev,
        minor_dev,
        root: w[3].clone(),
        mount_point: w[4].clone(),
        mount_options: split_str(w[5].as_str(), ','),
        optional_fields,
        fs_type: w[j + 1].clone(),
        mount_source: w[j + 2].clone(),
        super_options: split_str(w[j + 3].as_str(), ','),
    };
    Ok(m)
}

} // verus!
