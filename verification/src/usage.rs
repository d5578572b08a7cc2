//! Usage snapshots: per-mount space and inode statistics, derived from
//! the raw filesystem counters, with percentages rounded up and block
//! quantities normalized to 1K units.

use vstd::arithmetic::div_mod::{
    lemma_div_is_ordered, lemma_div_multiples_vanish, lemma_div_of0, lemma_fundamental_div_mod,
    lemma_mod_multiples_basic, lemma_small_mod,
};
use vstd::arithmetic::mul::lemma_mul_upper_bound;
use vstd::prelude::*;

use crate::cli::Options;
use crate::dedup::{mount_skipped, must_skip};
use crate::mountinfo::MountInfo;
use crate::strutil::{in_str_list, list_contains, str_eq};

verus! {

/// The usage snapshot of one mount: block quantities in 1K units,
/// inode counts, and rounded-up percentages.
pub struct FsUsage {
    pub source: String,
    pub fstype: String,
    pub file: String,
    pub target: String,
    pub itotal: u64,
    pub iused: u64,
    pub iavail: u64,
    pub ipcent: u32,
    pub size: u64,
    pub used: u64,
    pub avail: u64,
    pub pcent: u32,
}

impl FsUsage {
    /// An empty snapshot: every textual field reads `-`, every number 0.
    pub fn new() -> (r: FsUsage)
        ensures
            r.source@ == "-"@,
            r.fstype@ == "-"@,
            r.file@ == "-"@,
            r.target@ == "-"@,
            r.itotal == 0 && r.iused == 0 && r.iavail == 0 && r.ipcent == 0,
            r.size == 0 && r.used == 0 && r.avail == 0 && r.pcent == 0,
    {
        FsUsage {
            source: String::from_str("-"),
            fstype: String::from_str("-"),
            file: String::from_str("-"),
            target: String::from_str("-"),
            itotal: 0,
            iused: 0,
            iavail: 0,
            ipcent: 0,
            size: 0,
            used: 0,
            avail: 0,
            pcent: 0,
        }
    }
}

/// The percentage `a` is of `b`, rounded up to the next whole percent;
/// 0 when `b` is 0.
pub open spec fn percent_ceil(a: nat, b: nat) -> nat {
    if b == 0 {
        0
    } else if (100 * a) % b == 0 {
        (100 * a) / b
    } else {
        (100 * a) / b + 1
    }
}

/// Rounds the ratio `a/b` up to a whole percentage. For `a <= b` the
/// result lies in `[0, 100]`; exact ratios are never rounded, so 0
/// used yields exactly 0% and a full `a == b > 0` yields exactly 100%.
pub fn percent_round_up(a: u64, b: u64) -> (r: u32)
    requires
        a <= b,
    ensures
        r == percent_ceil(a as nat, b as nat),
        r <= 100,
        b == 0 ==> r == 0,
        a == 0 ==> r == 0,
        a == b && b > 0 ==> r == 100,
{
    if b == 0 {
        return 0;
    }
    let num: u128 = 100 * (a as u128);
    let den: u128 = b as u128;
    let q: u128 = num / den;
    let rem: u128 = num % den;
    proof {
        lemma_div_is_ordered(100 * (a as int), 100 * (b as int), b as int);
        lemma_div_multiples_vanish(100, b as int);
        assert(q <= 100);
        if a == 0 {
            lemma_div_of0(b as int);
            lemma_small_mod(0, b as nat);
        }
        if a == b {
            lemma_mod_multiples_basic(100, b as int);
        }
    }
    if rem == 0 {
        q as u32
    } else {
        proof {
            if q == 100 {
                lemma_fundamental_div_mod(num as int, den as int);
                assert(false);
            }
        }
        (q + 1) as u32
    }
}

/// The raw counters of the filesystem-statistics query for one mount
/// point: block counts in `fragment_size` units, and inode counts.
pub struct FsStat {
    pub blocks: u64,
    pub blocks_free: u64,
    pub blocks_available: u64,
    pub fragment_size: u64,
    pub files: u64,
    pub files_available: u64,
}

/// Relies on nix::sys::statvfs::statvfs: it fills a statvfs structure
/// for the path or fails with the underlying errno; only the raw
/// counters are carried over here. Nothing is assumed of the values
/// the system reports, nor of which paths succeed.
#[verifier::external_body]
fn stat_mount_point(path: &str) -> (r: Option<FsStat>) {
    let s = nix::sys::statvfs::statvfs(path).ok()?;
    Some(FsStat {
        blocks: s.blocks() as u64,
        blocks_free: s.blocks_free() as u64,
        blocks_available: s.blocks_available() as u64,
        fragment_size: s.fragment_size() as u64,
        files: s.files() as u64,
        files_available: s.files_available() as u64,
    })
}

/// Statistics a snapshot can be derived from: free counts within the
/// totals, and every normalized 1K quantity representable in 64 bits.
pub open spec fn stat_ok(st: FsStat) -> bool {
    &&& st.blocks_free <= st.blocks
    &&& st.files_available <= st.files
    &&& st.blocks * st.fragment_size / 1024 <= u64::MAX
    &&& (st.blocks - st.blocks_free) * st.fragment_size / 1024 <= u64::MAX
    &&& st.blocks_available * st.fragment_size / 1024 <= u64::MAX
    &&& (st.blocks - st.blocks_free) * st.fragment_size / 1024 + st.blocks_available
        * st.fragment_size / 1024 <= u64::MAX
}

/// How a snapshot is derived from a mount record and its statistics:
/// block quantities are normalized to 1K units, `used` is total minus
/// free, and both percentages are `used` against `used + available`,
/// rounded up, or 0 when the total is 0.
pub open spec fn usage_matches(u: FsUsage, m: MountInfo, st: FsStat) -> bool {
    let size = st.blocks * st.fragment_size / 1024;
    let used = (st.blocks - st.blocks_free) * st.fragment_size / 1024;
    let avail = st.blocks_available * st.fragment_size / 1024;
    &&& u.size == size
    &&& u.used == used
    &&& u.avail == avail
    &&& u.pcent == (if size != 0 {
        percent_ceil(used as nat, (used + avail) as nat)
    } else {
        0
    })
    &&& u.itotal == st.files
    &&& u.iused == st.files - st.files_available
    &&& u.iavail == st.files_available
    &&& u.ipcent == (if st.files != 0 {
        percent_ceil(
            (st.files - st.files_available) as nat,
            ((st.files - st.files_available) + st.files_available) as nat,
        )
    } else {
        0
    })
    &&& u.source@ == m.mount_source@
    &&& u.fstype@ == m.fs_type@
    &&& u.target@ == m.mount_point@
    &&& u.file@ == "-"@
}

/// Derives the usage snapshot of `mount` from its raw statistics.
pub fn usage_from_stat(mount: MountInfo, st: &FsStat) -> (u: FsUsage)
    requires
        stat_ok(*st),
    ensures
        usage_matches(u, mount, *st),
{
    proof {
        lemma_mul_upper_bound(st.blocks as int, u64::MAX as int, st.fragment_size as int, u64::MAX as int);
        lemma_mul_upper_bound(
            (st.blocks - st.blocks_free) as int,
            u64::MAX as int,
            st.fragment_size as int,
            u64::MAX as int,
        );
        lemma_mul_upper_bound(
            st.blocks_available as int,
            u64::MAX as int,
            st.fragment_size as int,
            u64::MAX as int,
        );
    }
    let frag = st.fragment_size as u128;
    let size = ((st.blocks as u128) * frag / 1024) as u64;
    let used = (((st.blocks - st.blocks_free) as u128) * frag / 1024) as u64;
    let avail = ((st.blocks_available as u128) * frag / 1024) as u64;
    let pcent = if size != 0 {
        percent_round_up(used, used + avail)
    } else {
        0
    };
    let itotal = st.files;
    let iused = st.files - st.files_available;
    let iavail = st.files_available;
    let ipcent = if itotal != 0 {
        percent_round_up(iused, iused + iavail)
    } else {
        0
    };
    FsUsage {
        source: mount.mount_source,
        fstype: mount.fs_type,
        file: String::from_str("-"),
        target: mount.mount_point,
        itotal,
        iused,
        iavail,
        ipcent,
        size,
        used,
        avail,
        pcent,
    }
}

/// A snapshot that some acceptable statistics value explains.
pub open spec fn some_stat_matches(u: FsUsage, m: MountInfo) -> bool {
    exists|st: FsStat| stat_ok(st) && #[trigger] usage_matches(u, m, st)
}

/// Queries the statistics of one retained mount and derives its usage
/// snapshot. The mount yields no snapshot when the filter predicate
/// drops it, when the statistics query fails or reports counters no
/// snapshot can be derived from, or when its normalized size is 0 and
/// it is not force-included.
pub fn get_dev(mount: MountInfo, options: &Options) -> (r: Option<FsUsage>)
    ensures
        must_skip(mount, *options) ==> r is None,
        r is Some ==> !must_skip(mount, *options),
        r is Some ==> some_stat_matches(r->0, mount),
        r is Some ==> !(r->0.size == 0 && !options.show_all_fs && !in_str_list(
            options.listed_fs.deep_view(),
            mount.fs_type@,
        )),
{
    if mount_skipped(&mount, options) {
        return None;
    }
    let st = match stat_mount_point(mount.mount_point.as_str()) {
        Some(s) => s,
        None => {
            return None;
        },
    };
    if st.blocks_free > st.blocks || st.files_available > st.files {
        return None;
    }
    proof {
        lemma_mul_upper_bound(st.blocks as int, u64::MAX as int, st.fragment_size as int, u64::MAX as int);
        lemma_mul_upper_bound(
            (st.blocks - st.blocks_free) as int,
            u64::MAX as int,
            st.fragment_size as int,
            u64::MAX as int,
        );
        lemma_mul_upper_bound(
            st.blocks_available as int,
            u64::MAX as int,
            st.fragment_size as int,
            u64::MAX as int,
        );
    }
    let frag = st.fragment_size as u128;
    let umax = u64::MAX as u128;
    let size128 = (st.blocks as u128) * frag / 1024;
    let used128 = ((st.blocks - st.blocks_free) as u128) * frag / 1024;
    let avail128 = (st.blocks_available as u128) * frag / 1024;
    if size128 > umax || used128 > umax || avail128 > umax {
        return None;
    }
    if used128 + avail128 > umax {
        return None;
    }
    assert(stat_ok(st));
    let ghost m0 = mount;
    let ghost st0 = st;
    let u = usage_from_stat(mount, &st);
    if u.size == 0 && !options.show_all_fs && !list_contains(&options.listed_fs, u.fstype.as_str())
    {
        return None;
    }
    proof {
        assert(stat_ok(st0) && usage_matches(u, m0, st0));
        assert(some_stat_matches(u, m0));
    }
    Some(u)
}

/// The display label of an output field name; empty for unknown names.
pub open spec fn label_of(s: Seq<char>) -> Seq<char> {
    if s == "source"@ {
        "Filesystem"@
    } else if s == "fstype"@ {
        "Type"@
    } else if s == "file"@ {
        "File"@
    } else if s == "target"@ {
        "Mounted on"@
    } else if s == "itotal"@ {
        "Inodes"@
    } else if s == "iused"@ {
        "IUsed"@
    } else if s == "iavail"@ {
        "IFree"@
    } else if s == "ipcent"@ {
        "IUse%"@
    } else if s == "size"@ {
        "1K-blocks"@
    } else if s == "used"@ {
        "Used"@
    } else if s == "avail"@ {
        "Avail"@
    } else if s == "pcent"@ {
        "Use%"@
    } else {
        Seq::empty()
    }
}

/// The recognized output field names.
pub open spec fn is_known_field(s: Seq<char>) -> bool {
    ||| s == "source"@
    ||| s == "fstype"@
    ||| s == "file"@
    ||| s == "target"@
    ||| s == "itotal"@
    ||| s == "iused"@
    ||| s == "iavail"@
    ||| s == "ipcent"@
    ||| s == "size"@
    ||| s == "used"@
    ||| s == "avail"@
    ||| s == "pcent"@
}

/// A label is empty exactly for an unknown field name.
pub proof fn lemma_label_empty_iff_unknown(s: Seq<char>)
    ensures
        (label_of(s).len() == 0) <==> !is_known_field(s),
{
    reveal_strlit("Filesystem");
    reveal_strlit("Type");
    reveal_strlit("File");
    reveal_strlit("Mounted on");
    reveal_strlit("Inodes");
    reveal_strlit("IUsed");
    reveal_strlit("IFree");
    reveal_strlit("IUse%");
    reveal_strlit("1K-blocks");
    reveal_strlit("Used");
    reveal_strlit("Avail");
    reveal_strlit("Use%");
}

/// Maps an output field name to its display label; an unknown name
/// yields the empty string.
pub fn fieldname_to_label(s: &str) -> (r: &str)
    ensures
        r@ == label_of(s@),
{
    proof {
        reveal_strlit("");
    }
    let r: &str = if str_eq(s, "source") {
        "Filesystem"
    } else if str_eq(s, "fstype") {
        "Type"
    } else if str_eq(s, "file") {
        "File"
    } else if str_eq(s, "target") {
        "Mounted on"
    } else if str_eq(s, "itotal") {
        "Inodes"
    } else if str_eq(s, "iused") {
        "IUsed"
    } else if str_eq(s, "iavail") {
        "IFree"
    } else if str_eq(s, "ipcent") {
        "IUse%"
    } else if str_eq(s, "size") {
        "1K-blocks"
    } else if str_eq(s, "used") {
        "Used"
    } else if str_eq(s, "avail") {
        "Avail"
    } else if str_eq(s, "pcent") {
        "Use%"
    } else {
        ""
    };
    proof {
        assert(""@ =~= Seq::<char>::empty());
    }
    r
}

} // verus!
