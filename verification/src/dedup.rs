//! Mount-table deduplication: one pass over the records that drops the
//! filtered-out ones and keeps at most one record per device, resolving
//! bind-mount collisions in place while preserving first-seen order.

use vstd::prelude::*;

use crate::cli::Options;
use crate::mountinfo::{is_dummy_fs_type, is_remote_fs_type, MountInfo};
use crate::strutil::{has_char, in_str_list, list_contains, str_contains_char, str_eq};

verus! {

/// The coarse skip predicate: a record is dropped outright when it is
/// remote under local-only mode, a hidden pseudo filesystem, not on a
/// nonempty whitelist, or on the blacklist.
pub open spec fn must_skip(m: MountInfo, opts: Options) -> bool {
    ||| (is_remote_fs_type(m.fs_type@) && opts.show_local_fs)
    ||| (is_dummy_fs_type(m.fs_type@) && !opts.show_all_fs && !in_str_list(
        opts.listed_fs.deep_view(),
        m.fs_type@,
    ))
    ||| (opts.listed_fs@.len() > 0 && !in_str_list(opts.listed_fs.deep_view(), m.fs_type@))
    ||| in_str_list(opts.excluded_fs.deep_view(), m.fs_type@)
}

/// The executable side of `must_skip`.
pub fn mount_skipped(m: &MountInfo, opts: &Options) -> (r: bool)
    ensures
        r == must_skip(*m, *opts),
{
    (m.is_remote() && opts.show_local_fs) || (m.is_dummy() && !opts.show_all_fs && !list_contains(
        &opts.listed_fs,
        m.fs_type.as_str(),
    )) || (opts.listed_fs.len() > 0 && !list_contains(&opts.listed_fs, m.fs_type.as_str()))
        || list_contains(&opts.excluded_fs, m.fs_type.as_str())
}

/// The collision verdict between the incumbent record `w` for a device
/// and a later challenger `c` with the same device. True keeps `w` and
/// drops `c`; false replaces `w` with `c` in place. The rules, in order:
/// co-equal remote duplicates of one share are kept (unless a grand
/// total is requested); a challenger whose source looks like a path
/// while the incumbent's does not is dropped; a challenger mounted
/// farther from the root is dropped, unless the incumbent's root lies
/// strictly deeper; a challenger for the same mount point under another
/// source name is dropped.
pub open spec fn keeps_incumbent(w: MountInfo, c: MountInfo, opts: Options) -> bool {
    ||| (!opts.print_grand_total && is_remote_fs_type(c.fs_type@) && is_remote_fs_type(w.fs_type@)
        && w.mount_source@ == c.mount_source@)
    ||| (has_char(c.mount_source@, '/') && !has_char(w.mount_source@, '/'))
    ||| (c.mount_point@.len() > w.mount_point@.len() && !(w.root@.len() > 0 && c.root@.len() > 0
        && w.root@.len() > c.root@.len()))
    ||| (w.mount_source@ != c.mount_source@ && w.mount_point@ == c.mount_point@)
}

/// The executable side of `keeps_incumbent`.
pub fn keep_incumbent(w: &MountInfo, c: &MountInfo, opts: &Options) -> (r: bool)
    ensures
        r == keeps_incumbent(*w, *c, *opts),
{
    (!opts.print_grand_total && c.is_remote() && w.is_remote() && str_eq(
        w.mount_source.as_str(),
        c.mount_source.as_str(),
    )) || (str_contains_char(c.mount_source.as_str(), '/') && !str_contains_char(
        w.mount_source.as_str(),
        '/',
    )) || (c.mount_point.as_str().unicode_len() > w.mount_point.as_str().unicode_len() && !(
    w.root.as_str().unicode_len() > 0 && c.root.as_str().unicode_len() > 0
        && w.root.as_str().unicode_len() > c.root.as_str().unicode_len())) || (!str_eq(
        w.mount_source.as_str(),
        c.mount_source.as_str(),
    ) && str_eq(w.mount_point.as_str(), c.mount_point.as_str()))
}

/// The position, at or after `lo`, of the first record with device `d`.
pub open spec fn find_dev_at(s: Seq<MountInfo>, d: u64, lo: int) -> Option<int>
    decreases s.len() - lo,
{
    if lo < 0 || lo >= s.len() {
        None
    } else if s[lo].spec_dev() == d {
        Some(lo)
    } else {
        find_dev_at(s, d, lo + 1)
    }
}

/// The position of the first record with device `d`.
pub open spec fn find_dev(s: Seq<MountInfo>, d: u64) -> Option<int> {
    find_dev_at(s, d, 0)
}

proof fn lemma_find_dev_at(s: Seq<MountInfo>, d: u64, lo: int, i: int)
    requires
        0 <= lo <= i <= s.len(),
        forall|k: int| lo <= k < i ==> s[k].spec_dev() != d,
        i == s.len() || s[i].spec_dev() == d,
    ensures
        find_dev_at(s, d, lo) == (if i < s.len() {
            Some(i)
        } else {
            None::<int>
        }),
    decreases i - lo,
{
    if lo < i {
        lemma_find_dev_at(s, d, lo + 1, i);
    }
}

proof fn lemma_find_dev_props(s: Seq<MountInfo>, d: u64, lo: int)
    requires
        0 <= lo <= s.len(),
    ensures
        match find_dev_at(s, d, lo) {
            Some(i) => lo <= i < s.len() && s[i].spec_dev() == d,
            None => forall|k: int| lo <= k < s.len() ==> s[k].spec_dev() != d,
        },
    decreases s.len() - lo,
{
    if lo < s.len() && s[lo].spec_dev() != d {
        lemma_find_dev_props(s, d, lo + 1);
    }
}

/// One step of the deduplication pass: how the output built so far
/// absorbs the next record.
pub open spec fn dedup_push(out: Seq<MountInfo>, me: MountInfo, opts: Options) -> Seq<MountInfo> {
    if must_skip(me, opts) {
        out
    } else {
        match find_dev(out, me.spec_dev()) {
            None => out.push(me),
            Some(i) => if keeps_incumbent(out[i], me, opts) {
                out
            } else {
                out.update(i, me)
            },
        }
    }
}

/// The deduplicated mount list: the single left-to-right pass over the
/// input, in first-seen order of the winning records.
pub open spec fn dedup_seq(list: Seq<MountInfo>, opts: Options) -> Seq<MountInfo>
    decreases list.len(),
{
    if list.len() == 0 {
        Seq::empty()
    } else {
        dedup_push(dedup_seq(list.drop_last(), opts), list.last(), opts)
    }
}

/// What holds of every deduplicated output: no two records share a
/// device, and none is a record that the coarse predicate skips.
pub open spec fn dedup_inv(out: Seq<MountInfo>, opts: Options) -> bool {
    &&& forall|i: int, j: int|
        0 <= i < j < out.len() ==> out[i].spec_dev() != out[j].spec_dev()
    &&& forall|i: int| 0 <= i < out.len() ==> !must_skip(out[i], opts)
}

proof fn lemma_dedup_push_inv(out: Seq<MountInfo>, me: MountInfo, opts: Options)
    requires
        dedup_inv(out, opts),
    ensures
        dedup_inv(dedup_push(out, me, opts), opts),
{
    if !must_skip(me, opts) {
        lemma_find_dev_props(out, me.spec_dev(), 0);
        match find_dev(out, me.spec_dev()) {
            None => {
                let r = out.push(me);
                assert(forall|i: int, j: int|
                    0 <= i < j < r.len() ==> r[i].spec_dev() != r[j].spec_dev());
            },
            Some(i) => {
                if !keeps_incumbent(out[i], me, opts) {
                    let r = out.update(i, me);
                    assert(me.spec_dev() == out[i].spec_dev());
                    assert(forall|x: int, y: int|
                        0 <= x < y < r.len() ==> r[x].spec_dev() != r[y].spec_dev());
                }
            },
        }
    }
}

proof fn lemma_dedup_seq_inv(list: Seq<MountInfo>, opts: Options)
    ensures
        dedup_inv(dedup_seq(list, opts), opts),
    decreases list.len(),
{
    if list.len() > 0 {
        lemma_dedup_seq_inv(list.drop_last(), opts);
        lemma_dedup_push_inv(dedup_seq(list.drop_last(), opts), list.last(), opts);
    }
}

/// Device uniqueness: whatever the input, no two records of the
/// deduplicated output share a device identifier.
pub proof fn lemma_dedup_unique_devices(list: Seq<MountInfo>, opts: Options)
    ensures
        forall|i: int, j: int|
            0 <= i < j < dedup_seq(list, opts).len() ==> dedup_seq(list, opts)[i].spec_dev()
                != dedup_seq(list, opts)[j].spec_dev(),
{
    lemma_dedup_seq_inv(list, opts);
}

/// A list that already satisfies the output invariant passes through
/// deduplication unchanged.
proof fn lemma_dedup_clean_identity(l: Seq<MountInfo>, opts: Options)
    requires
        dedup_inv(l, opts),
    ensures
        dedup_seq(l, opts) == l,
    decreases l.len(),
{
    if l.len() > 0 {
        let p = l.drop_last();
        assert(forall|i: int| 0 <= i < p.len() ==> p[i] == l[i]);
        assert(dedup_inv(p, opts));
        lemma_dedup_clean_identity(p, opts);
        let me = l.last();
        assert(!must_skip(me, opts));
        lemma_find_dev_props(p, me.spec_dev(), 0);
        assert(forall|k: int| 0 <= k < p.len() ==> p[k].spec_dev() != me.spec_dev());
        assert(find_dev(p, me.spec_dev()) is None);
        assert(p.push(me) =~= l);
    }
}

/// Idempotence: deduplicating an already deduplicated list changes
/// nothing.
pub proof fn lemma_dedup_idempotent(list: Seq<MountInfo>, opts: Options)
    ensures
        dedup_seq(dedup_seq(list, opts), opts) == dedup_seq(list, opts),
{
    lemma_dedup_seq_inv(list, opts);
    lemma_dedup_clean_identity(dedup_seq(list, opts), opts);
}

/// Removes redundant mount records: one pass that drops records the
/// configuration filters out and keeps at most one record per device,
/// replacing an incumbent in place when a later record wins.
pub fn filter_mountinfo_list(list: Vec<MountInfo>, options: &Options) -> (r: Vec<MountInfo>)
    ensures
        r@ == dedup_seq(list@, *options),
{
    let ghost orig = list@;
    let mut rest = list;
    let mut filtered: Vec<MountInfo> = Vec::new();
    proof {
        assert(orig.subrange(0, 0) =~= Seq::<MountInfo>::empty());
    }
    while rest.len() > 0
        invariant
            rest.len() <= orig.len(),
            orig.subrange(0, orig.len() - rest.len()) + rest@ =~= orig,
            filtered@ == dedup_seq(orig.subrange(0, orig.len() - rest.len()), *options),
        decreases rest.len(),
    {
        let ghost k = orig.len() - rest.len();
        let me = rest.remove(0);
        proof {
            assert(me == orig[k]);
            assert(orig.subrange(0, k + 1).drop_last() =~= orig.subrange(0, k));
            assert(orig.subrange(0, k + 1).last() == orig[k]);
            assert(orig.subrange(0, k + 1) + rest@ =~= orig);
        }
        if mount_skipped(&me, options) {
            // dropped outright
        } else {
            let d = me.dev();
            // look for an incumbent with the same device
            let n = filtered.len();
            let mut i: usize = 0;
            let mut found = false;
            while !found && i < n
                invariant
                    i <= n,
                    n == filtered.len(),
                    forall|k2: int| 0 <= k2 < i ==> filtered@[k2].spec_dev() != d,
                    found ==> i < n && filtered@[i as int].spec_dev() == d,
                decreases n - i + (if found {
                    0int
                } else {
                    1
                }),
            {
                if filtered[i].dev() == d {
                    found = true;
                } else {
                    i += 1;
                }
            }
            if !found {
                proof {
                    lemma_find_dev_at(filtered@, d, 0, filtered@.len() as int);
                }
                filtered.push(me);
            } else {
                proof {
                    lemma_find_dev_at(filtered@, d, 0, i as int);
                }
                if keep_incumbent(&filtered[i], &me, options) {
                    // the incumbent stays; the challenger is redundant
                } else {
                    filtered[i] = me;
                }
            }
        }
    }
    proof {
        assert(orig.subrange(0, orig.len() as int) =~= orig);
    }
    filtered
}

} // verus!
