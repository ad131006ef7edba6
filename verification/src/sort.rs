//! The three listing orders — size descending, time ascending, and
//! directories-first — as one stable insertion sort over a per-mode key.
use vstd::prelude::*;

verus! {

use crate::entry::FileInfo;
use crate::entry::FileInfoType;
use crate::flags::SortMode;
use crate::seqtools::lemma_filter_all_false;
use crate::seqtools::lemma_filter_equiv_preds;
use crate::seqtools::lemma_filter_singleton;

/// The sort key of an entry under a mode, as a mathematical integer.
/// Entries are arranged with this key non-decreasing, so size order negates
/// the size (largest first), time order is the timestamp itself (oldest
/// first), and the default order puts directories (key 0) before
/// everything else (key 1).
pub open spec fn sort_key(mode: SortMode, e: FileInfo) -> int {
    match mode {
        SortMode::Size => -(e.size as int),
        SortMode::Time => e.modified_time as int,
        SortMode::Default => if e.file_type is Directory {
            0int
        } else {
            1int
        },
    }
}

pub open spec fn sorted_by_mode(mode: SortMode, s: Seq<FileInfo>) -> bool {
    forall|i: int, j: int|
        0 <= i <= j < s.len() ==> sort_key(mode, s[i]) <= sort_key(mode, s[j])
}

pub open spec fn key_class(mode: SortMode, k: int) -> spec_fn(FileInfo) -> bool {
    |e: FileInfo| sort_key(mode, e) == k
}

/// The subsequence of `s` whose entries have sort key `k`, in order.
pub open spec fn entries_with_key(mode: SortMode, s: Seq<FileInfo>, k: int) -> Seq<FileInfo> {
    s.filter(key_class(mode, k))
}

/// `t` rearranges `s` stably: for every key value, the entries carrying that
/// key appear in `t` exactly as they appear in `s`, in the same order.
pub open spec fn stable_reorder(mode: SortMode, s: Seq<FileInfo>, t: Seq<FileInfo>) -> bool {
    forall|k: int| #[trigger] entries_with_key(mode, t, k) == entries_with_key(mode, s, k)
}

/// Whether `a` may come before `b` under `mode`.
fn key_le(mode: SortMode, a: &FileInfo, b: &FileInfo) -> (r: bool)
    ensures
        r == (sort_key(mode, *a) <= sort_key(mode, *b)),
{
    match mode {
        SortMode::Size => b.size <= a.size,
        SortMode::Time => a.modified_time <= b.modified_time,
        SortMode::Default => matches!(a.file_type, FileInfoType::Directory) || !matches!(
            b.file_type,
            FileInfoType::Directory,
        ),
    }
}

/// Sort the entries for display: stable insertion sort on the mode's key.
/// The result is ordered by the key, and entries with equal keys keep their
/// original relative order.
pub fn sort_entries(mode: SortMode, v: &mut Vec<FileInfo>)
    ensures
        sorted_by_mode(mode, final(v)@),
        stable_reorder(mode, old(v)@, final(v)@),
        final(v)@.len() == old(v)@.len(),
{
    let ghost orig: Seq<FileInfo> = old(v)@;
    let n: usize = v.len();
    let mut out: Vec<FileInfo> = Vec::new();
    proof {
        assert(orig.skip(0) =~= orig);
        assert forall|k: int|
            #[trigger] entries_with_key(mode, out@, k) == entries_with_key(
                mode,
                orig.take(0),
                k,
            ) by {
            assert(out@ =~= Seq::<FileInfo>::empty());
            assert(orig.take(0) =~= Seq::<FileInfo>::empty());
        }
    }
    let mut i: usize = 0;
    while v.len() > 0
        invariant
            orig.len() == n,
            i + v@.len() == n,
            i == out@.len(),
            v@ =~= orig.skip(i as int),
            sorted_by_mode(mode, out@),
            forall|k: int|
                #[trigger] entries_with_key(mode, out@, k) == entries_with_key(
                    mode,
                    orig.take(i as int),
                    k,
                ),
        decreases v@.len(),
    {
        let e = v.remove(0);
        proof {
            assert(e == orig[i as int]);
            assert(v@ =~= orig.skip(i as int + 1));
        }
        let ghost before: Seq<FileInfo> = out@;
        let p = insertion_point(mode, &out, &e);
        out.insert(p, e);
        proof {
            lemma_insert_keeps_order_and_classes(mode, before, e, p as int);
            assert forall|k: int|
                #[trigger] entries_with_key(mode, out@, k) == entries_with_key(
                    mode,
                    orig.take(i as int + 1),
                    k,
                ) by {
                assert(orig.take(i as int + 1) =~= orig.take(i as int) + seq![e]);
                Seq::filter_distributes_over_add(orig.take(i as int), seq![e], key_class(mode, k));
                lemma_filter_singleton(e, key_class(mode, k));
            }
        }
        i = i + 1;
    }
    proof {
        assert(orig.take(n as int) =~= orig);
    }
    *v = out;
}

/// The position after every entry of `out` whose key is at most `e`'s key;
/// since `out` is sorted, everything from that position on has a strictly
/// greater key, so inserting there keeps equal keys in arrival order.
fn insertion_point(mode: SortMode, out: &Vec<FileInfo>, e: &FileInfo) -> (p: usize)
    requires
        sorted_by_mode(mode, out@),
    ensures
        p <= out@.len(),
        forall|j: int| 0 <= j < p ==> sort_key(mode, out@[j]) <= sort_key(mode, *e),
        forall|j: int| p <= j < out@.len() ==> sort_key(mode, out@[j]) > sort_key(mode, *e),
{
    let mut p: usize = 0;
    while p < out.len() && key_le(mode, &out[p], e)
        invariant
            p <= out@.len(),
            sorted_by_mode(mode, out@),
            forall|j: int| 0 <= j < p ==> sort_key(mode, out@[j]) <= sort_key(mode, *e),
        decreases out@.len() - p,
    {
        p = p + 1;
    }
    p
}

/// Inserting `e` at a position that splits the keys at `e`'s key keeps the
/// sequence sorted and appends `e` to its own key class while leaving every
/// other class unchanged.
proof fn lemma_insert_keeps_order_and_classes(
    mode: SortMode,
    s: Seq<FileInfo>,
    e: FileInfo,
    p: int,
)
    requires
        0 <= p <= s.len(),
        sorted_by_mode(mode, s),
        forall|j: int| 0 <= j < p ==> sort_key(mode, s[j]) <= sort_key(mode, e),
        forall|j: int| p <= j < s.len() ==> sort_key(mode, s[j]) > sort_key(mode, e),
    ensures
        sorted_by_mode(mode, s.insert(p, e)),
        forall|k: int|
            #[trigger] entries_with_key(mode, s.insert(p, e), k) == entries_with_key(mode, s, k)
                + seq![e].filter(key_class(mode, k)),
{
    let t = s.insert(p, e);
    let front = s.subrange(0, p);
    let back = s.subrange(p, s.len() as int);
    assert(t =~= front + (seq![e] + back));
    assert(forall|m: int|
        0 <= m < t.len() ==> t[m] == if m < p {
            s[m]
        } else if m == p {
            e
        } else {
            s[m - 1]
        });
    assert forall|i: int, j: int|
        0 <= i <= j < t.len() implies sort_key(mode, t[i]) <= sort_key(mode, t[j]) by {}
    assert forall|k: int|
        #[trigger] entries_with_key(mode, t, k) == entries_with_key(mode, s, k) + seq![e].filter(
            key_class(mode, k),
        ) by {
        let pred = key_class(mode, k);
        Seq::filter_distributes_over_add(front, seq![e] + back, pred);
        Seq::filter_distributes_over_add(seq![e], back, pred);
        Seq::filter_distributes_over_add(front, back, pred);
        assert(s =~= front + back);
        lemma_filter_singleton(e, pred);
        if k == sort_key(mode, e) {
            lemma_filter_all_false(back, pred);
            assert(t.filter(pred) =~= s.filter(pred) + seq![e].filter(pred));
        } else {
            assert(t.filter(pred) =~= s.filter(pred) + seq![e].filter(pred));
        }
    }
}

/// Every entry of a stable rearrangement came from the source sequence.
pub proof fn lemma_stable_reorder_membership(mode: SortMode, s: Seq<FileInfo>, t: Seq<FileInfo>)
    requires
        stable_reorder(mode, s, t),
    ensures
        forall|i: int| 0 <= i < t.len() ==> s.contains(#[trigger] t[i]),
{
    broadcast use vstd::seq_lib::group_filter_ensures;

    assert forall|i: int| 0 <= i < t.len() implies s.contains(#[trigger] t[i]) by {
        let x = t[i];
        let k = sort_key(mode, x);
        let pred = key_class(mode, k);
        assert(pred(x));
        assert(t.filter(pred).contains(x));
        assert(entries_with_key(mode, t, k) == entries_with_key(mode, s, k));
        crate::seqtools::lemma_filter_is_subset(s, pred, x);
    }
}

/// The whole pipeline behind one listing: drop the hidden names (unless
/// they are asked for), then order what is left for display. The result is
/// sorted under `mode`, rearranges the visible entries stably, and shows a
/// hidden name only when `show_hidden` is set.
pub fn prepare_listing(entries: Vec<FileInfo>, show_hidden: bool, mode: SortMode) -> (r: Vec<
    FileInfo,
>)
    ensures
        sorted_by_mode(mode, r@),
        stable_reorder(mode, entries@.filter(crate::entry::visible_pred(show_hidden)), r@),
        show_hidden ==> stable_reorder(mode, entries@, r@),
        forall|i: int|
            0 <= i < r@.len() ==> show_hidden || !crate::entry::is_hidden_name(
                #[trigger] r@[i].name@,
            ),
{
    let visible = crate::entry::filter_hidden(entries, show_hidden);
    let ghost vis: Seq<FileInfo> = visible@;
    let mut v = visible;
    sort_entries(mode, &mut v);
    proof {
        lemma_stable_reorder_membership(mode, vis, v@);
        assert forall|i: int|
            0 <= i < v@.len() implies show_hidden || !crate::entry::is_hidden_name(
            #[trigger] v@[i].name@,
        ) by {
            let x = v@[i];
            assert(vis.contains(x));
        }
    }
    v
}

/// Under the size order, the listed sizes never increase.
pub proof fn lemma_size_sort_non_increasing(s: Seq<FileInfo>)
    requires
        sorted_by_mode(SortMode::Size, s),
    ensures
        forall|i: int, j: int| 0 <= i <= j < s.len() ==> s[i].size >= s[j].size,
{
    assert forall|i: int, j: int| 0 <= i <= j < s.len() implies s[i].size >= s[j].size by {
        assert(sort_key(SortMode::Size, s[i]) <= sort_key(SortMode::Size, s[j]));
    }
}

/// Under the time order, the listed modification times never decrease.
pub proof fn lemma_time_sort_non_decreasing(s: Seq<FileInfo>)
    requires
        sorted_by_mode(SortMode::Time, s),
    ensures
        forall|i: int, j: int| 0 <= i <= j < s.len() ==> s[i].modified_time <= s[j].modified_time,
{
    assert forall|i: int, j: int|
        0 <= i <= j < s.len() implies s[i].modified_time <= s[j].modified_time by {
        assert(sort_key(SortMode::Time, s[i]) <= sort_key(SortMode::Time, s[j]));
    }
}

pub open spec fn is_directory_entry(e: FileInfo) -> bool {
    e.file_type is Directory
}

/// Under the default order, every directory precedes every non-directory,
/// and each of the two groups keeps the relative order the entries arrived
/// in.
pub proof fn lemma_default_sort_partitions(s: Seq<FileInfo>, t: Seq<FileInfo>)
    requires
        sorted_by_mode(SortMode::Default, t),
        stable_reorder(SortMode::Default, s, t),
    ensures
        forall|i: int, j: int|
            0 <= i < t.len() && 0 <= j < t.len() && is_directory_entry(t[i])
                && !is_directory_entry(t[j]) ==> i < j,
        t.filter(|e: FileInfo| is_directory_entry(e)) == s.filter(
            |e: FileInfo| is_directory_entry(e),
        ),
        t.filter(|e: FileInfo| !is_directory_entry(e)) == s.filter(
            |e: FileInfo| !is_directory_entry(e),
        ),
{
    assert forall|i: int, j: int|
        0 <= i < t.len() && 0 <= j < t.len() && is_directory_entry(t[i]) && !is_directory_entry(
            t[j],
        ) implies i < j by {
        if j <= i {
            assert(sort_key(SortMode::Default, t[j]) <= sort_key(SortMode::Default, t[i]));
        }
    }
    assert(entries_with_key(SortMode::Default, t, 0) == entries_with_key(SortMode::Default, s, 0));
    lemma_filter_equiv_preds(
        t,
        |e: FileInfo| is_directory_entry(e),
        key_class(SortMode::Default, 0),
    );
    lemma_filter_equiv_preds(
        s,
        |e: FileInfo| is_directory_entry(e),
        key_class(SortMode::Default, 0),
    );
    assert(entries_with_key(SortMode::Default, t, 1) == entries_with_key(SortMode::Default, s, 1));
    lemma_filter_equiv_preds(
        t,
        |e: FileInfo| !is_directory_entry(e),
        key_class(SortMode::Default, 1),
    );
    lemma_filter_equiv_preds(
        s,
        |e: FileInfo| !is_directory_entry(e),
        key_class(SortMode::Default, 1),
    );
}

} // verus!
