//! The directory-entry model: one `FileInfo` per immediate child of the
//! listed directory, plus classification and the hidden-name filter.
use vstd::prelude::*;

verus! {

use crate::seqtools::lemma_filter_all_true;
use crate::seqtools::lemma_filter_singleton;

/// What kind of filesystem object an entry is.
#[derive(Debug, Clone, Copy, PartialEq, Eq, Structural)]
pub enum FileInfoType {
    Directory,
    File,
    Symlink,
}

/// One listed entry: display name, modification time as whole seconds since
/// the Unix epoch, kind, and total size in bytes (for a directory, the
/// recursive sum of the regular-file lengths beneath it).
#[derive(Debug)]
pub struct FileInfo {
    pub name: String,
    pub modified_time: i64,
    pub file_type: FileInfoType,
    pub size: u64,
}

/// An entry is hidden when its name starts with `.`.
pub open spec fn is_hidden_name(s: Seq<char>) -> bool {
    s.len() > 0 && s[0] == '.'
}

pub open spec fn classify_spec(is_dir: bool, is_symlink: bool) -> FileInfoType {
    if is_dir {
        FileInfoType::Directory
    } else if is_symlink {
        FileInfoType::Symlink
    } else {
        FileInfoType::File
    }
}

/// Classify an entry from its metadata: directory-ness wins, then
/// symlink-ness, and anything else counts as a regular file.
pub fn classify(is_dir: bool, is_symlink: bool) -> (t: FileInfoType)
    ensures
        t == classify_spec(is_dir, is_symlink),
{
    if is_dir {
        FileInfoType::Directory
    } else if is_symlink {
        FileInfoType::Symlink
    } else {
        FileInfoType::File
    }
}

pub fn starts_with_dot(s: &str) -> (r: bool)
    ensures
        r == is_hidden_name(s@),
{
    if s.unicode_len() == 0 {
        false
    } else {
        s.get_char(0) == '.'
    }
}

pub open spec fn visible_pred(show_hidden: bool) -> spec_fn(FileInfo) -> bool {
    |e: FileInfo| show_hidden || !is_hidden_name(e.name@)
}

/// Keep exactly the entries the listing shows: all of them when
/// `show_hidden` is set, otherwise only those whose name does not start
/// with `.`, in their original order.
pub fn filter_hidden(entries: Vec<FileInfo>, show_hidden: bool) -> (r: Vec<FileInfo>)
    ensures
        r@ == entries@.filter(visible_pred(show_hidden)),
        show_hidden ==> r@ == entries@,
        forall|i: int| 0 <= i < r@.len() ==> show_hidden || !is_hidden_name(r@[i].name@),
{
    broadcast use vstd::seq_lib::group_filter_ensures;

    let ghost orig: Seq<FileInfo> = entries@;
    let mut entries = entries;
    let mut r: Vec<FileInfo> = Vec::new();
    let ghost pred = visible_pred(show_hidden);
    let n: usize = entries.len();
    proof {
        assert(orig.len() == n);
        assert(orig.skip(0) =~= orig);
    }
    let mut i: usize = 0;
    while entries.len() > 0
        invariant
            orig.len() <= usize::MAX,
            i + entries@.len() == orig.len(),
            entries@ =~= orig.skip(i as int),
            pred == visible_pred(show_hidden),
            r@ == orig.take(i as int).filter(pred),
        decreases entries@.len(),
    {
        let e = entries.remove(0);
        proof {
            assert(e == orig[i as int]);
            assert(entries@ =~= orig.skip(i as int + 1));
            assert(orig.take(i as int + 1) =~= orig.take(i as int) + seq![e]);
            Seq::filter_distributes_over_add(orig.take(i as int), seq![e], pred);
            lemma_filter_singleton(e, pred);
        }
        let keep = if show_hidden {
            true
        } else {
            !starts_with_dot(e.name.as_str())
        };
        proof {
            assert(pred(e) == keep);
        }
        let ghost r_before = r@;
        if keep {
            r.push(e);
            proof {
                assert(r@ =~= r_before + seq![e]);
            }
        }
        proof {
            assert(r@ =~= orig.take(i as int + 1).filter(pred));
        }
        i = i + 1;
    }
    proof {
        assert(orig.take(orig.len() as int) =~= orig);
        if show_hidden {
            lemma_filter_all_true(orig, pred);
        }
    }
    r
}

} // verus!
