//! A snapshot of what lies beneath one directory, and the recursive size
//! computation over it: a directory's size is the sum of the lengths of the
//! regular files transitively under it.
use vstd::prelude::*;

verus! {

/// One filesystem object inside a directory walk: a regular file with its
/// byte length, a directory with its children, or anything else (a symlink,
/// or an entry whose metadata could not be read), which contributes nothing
/// to the size.
#[derive(Debug)]
pub enum FsNode {
    File { len: u64 },
    Dir { children: Vec<FsNode> },
    Other,
}

/// The exact size of a node, as a mathematical integer: a file counts its
/// length, a directory the sizes of its children, anything else zero.
pub open spec fn node_size_spec(n: FsNode) -> int
    decreases n,
{
    match n {
        FsNode::File { len } => len as int,
        FsNode::Dir { children } => children_size_spec(children@),
        FsNode::Other => 0,
    }
}

pub open spec fn children_size_spec(s: Seq<FsNode>) -> int
    decreases s,
{
    if s.len() == 0 {
        0
    } else {
        children_size_spec(s.drop_last()) + node_size_spec(s.last())
    }
}

/// The lengths of the regular files transitively under a node, in walk
/// order.
pub open spec fn files_under(n: FsNode) -> Seq<u64>
    decreases n,
{
    match n {
        FsNode::File { len } => seq![len],
        FsNode::Dir { children } => files_under_children(children@),
        FsNode::Other => Seq::<u64>::empty(),
    }
}

pub open spec fn files_under_children(s: Seq<FsNode>) -> Seq<u64>
    decreases s,
{
    if s.len() == 0 {
        Seq::<u64>::empty()
    } else {
        files_under_children(s.drop_last()) + files_under(s.last())
    }
}

pub open spec fn sum_lens(s: Seq<u64>) -> int
    decreases s,
{
    if s.len() == 0 {
        0
    } else {
        sum_lens(s.drop_last()) + s.last()
    }
}

proof fn lemma_sum_lens_distributes(a: Seq<u64>, b: Seq<u64>)
    ensures
        sum_lens(a + b) == sum_lens(a) + sum_lens(b),
    decreases b.len(),
{
    if b.len() == 0 {
        assert(a + b =~= a);
    } else {
        assert((a + b).drop_last() =~= a + b.drop_last());
        assert((a + b).last() == b.last());
        lemma_sum_lens_distributes(a, b.drop_last());
    }
}

/// A node's size is exactly the sum of the lengths of the regular files
/// transitively under it, whatever the nesting depth.
pub proof fn lemma_size_is_sum_of_files(n: FsNode)
    ensures
        node_size_spec(n) == sum_lens(files_under(n)),
    decreases n,
{
    match n {
        FsNode::File { len } => {
            assert(seq![len].drop_last() =~= Seq::<u64>::empty());
            assert(sum_lens(Seq::<u64>::empty()) == 0);
            assert(sum_lens(seq![len]) == len);
        },
        FsNode::Dir { children } => {
            lemma_children_size_is_sum_of_files(children@);
        },
        FsNode::Other => {},
    }
}

proof fn lemma_children_size_is_sum_of_files(s: Seq<FsNode>)
    ensures
        children_size_spec(s) == sum_lens(files_under_children(s)),
    decreases s,
{
    if s.len() > 0 {
        lemma_children_size_is_sum_of_files(s.drop_last());
        lemma_size_is_sum_of_files(s.last());
        lemma_sum_lens_distributes(files_under_children(s.drop_last()), files_under(s.last()));
    }
}

pub proof fn lemma_node_size_nonneg(n: FsNode)
    ensures
        node_size_spec(n) >= 0,
    decreases n,
{
    match n {
        FsNode::Dir { children } => {
            lemma_children_size_nonneg(children@);
        },
        _ => {},
    }
}

proof fn lemma_children_size_nonneg(s: Seq<FsNode>)
    ensures
        children_size_spec(s) >= 0,
    decreases s,
{
    if s.len() > 0 {
        lemma_children_size_nonneg(s.drop_last());
        lemma_node_size_nonneg(s.last());
    }
}

/// Compute a node's size. A sum beyond what a byte counter can hold is
/// clamped at the counter's ceiling rather than wrapping.
#[verifier::loop_isolation(false)]
pub fn node_size(n: &FsNode) -> (r: u64)
    ensures
        node_size_spec(*n) <= u64::MAX ==> r == node_size_spec(*n),
        node_size_spec(*n) > u64::MAX ==> r == u64::MAX,
    decreases *n,
{
    match n {
        FsNode::File { len } => *len,
        FsNode::Other => 0,
        FsNode::Dir { children } => {
            let mut total: u64 = 0;
            let ghost cs: Seq<FsNode> = children@;
            proof {
                assert(cs.take(0) =~= Seq::<FsNode>::empty());
            }
            for i in 0..children.len()
                invariant
                    cs == children@,
                    children_size_spec(cs.take(i as int)) <= u64::MAX ==> total
                        == children_size_spec(cs.take(i as int)),
                    children_size_spec(cs.take(i as int)) > u64::MAX ==> total == u64::MAX,
            {
                let c = node_size(&children[i]);
                proof {
                    lemma_node_size_nonneg(cs[i as int]);
                    lemma_children_size_nonneg(cs.take(i as int));
                    assert(cs.take(i as int + 1).drop_last() =~= cs.take(i as int));
                    assert(cs.take(i as int + 1).last() == cs[i as int]);
                }
                if total > u64::MAX - c {
                    total = u64::MAX;
                } else {
                    total = total + c;
                }
            }
            proof {
                assert(cs.take(children@.len() as int) =~= cs);
            }
            total
        },
    }
}

} // verus!
