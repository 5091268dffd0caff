//! The lengths of the segments that a compiled class's bytecode is cut into.

use vstd::prelude::*;

verus! {

/// A tree of segment lengths: a leaf is one segment of that many words, a
/// node is cut into the segments below it, in order.
#[derive(Debug)]
pub enum SegmentLengths {
    Leaf(usize),
    Node(Vec<SegmentLengths>),
}

/// The number of words that the segments below `children[from..]` hold
/// together.
pub open spec fn leaf_sum_from(children: Seq<SegmentLengths>, from: int) -> nat
    decreases children, children.len() - from,
{
    if 0 <= from < children.len() {
        leaf_sum(children[from]) + leaf_sum_from(children, from + 1)
    } else {
        0
    }
}

/// The number of words that the segments of `lengths` hold together.
pub open spec fn leaf_sum(lengths: SegmentLengths) -> nat
    decreases lengths, 0int,
{
    match lengths {
        SegmentLengths::Leaf(length) => length as nat,
        SegmentLengths::Node(children) => leaf_sum_from(children@, 0),
    }
}

/// Takes the segments of `lengths` out of `available` words: what is left
/// over, or `None` where the segments hold more words than that.
pub fn take_segments(lengths: &SegmentLengths, available: usize) -> (rest: Option<usize>)
    ensures
        match rest {
            Some(left) => leaf_sum(*lengths) + left == available,
            None => leaf_sum(*lengths) > available,
        },
    decreases lengths,
{
    match lengths {
        SegmentLengths::Leaf(length) => {
            if *length <= available {
                Some(available - *length)
            } else {
                None
            }
        },
        SegmentLengths::Node(children) => {
            let mut left = available;
            let mut i: usize = 0;
            while i < children.len()
                invariant
                    i <= children.len(),
                    *lengths == SegmentLengths::Node(*children),
                    left <= available,
                    leaf_sum_from(children@, 0) + left == available + leaf_sum_from(
                        children@,
                        i as int,
                    ),
                decreases children.len() - i,
            {
                proof {
                    vstd::std_specs::vec::axiom_vec_index_decreases(*children, i as int);
                    assert(decreases_to!(*lengths => lengths->Node_0));
                }
                match take_segments(&children[i], left) {
                    None => {
                        return None;
                    },
                    Some(rest) => {
                        left = rest;
                    },
                }
                i = i + 1;
            }
            Some(left)
        },
    }
}

/// Whether the segments of `lengths` hold exactly `words` words.
pub fn covers(lengths: &SegmentLengths, words: usize) -> (exact: bool)
    ensures
        exact == (leaf_sum(*lengths) == words),
{
    match take_segments(lengths, words) {
        Some(left) => left == 0,
        None => false,
    }
}

} // verus!
