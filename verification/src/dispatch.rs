//! Dispatch-tree compiler: turns a bounded runtime integer into a
//! minimal-branch decision tree that routes to one of `max + 1`
//! literal-specialized handlers, optionally split into two handler families
//! by a threshold.

use vstd::prelude::*;

verus! {

/// Which of the two handler families a dispatched value routes to.
#[derive(Clone, Copy, PartialEq, Eq, Structural, Debug)]
pub enum HandlerFamily {
    Low,
    High,
}

/// The family a value belongs to: `High` exactly when the value reaches the
/// threshold, `Low` otherwise. The shape of a dispatch tree never enters
/// this choice.
pub open spec fn family_for(value: int, threshold: int) -> HandlerFamily {
    if value >= threshold {
        HandlerFamily::High
    } else {
        HandlerFamily::Low
    }
}

/// Decision structure routing a bounded runtime integer to the handler
/// specialized for the literal equal to it. A branch sends values above its
/// midpoint to the right subtree and all others to the left. Built once,
/// top-down, never mutated afterwards; a backend lowers it to
/// conditional-branch code.
pub enum DispatchNode {
    Leaf { value: usize, family: HandlerFamily },
    Branch { midpoint: usize, left: Box<DispatchNode>, right: Box<DispatchNode> },
}

impl DispatchNode {
    /// Smallest value the node routes.
    pub open spec fn min_value(self) -> int
        decreases self,
    {
        match self {
            DispatchNode::Leaf { value, .. } => value as int,
            DispatchNode::Branch { left, .. } => left.min_value(),
        }
    }

    /// Largest value the node routes.
    pub open spec fn max_value(self) -> int
        decreases self,
    {
        match self {
            DispatchNode::Leaf { value, .. } => value as int,
            DispatchNode::Branch { right, .. } => right.max_value(),
        }
    }

    /// Search-tree shape: each branch's midpoint is the largest value of its
    /// left subtree, and its right subtree begins directly above the
    /// midpoint, so the subtrees partition the branch's interval.
    pub open spec fn wf(self) -> bool
        decreases self,
    {
        match self {
            DispatchNode::Leaf { .. } => true,
            DispatchNode::Branch { midpoint, left, right } => {
                &&& left.wf()
                &&& right.wf()
                &&& left.max_value() == midpoint as int
                &&& right.min_value() == midpoint as int + 1
            },
        }
    }

    /// Some leaf of the node carries exactly this value and family.
    pub open spec fn has_leaf(self, value: int, family: HandlerFamily) -> bool
        decreases self,
    {
        match self {
            DispatchNode::Leaf { value: v, family: f } => v as int == value && f == family,
            DispatchNode::Branch { left, right, .. } => {
                left.has_leaf(value, family) || right.has_leaf(value, family)
            },
        }
    }

    /// Every leaf's family is the one its value's relation to the threshold
    /// demands.
    pub open spec fn families_ok(self, threshold: int) -> bool
        decreases self,
    {
        match self {
            DispatchNode::Leaf { value, family } => family == family_for(value as int, threshold),
            DispatchNode::Branch { left, right, .. } => {
                left.families_ok(threshold) && right.families_ok(threshold)
            },
        }
    }

    /// Worst-case number of comparisons a dispatch through the node makes:
    /// the longest branch path down to a leaf.
    pub open spec fn depth(self) -> nat
        decreases self,
    {
        match self {
            DispatchNode::Leaf { .. } => 0,
            DispatchNode::Branch { left, right, .. } => {
                1 + if left.depth() >= right.depth() {
                    left.depth()
                } else {
                    right.depth()
                }
            },
        }
    }
}

/// Ceiling of the base-2 logarithm: the comparisons needed to tell `size`
/// values apart.
pub open spec fn clog2(size: int) -> nat
    decreases size,
{
    if size <= 1 {
        0
    } else {
        1 + clog2((size + 1) / 2)
    }
}

/// Halving never brings a smaller interval above a larger one.
proof fn lemma_clog2_monotone(a: int, b: int)
    requires
        a <= b,
    ensures
        clog2(a) <= clog2(b),
    decreases b,
{
    if a > 1 {
        lemma_clog2_monotone((a + 1) / 2, (b + 1) / 2);
    }
}

/// Tree shape affects comparison count only, never the routing answer: in
/// any tree whose leaves obey the threshold, the family found beside a value
/// is determined by the value and the threshold alone.
pub proof fn lemma_leaf_family(
    n: DispatchNode,
    threshold: int,
    value: int,
    family: HandlerFamily,
)
    requires
        n.families_ok(threshold),
        n.has_leaf(value, family),
    ensures
        family == family_for(value, threshold),
    decreases n,
{
    match n {
        DispatchNode::Leaf { .. } => {},
        DispatchNode::Branch { left, right, .. } => {
            if left.has_leaf(value, family) {
                lemma_leaf_family(*left, threshold, value, family);
            } else {
                lemma_leaf_family(*right, threshold, value, family);
            }
        },
    }
}

/// Threshold boundaries: a threshold of `0` routes every value of the
/// domain `High`, and a threshold of `max + 1` routes every value `Low`.
pub proof fn lemma_threshold_boundaries(value: int, max: int)
    requires
        0 <= value <= max,
    ensures
        family_for(value, 0) == HandlerFamily::High,
        family_for(value, max + 1) == HandlerFamily::Low,
{
}

/// Recursive interval bisection over `[low, high]`: a single value becomes
/// a leaf bound to its family; a larger interval splits at its midpoint.
fn build_node(low: usize, high: usize, threshold: usize) -> (n: DispatchNode)
    requires
        low <= high,
    ensures
        n.wf(),
        n.min_value() == low as int,
        n.max_value() == high as int,
        n.families_ok(threshold as int),
        n.depth() <= clog2(high - low + 1),
    decreases high - low,
{
    if low == high {
        let family = if low >= threshold {
            HandlerFamily::High
        } else {
            HandlerFamily::Low
        };
        DispatchNode::Leaf { value: low, family }
    } else {
        let mid = low + (high - low) / 2;
        let left = build_node(low, mid, threshold);
        let right = build_node(mid + 1, high, threshold);
        proof {
            lemma_clog2_monotone(high - mid, mid - low + 1);
        }
        DispatchNode::Branch { midpoint: mid, left: Box::new(left), right: Box::new(right) }
    }
}

/// Walk the tree with one comparison per branch until a leaf is reached.
fn dispatch_node(n: &DispatchNode, v: usize) -> (r: (usize, HandlerFamily))
    requires
        n.wf(),
        n.min_value() <= v as int <= n.max_value(),
    ensures
        r.0 == v,
        n.has_leaf(v as int, r.1),
    decreases *n,
{
    match n {
        DispatchNode::Leaf { value, family } => (*value, *family),
        DispatchNode::Branch { midpoint, left, right } => {
            if v > *midpoint {
                dispatch_node(right, v)
            } else {
                dispatch_node(left, v)
            }
        },
    }
}

/// A compiled dispatch tree over the domain `[0, max]`, with the threshold
/// that splits the two handler families. A threshold of `0` routes every
/// value `High`; any threshold above `max` routes every value `Low`.
pub struct DispatchTree {
    pub root: DispatchNode,
    pub max: usize,
    pub threshold: usize,
}

impl DispatchTree {
    /// The root covers exactly `[0, max]` and every leaf's family follows
    /// the threshold.
    pub open spec fn wf(self) -> bool {
        &&& self.root.wf()
        &&& self.root.min_value() == 0
        &&& self.root.max_value() == self.max as int
        &&& self.root.families_ok(self.threshold as int)
    }

    /// Compile the dispatch tree for the domain `[0, max]`. Its comparison
    /// depth stays within the ceiling of the base-2 logarithm of the domain
    /// size: the tree never degrades to a linear scan.
    pub fn new(max: usize, threshold: usize) -> (t: DispatchTree)
        ensures
            t.wf(),
            t.max == max,
            t.threshold == threshold,
            t.root.depth() <= clog2(max as int + 1),
    {
        DispatchTree { root: build_node(0, max, threshold), max, threshold }
    }

    /// Route a runtime value known to lie in `[0, max]`: the handler invoked
    /// is exactly the one specialized for the literal equal to `v`, and its
    /// family is `High` exactly when `v` reaches the threshold.
    pub fn dispatch(&self, v: usize) -> (r: (usize, HandlerFamily))
        requires
            self.wf(),
            v <= self.max,
        ensures
            r.0 == v,
            r.1 == family_for(v as int, self.threshold as int),
    {
        let r = dispatch_node(&self.root, v);
        proof {
            lemma_leaf_family(self.root, self.threshold as int, v as int, r.1);
        }
        r
    }
}

/// Compile a dispatch tree over `[0, max]` with the given threshold and
/// route `value` through it in one step: the result names the literal the
/// chosen handler is specialized for (always `value` itself) and the family
/// that handles it.
pub fn binary_tree_dispatch(value: usize, max: usize, threshold: usize) -> (r: (
    usize,
    HandlerFamily,
))
    requires
        value <= max,
    ensures
        r.0 == value,
        r.1 == family_for(value as int, threshold as int),
{
    let tree = DispatchTree::new(max, threshold);
    tree.dispatch(value)
}

} // verus!
