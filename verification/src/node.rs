use vstd::prelude::*;

use crate::utility::{spec_at_least, spec_exceeds, Utility};
use vstd::std_specs::cmp::PartialEqSpec;

verus! {

/// Stores an action node (represented as a maximum tree).
///
/// Each node stores the maximum utility of itself or any of its children.
/// A terminal node has higher utility than all of its children.
pub struct Node<T, A> {
    /// Stores the maximum utility of the node itself or any of its children.
    pub max: Utility,
    /// Stores node data.
    pub data: T,
    /// Stores child nodes.
    ///
    /// Each child has an associated action.  The associated action
    /// identifies the node, so it should be unique among the children.
    /// This invariant is upheld by the search algorithms; use
    /// [`Node::check_unique_actions`] when the input is not trusted.
    pub children: Vec<(A, Node<T, A>)>,
    /// Ghost record of the node's own discounted utility, set when the node
    /// is first evaluated.  [`Node::max`] can later be raised above it by a
    /// child, but never below; this is what lets the search drivers promise
    /// that the stored maximum is attained by the node itself or a child.
    pub base: Ghost<Utility>,
}

/// The total number of nodes in the subtrees of the given children.
pub open spec fn children_size<T, A>(s: Seq<(A, Node<T, A>)>) -> nat
    decreases s,
{
    if s.len() == 0 {
        0
    } else {
        s[0].1.tree_size() + children_size(s.drop_first())
    }
}

/// Holds when no two of the children carry equal actions, in the sense of
/// the action type's own equality.
pub open spec fn actions_distinct<T, A: PartialEq>(s: Seq<(A, Node<T, A>)>) -> bool {
    forall|i: int, j: int|
        0 <= i < j < s.len() ==> !(#[trigger] s[i].0.eq_spec(&s[j].0))
}

/// The recomputed maxima of the given children folded into `acc`: the
/// running maximum, where a comparison against an unevaluated utility is
/// never won.
pub open spec fn children_true_max<T, A>(s: Seq<(A, Node<T, A>)>, acc: Utility) -> Utility
    decreases s,
{
    if s.len() == 0 {
        acc
    } else {
        let c = s[0].1.spec_true_max();
        let acc2 = if spec_exceeds(c, acc) {
            c
        } else {
            acc
        };
        children_true_max(s.drop_first(), acc2)
    }
}

/// The fold never exceeds a bound that dominates its seed and every
/// child's recomputed maximum.
proof fn lemma_children_true_max_upper<T, A>(s: Seq<(A, Node<T, A>)>, acc: Utility, m: Utility)
    requires
        spec_at_least(m, acc),
        forall|i: int|
            0 <= i < s.len() ==> spec_at_least(m, (#[trigger] s[i]).1.spec_true_max()),
    ensures
        spec_at_least(m, children_true_max(s, acc)),
    decreases s.len(),
{
    if s.len() > 0 {
        let c = s[0].1.spec_true_max();
        let acc2 = if spec_exceeds(c, acc) {
            c
        } else {
            acc
        };
        assert(forall|i: int|
            0 <= i < s.drop_first().len() ==> (#[trigger] s.drop_first()[i]) == s[i + 1]);
        lemma_children_true_max_upper(s.drop_first(), acc2, m);
    }
}

/// With a finite seed and finite child maxima, the fold dominates the
/// seed and every child's recomputed maximum.
proof fn lemma_children_true_max_lower<T, A>(s: Seq<(A, Node<T, A>)>, acc: Utility)
    requires
        acc matches Utility::Finite(_),
        forall|i: int|
            0 <= i < s.len() ==> (#[trigger] s[i]).1.spec_true_max() matches Utility::Finite(_),
    ensures
        spec_at_least(children_true_max(s, acc), acc),
        forall|i: int|
            0 <= i < s.len() ==> spec_at_least(
                children_true_max(s, acc),
                (#[trigger] s[i]).1.spec_true_max(),
            ),
    decreases s.len(),
{
    if s.len() > 0 {
        let c = s[0].1.spec_true_max();
        let acc2 = if spec_exceeds(c, acc) {
            c
        } else {
            acc
        };
        assert(forall|i: int|
            0 <= i < s.drop_first().len() ==> (#[trigger] s.drop_first()[i]) == s[i + 1]);
        lemma_children_true_max_lower(s.drop_first(), acc2);
        assert forall|i: int| 0 <= i < s.len() implies spec_at_least(
            children_true_max(s, acc),
            (#[trigger] s[i]).1.spec_true_max(),
        ) by {
            if i > 0 {
                assert(s.drop_first()[i - 1] == s[i]);
            }
        }
    }
}

/// A sequence of childless children contributes exactly one node each.
pub proof fn lemma_children_size_all_leaves<T, A>(s: Seq<(A, Node<T, A>)>)
    requires
        forall|i: int| 0 <= i < s.len() ==> (#[trigger] s[i]).1.children@.len() == 0,
    ensures
        children_size(s) == s.len(),
    decreases s.len(),
{
    if s.len() > 0 {
        assert(s[0].1.tree_size() == 1);
        assert(forall|i: int|
            0 <= i < s.drop_first().len() ==> (#[trigger] s.drop_first()[i]) == s[i + 1]);
        lemma_children_size_all_leaves(s.drop_first());
    }
}

/// Replacing one child changes the subtree node count by the difference of
/// the old and new child subtree sizes.
pub proof fn lemma_children_size_update<T, A>(
    s: Seq<(A, Node<T, A>)>,
    i: int,
    x: (A, Node<T, A>),
)
    requires
        0 <= i < s.len(),
    ensures
        children_size(s.update(i, x)) == children_size(s) - s[i].1.tree_size()
            + x.1.tree_size(),
    decreases s.len(),
{
    let t = s.update(i, x);
    if i == 0 {
        assert(t[0] == x);
        assert(t.drop_first() =~= s.drop_first());
    } else {
        assert(t[0] == s[0]);
        assert(t.drop_first() =~= s.drop_first().update(i - 1, x));
        lemma_children_size_update(s.drop_first(), i - 1, x);
    }
}

/// The index of the first node at or after position `i` in `s` whose stored
/// maximum is at least `m`, if any.
pub open spec fn opt_from<T, A>(s: Seq<(A, Node<T, A>)>, m: Utility, i: int) -> Option<int>
    decreases s.len() - i,
{
    if i < 0 || i >= s.len() {
        None
    } else if spec_at_least(s[i].1.max, m) {
        Some(i)
    } else {
        opt_from(s, m, i + 1)
    }
}

/// The first index found by [`opt_from`] is the first qualifying child: it
/// qualifies, everything before it does not, and a `None` answer means no
/// child at or after `i` qualifies.
pub proof fn lemma_opt_from_characterization<T, A>(s: Seq<(A, Node<T, A>)>, m: Utility, i: int)
    requires
        0 <= i <= s.len(),
    ensures
        match opt_from(s, m, i) {
            Some(j) => i <= j < s.len() && spec_at_least(s[j].1.max, m) && (forall|k: int|
                i <= k < j ==> !spec_at_least(#[trigger] s[k].1.max, m)),
            None => forall|k: int| i <= k < s.len() ==> !spec_at_least(#[trigger] s[k].1.max, m),
        },
    decreases s.len() - i,
{
    if i < s.len() && !spec_at_least(s[i].1.max, m) {
        lemma_opt_from_characterization(s, m, i + 1);
    }
}

impl<T, A> Node<T, A> {
    /// The number of nodes in the tree: this node plus all descendants.
    pub open spec fn tree_size(self) -> nat
        decreases self,
    {
        1 + children_size(self.children@)
    }

    /// The index of the first child whose stored maximum is at least this
    /// node's own, if any.
    pub open spec fn spec_optimal(self) -> Option<int> {
        opt_from(self.children@, self.max, 0)
    }

    /// A node is terminal when no child stores a maximum at least its own.
    pub open spec fn spec_terminal(self) -> bool {
        self.spec_optimal() is None
    }

    /// The sequence of child indices obtained by following
    /// [`Node::spec_optimal`] downward until it yields nothing.
    pub open spec fn spec_optimal_path(self) -> Seq<int>
        decreases self,
        via Self::spec_optimal_path_decreases
    {
        match self.spec_optimal() {
            Some(i) => seq![i] + self.children@[i].1.spec_optimal_path(),
            None => Seq::empty(),
        }
    }

    #[via_fn]
    proof fn spec_optimal_path_decreases(self) {
        match self.spec_optimal() {
            Some(i) => {
                lemma_opt_from_characterization(self.children@, self.max, 0);
                assert(0 <= i < self.children@.len());
                assert(decreases_to!(self => self.children@[i].1));
            },
            None => {},
        }
    }

    /// The maximum utility of the tree recomputed independently of the
    /// stored values: the maximum over this node's own recorded utility
    /// and every child's recomputed maximum.
    pub open spec fn spec_true_max(self) -> Utility
        decreases self,
    {
        children_true_max(self.children@, self.base@)
    }

    /// Every node in the tree has a finite stored maximum, and it is at
    /// least the stored maximum of each of its children.
    pub open spec fn well_formed(self) -> bool
        decreases self,
    {
        &&& self.max matches Utility::Finite(_)
        &&& forall|i: int|
            0 <= i < self.children@.len() ==> spec_at_least(
                self.max,
                (#[trigger] self.children@[i]).1.max,
            )
        &&& forall|i: int|
            0 <= i < self.children@.len() ==> (#[trigger] self.children@[i]).1.well_formed()
    }

    /// Every node's stored maximum is at least its own recorded utility and
    /// is attained: it equals the node's own recorded utility or the stored
    /// maximum of one of its children.  Together with [`Node::well_formed`]
    /// this says the stored maximum of every node equals the true maximum
    /// over the node's own utility and its children's stored maxima.
    pub open spec fn max_attained(self) -> bool
        decreases self,
    {
        &&& spec_at_least(self.max, self.base@)
        &&& (self.max == self.base@ || exists|i: int|
            0 <= i < self.children@.len() && self.max == (#[trigger] self.children@[i]).1.max)
        &&& forall|i: int|
            0 <= i < self.children@.len() ==> (#[trigger] self.children@[i]).1.max_attained()
    }

    /// The tree shape left by greedy search with elimination enabled:
    /// every node keeps at most one child, except that the deepest
    /// expanded node on the explored path may keep one whole breadth of
    /// childless children.
    pub open spec fn greedy_pruned(self) -> bool
        decreases self,
    {
        if self.children@.len() <= 1 {
            forall|i: int|
                0 <= i < self.children@.len() ==> (#[trigger] self.children@[i]).1.greedy_pruned()
        } else {
            forall|i: int|
                0 <= i < self.children@.len() ==> (#[trigger] self.children@[i]).1.children@.len()
                    == 0
        }
    }

    /// A node as breadth expansion creates it: a childless node whose
    /// stored maximum is finite and still equals its own recorded utility.
    pub open spec fn fresh_leaf(self) -> bool {
        &&& self.children@.len() == 0
        &&& self.max matches Utility::Finite(_)
        &&& self.max == self.base@
    }

    /// Creates a new root.
    ///
    /// The utility is unevaluated and there are no children; both are filled
    /// in by search.
    pub fn root(data: T) -> (r: Node<T, A>)
        ensures
            r.max == Utility::Unevaluated,
            r.data == data,
            r.children@.len() == 0,
            r.base@ == Utility::Unevaluated,
    {
        Node {
            max: Utility::Unevaluated,
            data,
            children: Vec::new(),
            base: Ghost(Utility::Unevaluated),
        }
    }

    /// Returns the optimal course of action, if any: the index of the first
    /// child whose stored maximum is at least this node's own.
    ///
    /// Returns `None` if there is no such child, which means the node is
    /// terminal.  Ties break towards the first child in insertion order.
    pub fn optimal(&self) -> (r: Option<usize>)
        ensures
            match r {
                Some(i) => self.spec_optimal() == Some(i as int) && i < self.children@.len()
                    && spec_at_least(self.children@[i as int].1.max, self.max),
                None => self.spec_optimal() is None,
            },
    {
        let n = self.children.len();
        let mut i: usize = 0;
        while i < n
            invariant
                i <= n,
                n == self.children@.len(),
                opt_from(self.children@, self.max, 0) == opt_from(self.children@, self.max, i as int),
            decreases n - i,
        {
            if self.children[i].1.max.at_least(&self.max) {
                return Some(i);
            }
            i += 1;
        }
        None
    }

    /// Returns `true` if all actions among the children are unique.
    ///
    /// Intended for trees that were not built by a trusted search
    /// algorithm; the algorithms of this crate keep the actions unique by
    /// construction.  Returns `false` on the first collision found, without
    /// reporting which one.  The result is pinned down whenever the action
    /// type's equality obeys its specification, which holds for all derived
    /// implementations.
    pub fn check_unique_actions(&self) -> (r: bool) where A: Eq + core::hash::Hash
        ensures
            A::obeys_eq_spec() ==> r == actions_distinct(self.children@),
    {
        let n = self.children.len();
        let mut j: usize = 0;
        while j < n
            invariant
                j <= n,
                n == self.children@.len(),
                A::obeys_eq_spec() ==> (forall|p: int, q: int|
                    0 <= p < q < j ==> !(#[trigger] self.children@[p].0.eq_spec(
                        &self.children@[q].0,
                    ))),
            decreases n - j,
        {
            let mut i: usize = 0;
            while i < j
                invariant
                    i <= j,
                    j < n,
                    n == self.children@.len(),
                    A::obeys_eq_spec() ==> (forall|p: int|
                        0 <= p < i ==> !(#[trigger] self.children@[p].0.eq_spec(
                            &self.children@[j as int].0,
                        ))),
                decreases j - i,
            {
                if self.children[i].0.eq(&self.children[j].0) {
                    return false;
                }
                i += 1;
            }
            j += 1;
        }
        true
    }

    /// Returns `true` if the node is terminal.
    ///
    /// A terminal node has no child with equal or greater stored maximum.
    pub fn terminal(&self) -> (r: bool)
        ensures
            r == self.spec_terminal(),
    {
        self.optimal().is_none()
    }

    /// Returns the optimal path from this node: the child indices chosen by
    /// repeatedly applying [`Node::optimal`] until it yields nothing.
    pub fn optimal_path(&self) -> (r: Vec<usize>)
        ensures
            r@.len() == self.spec_optimal_path().len(),
            forall|k: int| 0 <= k < r@.len() ==> r@[k] as int == self.spec_optimal_path()[k],
        decreases *self,
    {
        match self.optimal() {
            Some(i) => {
                proof {
                    assert(decreases_to!(*self => self.children@[i as int].1));
                }
                let mut rest = self.children[i].1.optimal_path();
                let mut res: Vec<usize> = Vec::new();
                res.push(i);
                res.append(&mut rest);
                res
            },
            None => Vec::new(),
        }
    }

    /// In a well-formed tree whose stored maxima are attained — which
    /// both search drivers guarantee — every stored maximum agrees with
    /// an independent recomputation: the maximum over the node's own
    /// recorded utility and its children's recomputed maxima.
    pub proof fn lemma_stored_max_is_true_max(self)
        requires
            self.well_formed(),
            self.max_attained(),
        ensures
            self.max == self.spec_true_max(),
        decreases self,
    {
        assert forall|i: int| 0 <= i < self.children@.len() implies (#[trigger] self.children@[i]).1.spec_true_max()
            == self.children@[i].1.max by {
            self.children@[i].1.lemma_stored_max_is_true_max();
        }
        lemma_children_true_max_upper(self.children@, self.base@, self.max);
        lemma_children_true_max_lower(self.children@, self.base@);
    }

    /// A node is terminal exactly when [`Node::spec_optimal`] yields
    /// nothing, exactly when no child stores a maximum at least the node's
    /// own.
    pub proof fn lemma_terminal_characterization(self)
        ensures
            self.spec_terminal() <==> self.spec_optimal() is None,
            self.spec_terminal() <==> (forall|i: int|
                0 <= i < self.children@.len() ==> !spec_at_least(
                    (#[trigger] self.children@[i]).1.max,
                    self.max,
                )),
    {
        lemma_opt_from_characterization(self.children@, self.max, 0);
    }
}

} // verus!
