use vstd::prelude::*;

use crate::analysis::{spec_count_add, AiAnalysis};
use crate::node::{
    children_size, lemma_children_size_all_leaves, lemma_children_size_update, Node,
};
use crate::settings::{spec_discount, AiSettings};
use crate::utility::{spec_at_least, Utility};

verus! {

/// The domain boundary: the capability set a concrete application plugs
/// into the search driver.
///
/// The driver makes no assumption about these methods beyond their
/// signatures; in particular the soundness of sibling exploration rests on
/// `undo` being an exact inverse of `execute` on the context, which only
/// the implementor can guarantee.
pub trait Domain {
    /// Node data: enough information about a transition to undo it, plus
    /// whatever internal state the agent tracks outside the context.
    type Data;

    /// An action: one of the choices the agent can make in the context.
    type Action;

    /// The context (environment) that actions are applied to and undone
    /// against.
    type Ctx;

    /// Calculates the instantaneous utility of a state from data and
    /// context.  It should not itself accumulate rewards across steps.
    fn utility(&self, data: &Self::Data, ctx: &Self::Ctx) -> i64;

    /// Returns the list of possible actions; may be empty.
    fn actions(&self, data: &Self::Data, ctx: &Self::Ctx) -> Vec<Self::Action>;

    /// Executes an action, mutating the context in place and returning new
    /// node data describing the transition, or an error for an illegal
    /// action (which the driver then drops from the tree).
    fn execute(&self, data: &Self::Data, action: &Self::Action, ctx: &mut Self::Ctx) -> Result<
        Self::Data,
        (),
    >;

    /// Undoes the change that a matching `execute` made to the context.
    /// It must restore the context exactly.
    fn undo(&self, data: &Self::Data, ctx: &mut Self::Ctx);
}

/// AI setup.
///
/// Provides a common setup for different search algorithms.  A search
/// algorithm constructs a maximum tree, which can then be used to find the
/// optimal course of action.
pub struct Ai<D: Domain> {
    /// The domain callbacks: utility, action enumeration, execution, undo.
    pub domain: D,
    /// Stores AI settings.
    pub settings: AiSettings,
    /// Stores analysis.
    pub analysis: AiAnalysis,
}

impl<D: Domain> Ai<D> {
    /// Estimated memory usage of nodes in bytes: the analysis node count
    /// times the per-node size, compared against the configured ceiling.
    pub open spec fn spec_memory_exceeded(self) -> bool {
        &&& self.settings.analysis
        &&& match self.settings.max_mib {
            Some(limit) => self.analysis.node_count * vstd::layout::size_of::<
                Node<D::Data, D::Action>,
            >() >= limit * 0x100000,
            None => false,
        }
    }

    /// Computes the size of one tree node in bytes.
    pub fn node_size(&self) -> (r: usize)
        ensures
            r as nat == vstd::layout::size_of::<Node<D::Data, D::Action>>(),
    {
        core::mem::size_of::<Node<D::Data, D::Action>>()
    }

    /// Calculates utility with the depth discount from the settings
    /// applied: the domain's utility of the data, minus `eps_depth` times
    /// the depth, saturating at the range of `i64`.
    pub fn utility_with_settings(&self, data: &D::Data, depth: usize, ctx: &D::Ctx) -> (r: i64)
        ensures
            exists|u: i64|
                r as int == spec_discount(
                    self.settings.eps_depth as int,
                    u as int,
                    depth as int,
                ),
    {
        let utility = self.domain.utility(data, ctx);
        self.settings.discount(utility, depth)
    }

    /// Returns `true` when the estimated memory usage of nodes meets or
    /// exceeds the configured ceiling, `false` otherwise.
    ///
    /// Returns `false` when analysis is deactivated or no ceiling is set,
    /// so the check never triggers on an unlimited search.
    pub fn memory_exceeded(&self) -> (r: bool)
        ensures
            r == self.spec_memory_exceeded(),
    {
        if self.settings.analysis {
            match self.settings.max_mib {
                Some(limit) => {
                    let bytes = self.analysis.bytes(self.node_size());
                    let cap: u128 = (limit as u128) * 0x100000;
                    bytes >= cap
                },
                None => false,
            }
        } else {
            false
        }
    }

    /// A sub-procedure constructing one breadth of the maximum tree: one
    /// new leaf child per action the domain accepts.
    ///
    /// The previous children are discarded, not merged: re-expanding a node
    /// resets the exploration below it.  Each accepted action is executed,
    /// scored at `depth + 1` with the discount applied, and undone again,
    /// so every change to the context made here is rolled back before
    /// return.  The node's stored maximum is raised to the best child
    /// utility when that beats it; an unevaluated maximum loses every
    /// comparison and therefore stays unevaluated.
    pub fn sub_breadth(
        &mut self,
        root: &mut Node<D::Data, D::Action>,
        depth: usize,
        ctx: &mut D::Ctx,
    ) where D::Action: Clone
        requires
            depth < usize::MAX,
        ensures
            final(self).domain == old(self).domain,
            final(self).settings == old(self).settings,
            final(root).data == old(root).data,
            final(root).base == old(root).base,
            forall|i: int|
                0 <= i < final(root).children@.len()
                    ==> (#[trigger] final(root).children@[i]).1.fresh_leaf(),
            old(root).max is Unevaluated ==> final(root).max == old(root).max,
            old(root).max matches Utility::Finite(_) ==> {
                &&& spec_at_least(final(root).max, old(root).max)
                &&& forall|i: int|
                    0 <= i < final(root).children@.len() ==> spec_at_least(
                        final(root).max,
                        (#[trigger] final(root).children@[i]).1.max,
                    )
                &&& (final(root).max == old(root).max || exists|i: int|
                    0 <= i < final(root).children@.len()
                        && final(root).max == (#[trigger] final(root).children@[i]).1.max)
            },
            old(self).settings.analysis ==> final(self).analysis.node_count as int
                == spec_count_add(
                old(self).analysis.node_count as int,
                final(root).children@.len() as int,
            ),
            !old(self).settings.analysis ==> final(self).analysis == old(self).analysis,
    {
        root.children.clear();
        let actions = self.domain.actions(&root.data, ctx);
        let n = actions.len();
        let mut idx: usize = 0;
        while idx < n
            invariant
                n == actions@.len(),
                idx <= n,
                depth < usize::MAX,
                self.domain == old(self).domain,
                self.settings == old(self).settings,
                root.data == old(root).data,
                root.base == old(root).base,
                forall|i: int|
                    0 <= i < root.children@.len() ==> (#[trigger] root.children@[i]).1.fresh_leaf(),
                old(root).max is Unevaluated ==> root.max == old(root).max,
                old(root).max matches Utility::Finite(_) ==> {
                    &&& spec_at_least(root.max, old(root).max)
                    &&& forall|i: int|
                        0 <= i < root.children@.len() ==> spec_at_least(
                            root.max,
                            (#[trigger] root.children@[i]).1.max,
                        )
                    &&& (root.max == old(root).max || exists|i: int|
                        0 <= i < root.children@.len() && root.max == (#[trigger] root.children@[i]).1.max)
                },
                self.settings.analysis ==> self.analysis.node_count as int == spec_count_add(
                    old(self).analysis.node_count as int,
                    root.children@.len() as int,
                ),
                !self.settings.analysis ==> self.analysis == old(self).analysis,
            decreases n - idx,
        {
            let a = &actions[idx];
            match self.domain.execute(&root.data, a, ctx) {
                Ok(data) => {
                    let u = self.utility_with_settings(&data, depth + 1, ctx);
                    let uval = Utility::Finite(u);
                    let ghost prev_children = root.children@;
                    let ghost prev_max = root.max;
                    if uval.exceeds(&root.max) {
                        root.max = uval;
                    }
                    // Undo the change made to the context to reset state.
                    self.domain.undo(&data, ctx);
                    root.children.push(
                        (
                            a.clone(),
                            Node {
                                max: uval,
                                data,
                                children: Vec::new(),
                                base: Ghost(uval),
                            },
                        ),
                    );
                    proof {
                        let s = root.children@;
                        assert(s.len() == prev_children.len() + 1);
                        assert(forall|i: int|
                            0 <= i < prev_children.len() ==> s[i] == #[trigger] prev_children[i]);
                        assert(s[s.len() - 1].1.max == uval);
                        assert(s[s.len() - 1].1.fresh_leaf());
                        if old(root).max matches Utility::Finite(_) {
                            assert forall|i: int| 0 <= i < s.len() implies spec_at_least(
                                root.max,
                                (#[trigger] s[i]).1.max,
                            ) by {
                                if i < prev_children.len() {
                                    assert(spec_at_least(prev_max, prev_children[i].1.max));
                                }
                            }
                            if root.max == prev_max && prev_max != old(root).max {
                                let j = choose|j: int|
                                    0 <= j < prev_children.len() && prev_max == (
                                    #[trigger] prev_children[j]).1.max;
                                assert(root.max == s[j].1.max);
                            }
                            if root.max != prev_max {
                                assert(root.max == s[s.len() - 1].1.max);
                            }
                        }
                    }
                    if self.settings.analysis {
                        self.analysis.node_count = self.analysis.node_count.saturating_add(1);
                    }
                },
                Err(_) => {},
            }
            idx += 1;
        }
    }

    /// Performs a full construction of the entire maximum tree, finding
    /// the global maximum within the depth and memory bounds.
    ///
    /// An unevaluated node is first given its own discounted utility, so
    /// every visited node ends well formed: its stored maximum is finite
    /// and dominates its children's.  When the node's stored maximum
    /// entered equal to its recorded own utility (as for a fresh root or
    /// any node this driver created), the stored maximum of every node in
    /// the resulting tree is moreover attained by the node itself or one
    /// of its children.  With analysis enabled, the node count grows by
    /// exactly the number of nodes below the root of the resulting tree.
    pub fn full(
        &mut self,
        root: &mut Node<D::Data, D::Action>,
        depth: usize,
        ctx: &mut D::Ctx,
    ) where D::Action: Clone
        requires
            depth < usize::MAX,
            old(self).settings.max_depth < usize::MAX,
        ensures
            final(self).domain == old(self).domain,
            final(self).settings == old(self).settings,
            final(root).data == old(root).data,
            final(root).well_formed(),
            old(root).max matches Utility::Finite(_) ==> spec_at_least(
                final(root).max,
                old(root).max,
            ),
            old(root).max matches Utility::Finite(_) ==> final(root).base@ == old(root).base@,
            (old(root).max is Unevaluated || old(root).max == old(root).base@)
                ==> final(root).max_attained(),
            old(self).settings.analysis ==> final(self).analysis.node_count as int
                == spec_count_add(
                old(self).analysis.node_count as int,
                final(root).tree_size() as int - 1,
            ),
            !old(self).settings.analysis ==> final(self).analysis == old(self).analysis,
        decreases old(self).settings.max_depth - depth,
    {
        if !root.max.is_finite() {
            let u = self.utility_with_settings(&root.data, depth, ctx);
            root.max = Utility::Finite(u);
            root.base = Ghost(Utility::Finite(u));
        }
        let ghost m0 = root.max;
        let ghost b0 = root.base@;
        let ghost c0 = self.analysis.node_count;

        self.sub_breadth(root, depth, ctx);

        let ghost m1 = root.max;
        let n = root.children.len();
        proof {
            lemma_children_size_all_leaves(root.children@);
            assert forall|j: int| 0 <= j < root.children@.len() implies (#[trigger] root.children@[j]).1.well_formed()
                && root.children@[j].1.max_attained() by {
                assert(root.children@[j].1.fresh_leaf());
            }
            assert(root.well_formed());
            if old(root).max is Unevaluated || old(root).max == old(root).base@ {
                assert(m0 == b0);
                assert(root.max_attained());
            }
        }

        if depth >= self.settings.max_depth {
            return;
        }
        if self.memory_exceeded() {
            return;
        }

        let mut i: usize = 0;
        while i < n
            invariant
                i <= n,
                n == root.children@.len(),
                depth < self.settings.max_depth,
                self.settings.max_depth < usize::MAX,
                self.domain == old(self).domain,
                self.settings == old(self).settings,
                root.data == old(root).data,
                root.base@ == b0,
                m0 matches Utility::Finite(_),
                spec_at_least(m1, m0),
                old(root).max matches Utility::Finite(_)
                    ==> m0 == old(root).max && b0 == old(root).base@,
                (old(root).max is Unevaluated || old(root).max == old(root).base@) ==> m0 == b0,
                root.max matches Utility::Finite(_),
                spec_at_least(root.max, m1),
                forall|j: int|
                    0 <= j < i ==> (#[trigger] root.children@[j]).1.well_formed()
                        && root.children@[j].1.max_attained(),
                forall|j: int| i <= j < n ==> (#[trigger] root.children@[j]).1.fresh_leaf(),
                forall|j: int|
                    0 <= j < n ==> spec_at_least(root.max, (#[trigger] root.children@[j]).1.max),
                root.max == m0 || exists|j: int|
                    0 <= j < n && root.max == (#[trigger] root.children@[j]).1.max,
                self.settings.analysis ==> self.analysis.node_count as int == spec_count_add(
                    c0 as int,
                    children_size(root.children@) as int,
                ),
                !self.settings.analysis ==> self.analysis.node_count == c0,
            decreases n - i,
        {
            let ghost prev_children = root.children@;
            let ghost prev_max = root.max;
            let r = self.domain.execute(&root.data, &root.children[i].0, ctx);
            if r.is_ok() {
                let pair = vstd::std_specs::vec::vec_index_mut(&mut root.children, i);
                let ch = &mut pair.1;
                self.full(ch, depth + 1, ctx);
                // Undo the change made to the context to reset state.
                self.domain.undo(&root.children[i].1.data, ctx);
                proof {
                    lemma_children_size_update(prev_children, i as int, root.children@[i as int]);
                    assert(prev_children[i as int].1.tree_size() == 1);
                    assert(forall|j: int|
                        0 <= j < n && j != i ==> (#[trigger] root.children@[j])
                            == prev_children[j]);
                }
                // Update the maximum utility since the child has changed.
                if root.children[i].1.max.exceeds(&root.max) {
                    root.max = root.children[i].1.max;
                }
                proof {
                    if root.max == prev_max {
                        if prev_max != m0 {
                            let j = choose|j: int|
                                0 <= j < n && prev_max == (#[trigger] prev_children[j]).1.max;
                            if j == i {
                                assert(spec_at_least(root.children@[i as int].1.max, prev_max));
                                assert(root.max == root.children@[i as int].1.max);
                            } else {
                                assert(root.max == root.children@[j].1.max);
                            }
                        }
                    } else {
                        assert(root.max == root.children@[i as int].1.max);
                    }
                }
            }
            i += 1;
        }
    }

    /// Only picks choices that do not lower utility, exploring a single
    /// path beyond the current depth: a local search.
    ///
    /// To find the global maximum this way the utility landscape along the
    /// chosen branch must be well behaved; no guarantee is made otherwise.
    /// With elimination enabled, all but the chosen branch are discarded
    /// after each step, which bounds memory to a single active path: the
    /// resulting tree keeps at most one child per node, except for the
    /// final breadth of leaves.  The well-formedness and attainment
    /// guarantees are the same as for [`Ai::full`].
    pub fn greedy(
        &mut self,
        root: &mut Node<D::Data, D::Action>,
        depth: usize,
        ctx: &mut D::Ctx,
    ) where D::Action: Clone
        requires
            depth < usize::MAX,
            old(self).settings.max_depth < usize::MAX,
        ensures
            final(self).domain == old(self).domain,
            final(self).settings == old(self).settings,
            final(root).data == old(root).data,
            final(root).well_formed(),
            old(root).max matches Utility::Finite(_) ==> spec_at_least(
                final(root).max,
                old(root).max,
            ),
            old(root).max matches Utility::Finite(_) ==> final(root).base@ == old(root).base@,
            (old(root).max is Unevaluated || old(root).max == old(root).base@)
                ==> final(root).max_attained(),
            old(self).settings.greed_elim ==> final(root).greedy_pruned(),
            old(self).settings.analysis && !old(self).settings.greed_elim
                ==> final(self).analysis.node_count as int == spec_count_add(
                old(self).analysis.node_count as int,
                final(root).tree_size() as int - 1,
            ),
            !old(self).settings.analysis ==> final(self).analysis == old(self).analysis,
        decreases old(self).settings.max_depth - depth,
    {
        if !root.max.is_finite() {
            let u = self.utility_with_settings(&root.data, depth, ctx);
            root.max = Utility::Finite(u);
            root.base = Ghost(Utility::Finite(u));
        }
        let ghost m0 = root.max;
        let ghost b0 = root.base@;

        self.sub_breadth(root, depth, ctx);

        proof {
            lemma_children_size_all_leaves(root.children@);
            assert forall|j: int| 0 <= j < root.children@.len() implies (#[trigger] root.children@[j]).1.well_formed()
                && root.children@[j].1.max_attained() && root.children@[j].1.greedy_pruned() by {
                assert(root.children@[j].1.fresh_leaf());
            }
            assert(root.well_formed());
            assert(root.greedy_pruned());
            if old(root).max is Unevaluated || old(root).max == old(root).base@ {
                assert(m0 == b0);
                assert(root.max_attained());
            }
        }

        if depth >= self.settings.max_depth {
            return;
        }
        if self.memory_exceeded() {
            return;
        }

        match root.optimal() {
            Some(found) => {
                let ghost breadth_children = root.children@;
                // The chosen child's stored maximum is at least the node's
                // own, and breadth expansion never leaves it above: the two
                // are equal, so the choice stays attained after pruning.
                proof {
                    assert(root.max == root.children@[found as int].1.max);
                }
                let i: usize = if self.settings.greed_elim {
                    if self.settings.analysis {
                        let b = root.children.len();
                        self.analysis.node_count = self.analysis.node_count.saturating_sub(b - 1);
                    }
                    let chosen = root.children.swap_remove(found);
                    root.children.clear();
                    root.children.push(chosen);
                    proof {
                        assert(root.children@ =~= seq![breadth_children[found as int]]);
                    }
                    0
                } else {
                    found
                };
                let ghost prev_children = root.children@;
                let ghost prev_max = root.max;
                let r = self.domain.execute(&root.data, &root.children[i].0, ctx);
                if r.is_ok() {
                    let pair = vstd::std_specs::vec::vec_index_mut(&mut root.children, i);
                    let ch = &mut pair.1;
                    self.greedy(ch, depth + 1, ctx);
                    // Undo the change made to the context to reset state.
                    self.domain.undo(&root.children[i].1.data, ctx);
                    proof {
                        lemma_children_size_update(
                            prev_children,
                            i as int,
                            root.children@[i as int],
                        );
                        assert(forall|j: int|
                            0 <= j < prev_children.len() && j != i ==> (
                            #[trigger] root.children@[j]) == prev_children[j]);
                    }
                    // Update the maximum utility since the child has changed.
                    if root.children[i].1.max.exceeds(&root.max) {
                        root.max = root.children[i].1.max;
                    }
                    proof {
                        if root.max == prev_max {
                            assert(spec_at_least(root.children@[i as int].1.max, prev_max));
                            assert(root.max == root.children@[i as int].1.max);
                        } else {
                            assert(root.max == root.children@[i as int].1.max);
                        }
                        assert(root.well_formed());
                        if old(root).max is Unevaluated || old(root).max == old(root).base@ {
                            assert(root.max_attained());
                        }
                        if self.settings.greed_elim {
                            assert(root.children@.len() == 1);
                            assert(root.greedy_pruned());
                        }
                    }
                }
            },
            None => {},
        }
    }

    /// Updates the context by committing the optimal action of the given
    /// node: a real, permanent state transition, not paired with an undo.
    ///
    /// Returns the index of the chosen child, or `None` when the node is
    /// terminal or the domain rejects the action.
    pub fn update(&mut self, node: &Node<D::Data, D::Action>, ctx: &mut D::Ctx) -> (r: Option<
        usize,
    >)
        ensures
            *final(self) == *old(self),
            match node.spec_optimal() {
                Some(i) => r == Some(i as usize) || r is None,
                None => r is None,
            },
            r matches Some(i) ==> node.spec_optimal() == Some(i as int),
    {
        match node.optimal() {
            Some(i) => {
                match self.domain.execute(&node.data, &node.children[i].0, ctx) {
                    Ok(_) => Some(i),
                    Err(_) => None,
                }
            },
            None => None,
        }
    }
}

} // verus!
