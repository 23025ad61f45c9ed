//! A utility maximizer library based on a maximum tree structure.
//!
//! A maximum tree stores, at every node, the maximum utility of the node
//! itself or any of its descendants.  Once such a tree is constructed,
//! searching for the best course of action is trivial: each node caches
//! the best utility reachable below it, so children can be compared
//! directly and followed with [`Node::optimal`], [`Node::optimal_path`]
//! and [`Node::terminal`].
//!
//! - [`Ai::full`] does a complete search, finding the global maximum.
//! - [`Ai::greedy`] does a local search, finding a local maximum.
//! - [`Ai::sub_breadth`] constructs children for every available action.
//!
//! The `full` and `greedy` algorithms assume determinism and perfect
//! information in the context, so they should only be used in simulations
//! or controlled environments.  A concrete application plugs in through
//! the [`Domain`] trait: utility evaluation, action enumeration, action
//! execution and undo, all against a single shared mutable context.  Every
//! execution during search is paired with an undo, so a search call leaves
//! the context as it found it whenever the domain's undo is an exact
//! inverse of its execute.

mod analysis;
mod domain;
mod node;
pub mod prelude;
mod settings;
mod utility;

pub use analysis::spec_count_add;
pub use analysis::AiAnalysis;
pub use domain::Ai;
pub use domain::Domain;
pub use node::actions_distinct;
pub use node::children_size;
pub use node::children_true_max;
pub use node::lemma_children_size_all_leaves;
pub use node::lemma_children_size_update;
pub use node::lemma_opt_from_characterization;
pub use node::opt_from;
pub use node::Node;
pub use settings::spec_clamp_i64;
pub use settings::spec_discount;
pub use settings::AiSettings;
pub use utility::spec_at_least;
pub use utility::spec_exceeds;
pub use utility::Utility;
