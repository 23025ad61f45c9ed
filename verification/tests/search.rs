//! Failure-free chain domains with a fixed branching factor, used to check
//! node accounting, pruning shape and memory-ceiling termination.

use max_tree::Ai;
use max_tree::AiAnalysis;
use max_tree::AiSettings;
use max_tree::Domain;
use max_tree::Node;
use max_tree::Utility;

/// Every state offers the actions `0..b`, all of which succeed.  The
/// context is the stack of actions taken so far.
struct Chain {
    b: u8,
}

fn score(ctx: &[u8]) -> i64 {
    ctx.iter().fold(0i64, |acc, &v| acc * 10 + v as i64 + 1)
}

impl Domain for Chain {
    type Data = u8;
    type Action = u8;
    type Ctx = Vec<u8>;

    fn utility(&self, _data: &u8, ctx: &Vec<u8>) -> i64 {
        score(ctx)
    }

    fn actions(&self, _data: &u8, _ctx: &Vec<u8>) -> Vec<u8> {
        (0..self.b).collect()
    }

    fn execute(&self, _data: &u8, action: &u8, ctx: &mut Vec<u8>) -> Result<u8, ()> {
        ctx.push(*action);
        Ok(*action)
    }

    fn undo(&self, _data: &u8, ctx: &mut Vec<u8>) {
        ctx.pop();
    }
}

fn chain_ai(b: u8, max_depth: usize) -> Ai<Chain> {
    let mut settings = AiSettings::new(max_depth, 0);
    settings.analysis = true;
    Ai { domain: Chain { b }, settings, analysis: AiAnalysis::new() }
}

/// The best score over every action sequence of length at most `depth`.
fn brute_force_max(b: u8, depth: usize, prefix: &mut Vec<u8>) -> i64 {
    let mut best = score(prefix);
    if depth > 0 {
        for a in 0..b {
            prefix.push(a);
            let sub = brute_force_max(b, depth - 1, prefix);
            prefix.pop();
            if sub > best {
                best = sub;
            }
        }
    }
    best
}

fn geometric(b: usize, depth: usize) -> usize {
    let mut total = 0;
    let mut level = 1;
    for _ in 0..depth {
        level *= b;
        total += level;
    }
    total
}

#[test]
fn full_counts_geometrically_and_finds_brute_force_max() {
    // Every node at depth up to and including the bound is expanded once,
    // so a bound of `d` builds `d + 1` levels below the root.
    for (b, max_depth) in [(2u8, 2usize), (3u8, 1usize)] {
        let mut ai = chain_ai(b, max_depth);
        let mut root: Node<u8, u8> = Node::root(0);
        let mut ctx: Vec<u8> = Vec::new();
        ai.full(&mut root, 0, &mut ctx);

        assert_eq!(ctx, Vec::<u8>::new());
        assert_eq!(ai.analysis.node_count, geometric(b as usize, max_depth + 1));

        let mut prefix = Vec::new();
        let expected = brute_force_max(b, max_depth + 1, &mut prefix);
        assert_eq!(root.max, Utility::Finite(expected));
    }
}

#[test]
fn full_without_analysis_counts_nothing() {
    let mut ai = chain_ai(2, 3);
    ai.settings.analysis = false;
    let mut root: Node<u8, u8> = Node::root(0);
    let mut ctx: Vec<u8> = Vec::new();
    ai.full(&mut root, 0, &mut ctx);
    assert_eq!(ai.analysis.node_count, 0);
    // Depth bound 3 explores sequences of up to four actions; the best
    // pushes the high action every time.
    assert_eq!(root.max, Utility::Finite(2222));
}

/// Asserts the shape greedy elimination leaves behind: at most one child
/// per node, except that the deepest expanded node keeps a breadth of
/// childless children.  Returns the path length to the deepest node.
fn assert_pruned_shape(node: &Node<u8, u8>) -> usize {
    if node.children.len() > 1 {
        for (_, child) in &node.children {
            assert_eq!(child.children.len(), 0);
        }
        1
    } else {
        match node.children.first() {
            Some((_, child)) => 1 + assert_pruned_shape(child),
            None => 0,
        }
    }
}

#[test]
fn greedy_elimination_keeps_single_path() {
    let b = 3u8;
    let depth = 4usize;
    let mut ai = chain_ai(b, depth);
    let mut root: Node<u8, u8> = Node::root(0);
    let mut ctx: Vec<u8> = Vec::new();
    ai.greedy(&mut root, 0, &mut ctx);

    assert_eq!(ctx, Vec::<u8>::new());
    assert_pruned_shape(&root);
    // One retained node per fully expanded level plus the final breadth.
    assert_eq!(ai.analysis.node_count, depth + b as usize);
    assert!(ai.analysis.node_count <= depth + b as usize);
}

#[test]
fn greedy_without_elimination_keeps_breadths() {
    let b = 3u8;
    let depth = 4usize;
    let mut ai = chain_ai(b, depth);
    ai.settings.greed_elim = false;
    let mut root: Node<u8, u8> = Node::root(0);
    let mut ctx: Vec<u8> = Vec::new();
    ai.greedy(&mut root, 0, &mut ctx);

    // One breadth of three children at each of the five expanded nodes.
    assert_eq!(ai.analysis.node_count, (b as usize) * (depth + 1));
    assert_eq!(root.children.len(), b as usize);
}

#[test]
fn memory_ceiling_stops_both_searches_early() {
    for greedy in [false, true] {
        let mut ai = chain_ai(2, 10);
        ai.settings.max_mib = Some(0);
        let mut root: Node<u8, u8> = Node::root(0);
        let mut ctx: Vec<u8> = Vec::new();
        if greedy {
            ai.greedy(&mut root, 0, &mut ctx);
        } else {
            ai.full(&mut root, 0, &mut ctx);
        }
        // Only the first breadth expansion ran: depth reached is 1, far
        // below the depth bound of 10.
        assert_eq!(ai.analysis.node_count, 2);
        assert_eq!(root.children.len(), 2);
        for (_, child) in &root.children {
            assert_eq!(child.children.len(), 0);
        }
    }
}

#[test]
fn memory_check_needs_analysis_and_ceiling() {
    let mut ai = chain_ai(2, 3);
    ai.analysis.node_count = usize::MAX;
    assert!(!ai.memory_exceeded());
    ai.settings.max_mib = Some(0);
    let mut off = chain_ai(2, 3);
    off.settings.analysis = false;
    off.settings.max_mib = Some(0);
    off.analysis.node_count = usize::MAX;
    assert!(!off.memory_exceeded());
    assert!(ai.memory_exceeded());
    ai.analysis.node_count = 0;
    assert!(ai.memory_exceeded());
    ai.settings.max_mib = Some(u64::MAX);
    assert!(!ai.memory_exceeded());
}

#[test]
fn node_size_matches_layout() {
    let ai = chain_ai(2, 3);
    assert_eq!(ai.node_size(), std::mem::size_of::<Node<u8, u8>>());
}

#[test]
fn sub_breadth_alone_keeps_max_unevaluated() {
    let mut ai = chain_ai(2, 3);
    let mut root: Node<u8, u8> = Node::root(0);
    let mut ctx: Vec<u8> = Vec::new();
    ai.sub_breadth(&mut root, 0, &mut ctx);

    assert_eq!(root.max, Utility::Unevaluated);
    assert_eq!(root.children.len(), 2);
    // Comparisons against an unevaluated maximum are all false, so the
    // node still counts as terminal despite having children.
    assert!(root.terminal());
    assert_eq!(root.optimal(), None);
    assert_eq!(root.optimal_path(), Vec::<usize>::new());
    assert_eq!(ai.analysis.node_count, 2);
}

#[test]
fn sub_breadth_replaces_children() {
    let mut ai = chain_ai(2, 3);
    let mut root: Node<u8, u8> = Node::root(0);
    let mut ctx: Vec<u8> = Vec::new();
    ai.sub_breadth(&mut root, 0, &mut ctx);
    ai.sub_breadth(&mut root, 0, &mut ctx);
    // Children are replaced, not merged; the counter keeps counting.
    assert_eq!(root.children.len(), 2);
    assert_eq!(ai.analysis.node_count, 4);
}

/// A domain that offers no actions at all.
struct Stuck;

impl Domain for Stuck {
    type Data = ();
    type Action = u8;
    type Ctx = ();

    fn utility(&self, _data: &(), _ctx: &()) -> i64 {
        42
    }

    fn actions(&self, _data: &(), _ctx: &()) -> Vec<u8> {
        Vec::new()
    }

    fn execute(&self, _data: &(), _action: &u8, _ctx: &mut ()) -> Result<(), ()> {
        Err(())
    }

    fn undo(&self, _data: &(), _ctx: &mut ()) {}
}

#[test]
fn empty_action_space_keeps_own_utility() {
    let mut settings = AiSettings::new(3, 5);
    settings.analysis = true;
    let mut ai = Ai { domain: Stuck, settings, analysis: AiAnalysis::new() };
    let mut root: Node<(), u8> = Node::root(());
    let mut ctx = ();
    ai.full(&mut root, 2, &mut ctx);
    // Own utility discounted at the entry depth: 42 - 5 * 2.
    assert_eq!(root.max, Utility::Finite(32));
    assert!(root.terminal());
    assert_eq!(ai.analysis.node_count, 0);
    assert_eq!(ai.update(&root, &mut ctx), None);
}

/// A domain where distinct actions can tie on utility: the utility depends
/// only on the last action taken, and the two high actions score equally.
struct Tied;

impl Domain for Tied {
    type Data = u8;
    type Action = u8;
    type Ctx = Vec<u8>;

    fn utility(&self, _data: &u8, ctx: &Vec<u8>) -> i64 {
        match ctx.last() {
            Some(&1) | Some(&2) => 5,
            _ => 0,
        }
    }

    fn actions(&self, _data: &u8, _ctx: &Vec<u8>) -> Vec<u8> {
        vec![0, 1, 2]
    }

    fn execute(&self, _data: &u8, action: &u8, ctx: &mut Vec<u8>) -> Result<u8, ()> {
        ctx.push(*action);
        Ok(*action)
    }

    fn undo(&self, _data: &u8, ctx: &mut Vec<u8>) {
        ctx.pop();
    }
}

#[test]
fn optimal_breaks_ties_towards_first() {
    let mut ai = Ai { domain: Tied, settings: AiSettings::new(0, 0), analysis: AiAnalysis::new() };
    let mut root: Node<u8, u8> = Node::root(0);
    let mut ctx: Vec<u8> = Vec::new();
    ai.full(&mut root, 0, &mut ctx);
    // Children score 0, 5, 5; the first of the two tied winners is chosen.
    assert_eq!(root.max, Utility::Finite(5));
    assert_eq!(root.optimal(), Some(1));
}

/// A domain with constant utility: everything ties with everything.
struct Flat;

impl Domain for Flat {
    type Data = u8;
    type Action = u8;
    type Ctx = Vec<u8>;

    fn utility(&self, _data: &u8, _ctx: &Vec<u8>) -> i64 {
        0
    }

    fn actions(&self, _data: &u8, _ctx: &Vec<u8>) -> Vec<u8> {
        vec![0, 1]
    }

    fn execute(&self, _data: &u8, action: &u8, ctx: &mut Vec<u8>) -> Result<u8, ()> {
        ctx.push(*action);
        Ok(*action)
    }

    fn undo(&self, _data: &u8, ctx: &mut Vec<u8>) {
        ctx.pop();
    }
}

#[test]
fn optimal_path_follows_first_child_on_ties() {
    let mut ai = Ai { domain: Flat, settings: AiSettings::new(2, 0), analysis: AiAnalysis::new() };
    let mut root: Node<u8, u8> = Node::root(0);
    let mut ctx: Vec<u8> = Vec::new();
    ai.full(&mut root, 0, &mut ctx);
    // Every child ties with its parent, so the path always descends into
    // the first child, down to the deepest expanded level.
    assert_eq!(root.optimal_path(), vec![0, 0, 0]);
}

/// A domain that lists the same action twice.
struct Doubled;

impl Domain for Doubled {
    type Data = ();
    type Action = u8;
    type Ctx = ();

    fn utility(&self, _data: &(), _ctx: &()) -> i64 {
        0
    }

    fn actions(&self, _data: &(), _ctx: &()) -> Vec<u8> {
        vec![5, 5]
    }

    fn execute(&self, _data: &(), _action: &u8, _ctx: &mut ()) -> Result<(), ()> {
        Ok(())
    }

    fn undo(&self, _data: &(), _ctx: &mut ()) {}
}

#[test]
fn duplicate_actions_are_detected() {
    let mut ai = Ai {
        domain: Doubled,
        settings: AiSettings::new(0, 0),
        analysis: AiAnalysis::new(),
    };
    let mut root: Node<(), u8> = Node::root(());
    let mut ctx = ();
    ai.full(&mut root, 0, &mut ctx);
    assert_eq!(root.children.len(), 2);
    assert!(!root.check_unique_actions());
}
