use vstd::prelude::*;

verus! {

/// The node count after adding `k` nodes to a count of `c`, saturating at
/// the range of the counter.
pub open spec fn spec_count_add(c: int, k: int) -> int {
    if c + k > usize::MAX {
        usize::MAX as int
    } else {
        c + k
    }
}

/// Stores results from analysis.
pub struct AiAnalysis {
    /// Keeps track of the number of live tree nodes.
    ///
    /// The search drivers raise it once per created child node and lower it
    /// once per eliminated one, saturating at the range of the counter
    /// instead of overflowing.
    pub node_count: usize,
}

impl AiAnalysis {
    /// Creates a new AI analysis.
    pub fn new() -> (r: AiAnalysis)
        ensures
            r.node_count == 0,
    {
        AiAnalysis { node_count: 0 }
    }

    /// Estimates the memory usage of nodes in whole GiB, rounded down.
    pub fn gib(&self, node_size: usize) -> (r: u128)
        ensures
            r as int == (self.node_count as int * node_size as int) / 0x40000000,
    {
        self.bytes(node_size) / 0x40000000
    }

    /// Estimates the memory usage of nodes in whole MiB, rounded down.
    pub fn mib(&self, node_size: usize) -> (r: u128)
        ensures
            r as int == (self.node_count as int * node_size as int) / 0x100000,
    {
        self.bytes(node_size) / 0x100000
    }

    /// Estimates the memory usage of nodes in whole KiB, rounded down.
    pub fn kib(&self, node_size: usize) -> (r: u128)
        ensures
            r as int == (self.node_count as int * node_size as int) / 0x400,
    {
        self.bytes(node_size) / 0x400
    }

    /// Estimates the memory usage of nodes in bytes: the node count times
    /// the given per-node size.
    pub fn bytes(&self, node_size: usize) -> (r: u128)
        ensures
            r as int == self.node_count as int * node_size as int,
    {
        let c: u128 = self.node_count as u128;
        let s: u128 = node_size as u128;
        proof {
            assert(c * s < 0xffffffffffffffffffffffffffffffff)
                by (nonlinear_arith)
                requires
                    0 <= c <= 0xffff_ffff_ffff_ffff,
                    0 <= s <= 0xffff_ffff_ffff_ffff,
            ;
        }
        c * s
    }
}

} // verus!
