use vstd::prelude::*;

verus! {

/// The given value clamped to the range of `i64`.
pub open spec fn spec_clamp_i64(v: int) -> int {
    if v < i64::MIN {
        i64::MIN as int
    } else if v > i64::MAX {
        i64::MAX as int
    } else {
        v
    }
}

/// The utility after subtracting the per-depth discount, clamped to the
/// range of `i64`.
pub open spec fn spec_discount(eps: int, utility: int, depth: int) -> int {
    spec_clamp_i64(utility - eps * depth)
}

/// AI settings.
pub struct AiSettings {
    /// Maximum depth.
    pub max_depth: usize,
    /// Utility discount per action depth.
    ///
    /// This is usually a small positive number.  Zero disables discounting.
    pub eps_depth: i64,
    /// Whether to run analysis (node counting).
    pub analysis: bool,
    /// Eliminate unexplored actions when using greedy search.
    pub greed_elim: bool,
    /// A limit to estimated memory usage in MiB, causing the search to
    /// terminate.
    ///
    /// This limit is only checked occasionally, e.g. after breadth search,
    /// so actual memory usage before termination will exceed the limit.
    pub max_mib: Option<u64>,
}

impl AiSettings {
    /// Creates new settings: analysis off, greedy elimination on, no memory
    /// limit.
    pub fn new(max_depth: usize, eps_depth: i64) -> (r: AiSettings)
        ensures
            r.max_depth == max_depth,
            r.eps_depth == eps_depth,
            !r.analysis,
            r.greed_elim,
            r.max_mib is None,
    {
        AiSettings { max_depth, eps_depth, analysis: false, greed_elim: true, max_mib: None }
    }

    /// Subtracts the depth discount `eps_depth * depth` from a utility,
    /// saturating at the range of `i64`.
    pub fn discount(&self, utility: i64, depth: usize) -> (r: i64)
        ensures
            r as int == spec_discount(self.eps_depth as int, utility as int, depth as int),
    {
        let e: i128 = self.eps_depth as i128;
        let d: i128 = depth as i128;
        proof {
            assert(-0x7fff_ffff_ffff_ffff_8000_0000_0000_0000 <= e * d
                <= 0x7fff_ffff_ffff_ffff_8000_0000_0000_0000)
                by (nonlinear_arith)
                requires
                    -0x8000_0000_0000_0000 <= e <= 0x7fff_ffff_ffff_ffff,
                    0 <= d <= 0xffff_ffff_ffff_ffff,
            ;
        }
        let diff: i128 = (utility as i128) - e * d;
        if diff > (i64::MAX as i128) {
            i64::MAX
        } else if diff < (i64::MIN as i128) {
            i64::MIN
        } else {
            diff as i64
        }
    }
}

} // verus!
