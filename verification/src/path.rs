//! The life of one light path: a budget of scatterings that is spent hit
//! by hit, until the ray leaves the scene or the budget is gone.

use crate::scalar::{Scalar, INFINITY_BITS};
use vstd::prelude::*;

verus! {

/// Bit pattern of the lower end of the hit interval, one thousandth: a ray
/// that has just left a surface must not find that surface again at its own
/// origin.
pub const T_MIN_BITS: u64 = 0x3f50_624d_d2f1_a9fc;

/// Where a path stands.
#[derive(Clone, Copy, Debug, PartialEq, Eq, Structural)]
pub enum Path {
    /// The current ray is to be tested against the scene; `depth`
    /// scatterings are still allowed, at least one.
    Tracing { depth: u32 },
    /// The budget is spent: the path contributes black.
    Exhausted,
    /// The ray has left the scene: the path contributes the background
    /// along its last ray, attenuated by every scattering before.
    Escaped,
}

impl Path {
    /// A tracing path has budget left.
    pub open spec fn wf(self) -> bool {
        self matches Path::Tracing { depth } ==> depth > 0
    }

    /// Whether the path has come to its end.
    pub open spec fn finished(self) -> bool {
        !(self is Tracing)
    }

    /// The scatterings that are still allowed.
    pub open spec fn budget(self) -> nat {
        match self {
            Path::Tracing { depth } => depth as nat,
            _ => 0,
        }
    }

    /// The path of a fresh ray with a budget of `depth` scatterings.
    pub open spec fn start(depth: u32) -> Path {
        if depth == 0 {
            Path::Exhausted
        } else {
            Path::Tracing { depth }
        }
    }

    /// The path after the scene has answered: a miss lets the ray escape, a
    /// hit scatters it and costs one unit of budget. A finished path stays
    /// as it is.
    pub open spec fn after(self, hit: bool) -> Path {
        match self {
            Path::Tracing { depth } => if hit {
                Path::start((depth - 1) as u32)
            } else {
                Path::Escaped
            },
            _ => self,
        }
    }

    /// The path after a run of answers, first to last.
    pub open spec fn run(self, hits: Seq<bool>) -> Path
        decreases hits.len(),
    {
        if hits.len() == 0 {
            self
        } else {
            self.run(hits.drop_last()).after(hits.last())
        }
    }

    /// How many of the answers led to a scattering.
    pub open spec fn scatterings(self, hits: Seq<bool>) -> nat
        decreases hits.len(),
    {
        if hits.len() == 0 {
            0
        } else if self.run(hits.drop_last()) is Tracing && hits.last() {
            self.scatterings(hits.drop_last()) + 1
        } else {
            self.scatterings(hits.drop_last())
        }
    }

    /// Starts a path.
    pub fn begin(depth: u32) -> (p: Path)
        ensures
            p == Path::start(depth),
            p.wf(),
    {
        if depth == 0 {
            Path::Exhausted
        } else {
            Path::Tracing { depth }
        }
    }

    /// Tells whether the path is over.
    pub fn is_finished(self) -> (r: bool)
        ensures
            r == self.finished(),
    {
        match self {
            Path::Tracing { .. } => false,
            _ => true,
        }
    }

    /// Moves the path on by one answer of the scene.
    pub fn advance(self, hit: bool) -> (p: Path)
        requires
            self.wf(),
        ensures
            p == self.after(hit),
            p.wf(),
    {
        match self {
            Path::Tracing { depth } => {
                if hit {
                    Path::begin(depth - 1)
                } else {
                    Path::Escaped
                }
            },
            _ => self,
        }
    }

    /// Lower end of the interval in which hits count: one thousandth.
    pub open spec fn spec_t_min() -> Scalar {
        Scalar { bits: T_MIN_BITS }
    }

    /// Upper end of the interval in which hits count: positive infinity.
    pub open spec fn spec_t_max() -> Scalar {
        Scalar { bits: INFINITY_BITS }
    }

    /// Lower end of the interval in which hits count.
    #[verifier::when_used_as_spec(spec_t_min)]
    pub fn t_min() -> (t: Scalar)
        ensures
            t == Path::spec_t_min(),
    {
        Scalar::from_bits(T_MIN_BITS)
    }

    /// Upper end of the interval in which hits count: positive infinity.
    #[verifier::when_used_as_spec(spec_t_max)]
    pub fn t_max() -> (t: Scalar)
        ensures
            t == Path::spec_t_max(),
    {
        Scalar::infinity()
    }
}

/// A path spends its budget and no more: whatever the scene answers, the
/// scatterings and the budget that is left add up to the budget it began
/// with, so there are at most `depth` scatterings.
pub proof fn lemma_budget_is_spent(depth: u32, hits: Seq<bool>)
    ensures
        Path::start(depth).run(hits).wf(),
        Path::start(depth).run(hits).budget() + Path::start(depth).scatterings(hits) <= depth,
        Path::start(depth).run(hits) is Tracing ==> Path::start(depth).run(hits).budget()
            + Path::start(depth).scatterings(hits) == depth,
    decreases hits.len(),
{
    if hits.len() > 0 {
        lemma_budget_is_spent(depth, hits.drop_last());
    }
}

/// A path is over once the scene has answered as often as the budget
/// allows, and it stays over.
pub proof fn lemma_path_ends(depth: u32, hits: Seq<bool>)
    requires
        hits.len() >= depth,
    ensures
        Path::start(depth).run(hits).finished(),
    decreases hits.len(),
{
    if hits.len() > 0 {
        let front = hits.drop_last();
        lemma_budget_is_spent(depth, front);
        if Path::start(depth).run(front) is Tracing {
            lemma_hits_while_tracing(depth, front);
        }
    }
}

/// While a path is still tracing, every answer so far was a hit that
/// scattered it.
pub proof fn lemma_hits_while_tracing(depth: u32, hits: Seq<bool>)
    requires
        Path::start(depth).run(hits) is Tracing,
    ensures
        Path::start(depth).scatterings(hits) == hits.len(),
    decreases hits.len(),
{
    if hits.len() > 0 {
        lemma_hits_while_tracing(depth, hits.drop_last());
    }
}

/// A ray that misses at once escapes with no scattering: its colour is the
/// background's, unattenuated.
pub proof fn lemma_first_miss_escapes(depth: u32)
    requires
        depth > 0,
    ensures
        Path::start(depth).run(seq![false]) == Path::Escaped,
        Path::start(depth).scatterings(seq![false]) == 0,
{
    let hits = seq![false];
    assert(hits.drop_last() =~= Seq::<bool>::empty());
    assert(Path::start(depth).run(hits.drop_last()) == Path::start(depth));
    assert(Path::start(depth).scatterings(hits.drop_last()) == 0);
    assert(!hits.last());
}

} // verus!
