//! The structure-of-arrays splat collection that the importer accumulates
//! and snapshots. A vector is present exactly when the PLY header declared
//! its sentinel property; all present vectors run in parallel.

use crate::bits::{QuatBits, Vec3Bits};
use vstd::prelude::*;

verus! {

/// A snapshot of N splats: parallel per-splat vectors, each optional but —
/// when present — of length N (`sh_coeffs` of length `N * sh_per_splat`).
/// Scalars are raw single-precision bit patterns.
#[derive(Debug)]
pub struct Splats {
    pub means: Vec<Vec3Bits>,
    pub rotations: Option<Vec<QuatBits>>,
    pub log_scales: Option<Vec<Vec3Bits>>,
    pub sh_coeffs: Option<Vec<u32>>,
    pub opacities: Option<Vec<u32>>,
    pub sh_per_splat: usize,
}

/// Mathematical view of a snapshot.
pub struct SplatsView {
    pub means: Seq<Vec3Bits>,
    pub rotations: Option<Seq<QuatBits>>,
    pub log_scales: Option<Seq<Vec3Bits>>,
    pub sh_coeffs: Option<Seq<u32>>,
    pub opacities: Option<Seq<u32>>,
    pub sh_per_splat: usize,
}

impl View for Splats {
    type V = SplatsView;

    open spec fn view(&self) -> SplatsView {
        SplatsView {
            means: self.means@,
            rotations: match self.rotations {
                Some(ref v) => Some(v@),
                None => None,
            },
            log_scales: match self.log_scales {
                Some(ref v) => Some(v@),
                None => None,
            },
            sh_coeffs: match self.sh_coeffs {
                Some(ref v) => Some(v@),
                None => None,
            },
            opacities: match self.opacities {
                Some(ref v) => Some(v@),
                None => None,
            },
            sh_per_splat: self.sh_per_splat,
        }
    }
}

/// Internal consistency of a snapshot: every present vector runs parallel to
/// `means`, and the SH vector holds `sh_per_splat` values per splat.
pub open spec fn splats_wf(s: SplatsView) -> bool {
    &&& match s.rotations {
        Some(r) => r.len() == s.means.len(),
        None => true,
    }
    &&& match s.log_scales {
        Some(v) => v.len() == s.means.len(),
        None => true,
    }
    &&& match s.opacities {
        Some(v) => v.len() == s.means.len(),
        None => true,
    }
    &&& match s.sh_coeffs {
        Some(v) => v.len() == s.means.len() * s.sh_per_splat && s.sh_per_splat >= 3,
        None => true,
    }
}

impl Splats {
    /// The number of splats in the snapshot.
    pub fn num_splats(&self) -> (r: usize)
        ensures
            r == self@.means.len(),
    {
        self.means.len()
    }
}

} // verus!
