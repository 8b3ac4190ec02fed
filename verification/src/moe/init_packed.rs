//! Setup of experts that are kept packed.
use crate::catalog::{KernelCatalog, KernelMissing};
use crate::device::KernelHandle;
use crate::weights::{PackedExpertWeights, PackedQ4Weight, QuantWeight};
use vstd::prelude::*;

verus! {

/// Four-bit views that are stacked per projection.
#[derive(Debug, PartialEq, Eq)]
pub struct PackedGgufInit {
    pub packed_path: bool,
    pub gate: Option<Vec<PackedQ4Weight>>,
    pub up: Option<Vec<PackedQ4Weight>>,
    /// Only where every down projection is four-bit.
    pub down: Option<Vec<PackedQ4Weight>>,
}

/// Every down projection is four-bit.
pub open spec fn all_down_q4(experts: Seq<PackedExpertWeights>) -> bool {
    forall|e: int| 0 <= e < experts.len() ==> (#[trigger] experts[e]).down is PackedQ4
}

/// The four-bit down projection of an expert.
pub open spec fn down_q4(x: PackedExpertWeights) -> PackedQ4Weight {
    x.down->PackedQ4_0
}

impl PackedGgufInit {
    /// Collects the views of all experts, where they are kept packed.
    pub fn new(experts: Option<&Vec<PackedExpertWeights>>) -> (r: PackedGgufInit)
        ensures
            r.packed_path == (experts is Some),
            match experts {
                None => r.gate is None && r.up is None && r.down is None,
                Some(xs) => {
                    &&& r.gate matches Some(g) && g@ == xs@.map_values(
                        |x: PackedExpertWeights| x.gate,
                    )
                    &&& r.up matches Some(u) && u@ == xs@.map_values(|x: PackedExpertWeights| x.up)
                    &&& r.down is Some <==> all_down_q4(xs@)
                    &&& r.down matches Some(d) ==> d@ == xs@.map_values(
                        |x: PackedExpertWeights| down_q4(x),
                    )
                },
            },
    {
        let xs: &Vec<PackedExpertWeights> = match experts {
            Some(xs) => xs,
            None => {
                return PackedGgufInit { packed_path: false, gate: None, up: None, down: None };
            },
        };
        let mut gate: Vec<PackedQ4Weight> = Vec::new();
        let mut up: Vec<PackedQ4Weight> = Vec::new();
        let mut down: Vec<PackedQ4Weight> = Vec::new();
        let mut all: bool = true;
        let mut i: usize = 0;
        while i < xs.len()
            invariant
                i <= xs@.len(),
                gate@ == xs@.take(i as int).map_values(|x: PackedExpertWeights| x.gate),
                up@ == xs@.take(i as int).map_values(|x: PackedExpertWeights| x.up),
                all ==> forall|e: int| 0 <= e < i ==> (#[trigger] xs@[e]).down is PackedQ4,
                all ==> down@ == xs@.take(i as int).map_values(
                    |x: PackedExpertWeights| down_q4(x),
                ),
                !all ==> exists|e: int| 0 <= e < i && !((#[trigger] xs@[e]).down is PackedQ4),
            decreases xs@.len() - i,
        {
            let x: PackedExpertWeights = xs[i];
            gate.push(x.gate);
            up.push(x.up);
            match x.down {
                QuantWeight::PackedQ4(w) => {
                    down.push(w);
                },
                _ => {
                    assert(!(xs@[i as int].down is PackedQ4));
                    all = false;
                },
            }
            i = i + 1;
            assert(gate@ =~= xs@.take(i as int).map_values(|x: PackedExpertWeights| x.gate));
            assert(up@ =~= xs@.take(i as int).map_values(|x: PackedExpertWeights| x.up));
            assert(all ==> down@ =~= xs@.take(i as int).map_values(
                |x: PackedExpertWeights| down_q4(x),
            ));
        }
        assert(xs@.take(i as int) =~= xs@);
        PackedGgufInit {
            packed_path: true,
            gate: Some(gate),
            up: Some(up),
            down: if all {
                Some(down)
            } else {
                None
            },
        }
    }

    /// A kernel that other formats cannot do without. Packed checkpoints load a
    /// subset of the kernels, so for them it may be missing.
    pub fn required_kernel(&self, catalog: &KernelCatalog, module: &str, function: &str) -> (r: Result<
        KernelHandle,
        KernelMissing,
    >)
        ensures
            self.packed_path ==> r == Ok::<KernelHandle, KernelMissing>(
                catalog.find_or_null(module@, function@),
            ),
            !self.packed_path ==> match catalog.find(module@, function@) {
                Some(h) => r == Ok::<KernelHandle, KernelMissing>(h),
                None => r matches Err(e) && e.names(module@, function@),
            },
    {
        if self.packed_path {
            Ok(catalog.try_kernel(module, function))
        } else {
            catalog.kernel(module, function)
        }
    }

    /// A kernel that may be missing.
    pub fn kernel(&self, catalog: &KernelCatalog, module: &str, function: &str) -> (r: KernelHandle)
        ensures
            r == catalog.find_or_null(module@, function@),
    {
        catalog.try_kernel(module, function)
    }
}

} // verus!
