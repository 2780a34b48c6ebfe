//! Model recommendation: choosing a model file that fits the hardware.
use vstd::prelude::*;
use crate::model::format_selector::{
    is_gguf, lowered, select_best_gguf, sizes_of, usable_budget, winner, FileCandidate,
};
use crate::text;

verus! {

/// Task type for model selection.
#[derive(Debug, Clone, Copy, PartialEq, Eq, Structural)]
pub enum TaskType {
    Chat,
    Code,
    Embedding,
    Creative,
    Reasoning,
    Summarization,
    Translation,
}

/// Hardware profile for recommendations.
#[derive(Debug, Clone)]
pub struct HardwareProfile {
    pub ram_gb: u64,
    pub gpu_vram_gb: Option<u64>,
    pub cpu_cores: usize,
    pub has_avx2: bool,
    pub has_neon: bool,
}

impl HardwareProfile {
    /// The default profile: 8 GB of RAM, no GPU, 4 cores with AVX2.
    pub fn default() -> (r: HardwareProfile)
        ensures
            r.ram_gb == 8,
            r.gpu_vram_gb is None,
            r.cpu_cores == 4,
            r.has_avx2,
            !r.has_neon,
    {
        HardwareProfile { ram_gb: 8, gpu_vram_gb: None, cpu_cores: 4, has_avx2: true, has_neon: false }
    }
}

pub const GIB: u64 = 1073741824;

/// Model recommender.
pub struct ModelRecommender;

/// The RAM budget for a profile: its RAM in bytes less 2 GiB, or 0.
pub open spec fn ram_budget(hw: HardwareProfile) -> u64 {
    let ram = hw.ram_gb * GIB;
    if ram >= 2 * GIB {
        (ram - 2 * GIB) as u64
    } else {
        0
    }
}

/// The VRAM budget for a profile, in bytes.
pub open spec fn vram_budget(hw: HardwareProfile) -> Option<u64> {
    match hw.gpu_vram_gb {
        Some(g) => Some((g * GIB) as u64),
        None => None,
    }
}

impl ModelRecommender {
    pub fn new() -> (r: ModelRecommender) {
        ModelRecommender
    }

    /// Recommends the GGUF file that best fits the hardware budget (RAM less 2 GiB,
    /// or the VRAM when larger), among actual file candidates: the first candidate
    /// named as the file `select_best_gguf` chooses.
    pub fn recommend_from_files(&self, candidates: &[FileCandidate], hardware: &HardwareProfile) -> (r:
        Option<FileCandidate>)
        requires
            hardware.ram_gb * GIB <= u64::MAX,
            ram_budget(*hardware) * 75 <= u64::MAX,
            hardware.gpu_vram_gb matches Some(g) ==> g * GIB * 75 <= u64::MAX,
        ensures
            match r {
                None => forall|j: int|
                    0 <= j < candidates@.len() ==> !is_gguf(#[trigger] lowered(candidates@)[j]),
                Some(c) => exists|i: int, k: int|
                    winner(
                        lowered(candidates@),
                        sizes_of(candidates@),
                        usable_budget(ram_budget(*hardware), vram_budget(*hardware)) as u64,
                        i,
                    ) && 0 <= k <= i && candidates@[k].name@ == candidates@[i].name@ && (forall|
                        j: int,
                    | 0 <= j < k ==> #[trigger] candidates@[j].name@ != candidates@[i].name@)
                        && c.name@ == candidates@[k].name@ && c.size == candidates@[k].size,
            },
    {
        let ram_bytes = hardware.ram_gb * GIB;
        let vram_bytes = match hardware.gpu_vram_gb {
            Some(g) => Some(g * GIB),
            None => None,
        };
        let ram_left = ram_bytes.saturating_sub(2 * GIB);
        let winner_name = match select_best_gguf(candidates, ram_left, vram_bytes) {
            Some(n) => n,
            None => {
                return None;
            },
        };
        let ghost wi = choose|i: int|
            winner(
                lowered(candidates@),
                sizes_of(candidates@),
                usable_budget(ram_left, vram_bytes) as u64,
                i,
            ) && winner_name@ == candidates@[i].name@;
        let ghost lw = lowered(candidates@);
        let ghost sz = sizes_of(candidates@);
        let ghost b = usable_budget(ram_left, vram_bytes) as u64;
        assert(b == usable_budget(ram_budget(*hardware), vram_budget(*hardware)) as u64);
        assert(winner(lw, sz, b, wi));
        let mut k: usize = 0;
        while k < candidates.len()
            invariant
                k <= candidates@.len(),
                lw == lowered(candidates@),
                sz == sizes_of(candidates@),
                b == usable_budget(ram_budget(*hardware), vram_budget(*hardware)) as u64,
                winner(lw, sz, b, wi),
                0 <= wi < candidates@.len(),
                winner_name@ == candidates@[wi].name@,
                forall|j: int| 0 <= j < k ==> #[trigger] candidates@[j].name@ != winner_name@,
            decreases candidates.len() - k,
        {
            if text::str_eq(candidates[k].name.as_str(), winner_name.as_str()) {
                assert(0 <= k <= wi) by {
                    if k > wi {
                        assert(candidates@[wi].name@ != winner_name@);
                    }
                }
                return Some(
                    FileCandidate { name: candidates[k].name.clone(), size: candidates[k].size },
                );
            }
            k = k + 1;
        }
        assert(candidates@[wi].name@ != winner_name@);
        None
    }
}

} // verus!
