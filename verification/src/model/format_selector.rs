//! Choosing which GGUF quantization of a model to download for a memory budget.
use vstd::prelude::*;
use crate::text::{self, has_substring, has_suffix, lowercase};

verus! {

/// A file offered by a model repository.
#[derive(Debug, Clone)]
pub struct FileCandidate {
    pub name: String,
    pub size: u64,
}

/// Quality rank of a lowercase file name. Higher is better quality.
pub open spec fn quant_rank(n: Seq<char>) -> u8 {
    if has_substring(n, "q8_0"@) {
        11
    } else if has_substring(n, "q6_k"@) {
        10
    } else if has_substring(n, "q5_k_m"@) || has_substring(n, "q5km"@) {
        9
    } else if has_substring(n, "q5_k_s"@) || has_substring(n, "q5ks"@) {
        8
    } else if has_substring(n, "q4_k_m"@) || has_substring(n, "q4km"@) {
        7
    } else if has_substring(n, "q4_k_s"@) || has_substring(n, "q4ks"@) {
        6
    } else if has_substring(n, "q4_0"@) {
        5
    } else if has_substring(n, "q3_k_l"@) {
        4
    } else if has_substring(n, "q3_k_m"@) {
        3
    } else if has_substring(n, "q3_k_s"@) {
        2
    } else if has_substring(n, "q2_k"@) {
        1
    } else {
        0
    }
}

/// Whether a lowercase file name carries the `k`-th quantization of the documented
/// order, best first: q8_0, q6_k, q5_k_m (q5km), q5_k_s (q5ks), q4_k_m (q4km),
/// q4_k_s (q4ks), q4_0, q3_k_l, q3_k_m, q3_k_s, q2_k.
pub open spec fn carries_quant(n: Seq<char>, k: int) -> bool {
    if k == 0 {
        has_substring(n, "q8_0"@)
    } else if k == 1 {
        has_substring(n, "q6_k"@)
    } else if k == 2 {
        has_substring(n, "q5_k_m"@) || has_substring(n, "q5km"@)
    } else if k == 3 {
        has_substring(n, "q5_k_s"@) || has_substring(n, "q5ks"@)
    } else if k == 4 {
        has_substring(n, "q4_k_m"@) || has_substring(n, "q4km"@)
    } else if k == 5 {
        has_substring(n, "q4_k_s"@) || has_substring(n, "q4ks"@)
    } else if k == 6 {
        has_substring(n, "q4_0"@)
    } else if k == 7 {
        has_substring(n, "q3_k_l"@)
    } else if k == 8 {
        has_substring(n, "q3_k_m"@)
    } else if k == 9 {
        has_substring(n, "q3_k_s"@)
    } else if k == 10 {
        has_substring(n, "q2_k"@)
    } else {
        false
    }
}

/// The best quantization a name carries is the `k`-th of the documented order.
pub open spec fn best_quant(n: Seq<char>, k: int) -> bool {
    0 <= k < 11 && carries_quant(n, k) && forall|j: int| 0 <= j < k ==> !#[trigger] carries_quant(n, j)
}

proof fn lemma_rank_of_best(n: Seq<char>, k: int)
    requires
        best_quant(n, k),
    ensures
        quant_rank(n) == 11 - k,
{
    assert(forall|j: int| 0 <= j < k ==> !#[trigger] carries_quant(n, j));
    if k >= 1 { assert(!carries_quant(n, 0)); }
    if k >= 2 { assert(!carries_quant(n, 1)); }
    if k >= 3 { assert(!carries_quant(n, 2)); }
    if k >= 4 { assert(!carries_quant(n, 3)); }
    if k >= 5 { assert(!carries_quant(n, 4)); }
    if k >= 6 { assert(!carries_quant(n, 5)); }
    if k >= 7 { assert(!carries_quant(n, 6)); }
    if k >= 8 { assert(!carries_quant(n, 7)); }
    if k >= 9 { assert(!carries_quant(n, 8)); }
    if k >= 10 { assert(!carries_quant(n, 9)); }
}

/// Quality follows the documented order: a name whose best quantization comes
/// earlier in it ranks strictly higher, names with the same best quantization rank
/// the same, and a name with none of them ranks below every name with one.
pub proof fn lemma_rank_order(a: Seq<char>, b: Seq<char>, i: int, j: int)
    requires
        best_quant(a, i),
    ensures
        best_quant(b, j) && i < j ==> quant_rank(a) > quant_rank(b),
        best_quant(b, j) && i == j ==> quant_rank(a) == quant_rank(b),
        (forall|k: int| 0 <= k < 11 ==> !#[trigger] carries_quant(b, k)) ==> quant_rank(b) == 0 && quant_rank(a)
            > quant_rank(b),
{
    lemma_rank_of_best(a, i);
    if best_quant(b, j) {
        lemma_rank_of_best(b, j);
    }
    if forall|k: int| 0 <= k < 11 ==> !#[trigger] carries_quant(b, k) {
        assert(!carries_quant(b, 0) && !carries_quant(b, 1) && !carries_quant(b, 2) && !carries_quant(b, 3));
        assert(!carries_quant(b, 4) && !carries_quant(b, 5) && !carries_quant(b, 6) && !carries_quant(b, 7));
        assert(!carries_quant(b, 8) && !carries_quant(b, 9) && !carries_quant(b, 10));
    }
}

/// Quality rank of a file name already in lowercase.
pub fn rank_of_lowercase(n: &str) -> (r: u8)
    ensures
        r == quant_rank(n@),
{
    if text::contains(n, "q8_0") {
        11
    } else if text::contains(n, "q6_k") {
        10
    } else if text::contains(n, "q5_k_m") || text::contains(n, "q5km") {
        9
    } else if text::contains(n, "q5_k_s") || text::contains(n, "q5ks") {
        8
    } else if text::contains(n, "q4_k_m") || text::contains(n, "q4km") {
        7
    } else if text::contains(n, "q4_k_s") || text::contains(n, "q4ks") {
        6
    } else if text::contains(n, "q4_0") {
        5
    } else if text::contains(n, "q3_k_l") {
        4
    } else if text::contains(n, "q3_k_m") {
        3
    } else if text::contains(n, "q3_k_s") {
        2
    } else if text::contains(n, "q2_k") {
        1
    } else {
        0
    }
}

/// Quality rank for GGUF quantization levels, matched case-insensitively. Higher =
/// better quality.
pub fn quant_quality_rank(name: &str) -> (r: u8)
    ensures
        r == quant_rank(lowercase(name@)),
        text::ascii_only(name@) ==> r == quant_rank(text::ascii_lower(name@)),
{
    let n = text::to_lowercase(name);
    rank_of_lowercase(n.as_str())
}

/// Model of a candidate, with its name already lowercased for matching.
pub open spec fn cand(name: Seq<char>, size: u64) -> (Seq<char>, u64) {
    (name, size)
}

/// A candidate whose lowercase name ends in `.gguf`.
pub open spec fn is_gguf(lower: Seq<char>) -> bool {
    has_suffix(lower, ".gguf"@)
}

/// `i` is a GGUF file that fits the budget.
pub open spec fn fits(lower: Seq<Seq<char>>, sizes: Seq<u64>, budget: u64, i: int) -> bool {
    0 <= i < lower.len() && is_gguf(lower[i]) && sizes[i] <= budget
}

/// `i` is the last of the fitting GGUF files of highest rank (what `max_by_key` picks).
pub open spec fn best_fit(lower: Seq<Seq<char>>, sizes: Seq<u64>, budget: u64, i: int) -> bool {
    &&& fits(lower, sizes, budget, i)
    &&& forall|j: int| #[trigger]
        fits(lower, sizes, budget, j) ==> quant_rank(lower[j]) <= quant_rank(lower[i])
    &&& forall|j: int|
        i < j && #[trigger] fits(lower, sizes, budget, j) ==> quant_rank(lower[j]) < quant_rank(
            lower[i],
        )
}

/// `i` is the first of the smallest GGUF files (what `min_by_key` picks).
pub open spec fn smallest(lower: Seq<Seq<char>>, sizes: Seq<u64>, i: int) -> bool {
    &&& 0 <= i < lower.len()
    &&& is_gguf(lower[i])
    &&& forall|j: int| 0 <= j < lower.len() && #[trigger] is_gguf(lower[j]) ==> sizes[i] <= sizes[j]
    &&& forall|j: int| 0 <= j < i && #[trigger] is_gguf(lower[j]) ==> sizes[j] > sizes[i]
}

/// The budget left once a quarter is kept for the KV cache and runtime.
pub open spec fn usable_budget(ram: u64, vram: Option<u64>) -> int {
    let effective: int = match vram {
        Some(v) => if v > ram {
            v as int
        } else {
            ram as int
        },
        None => ram as int,
    };
    effective * 75 / 100
}

/// The index of the file chosen, given the lowercased names: the best-ranked file that
/// fits the budget, or, when none fits, the smallest GGUF file.
pub open spec fn winner(lower: Seq<Seq<char>>, sizes: Seq<u64>, budget: u64, i: int) -> bool {
    if exists|j: int| fits(lower, sizes, budget, j) {
        best_fit(lower, sizes, budget, i)
    } else {
        smallest(lower, sizes, i)
    }
}

/// At most one file is chosen: the winner, where there is one, is unique. So every
/// caller that states its result through `winner` (`select_best_gguf`, and the
/// recommender's `recommend_from_files` on the same budget) names the same file.
pub proof fn lemma_winner_unique(lower: Seq<Seq<char>>, sizes: Seq<u64>, budget: u64, i: int, j: int)
    requires
        winner(lower, sizes, budget, i),
        winner(lower, sizes, budget, j),
    ensures
        i == j,
{
    if exists|k: int| fits(lower, sizes, budget, k) {
        assert(fits(lower, sizes, budget, i) && fits(lower, sizes, budget, j));
    } else {
        assert(is_gguf(lower[i]) && is_gguf(lower[j]));
    }
}

pub open spec fn names_of(cs: Seq<FileCandidate>) -> Seq<Seq<char>> {
    Seq::new(cs.len(), |i: int| cs[i].name@)
}

pub open spec fn sizes_of(cs: Seq<FileCandidate>) -> Seq<u64> {
    Seq::new(cs.len(), |i: int| cs[i].size)
}

pub open spec fn lowered(cs: Seq<FileCandidate>) -> Seq<Seq<char>> {
    Seq::new(cs.len(), |i: int| lowercase(cs[i].name@))
}

/// Chooses among candidates given their lowercased names (`lower[i]` belongs to
/// `candidates[i]`); returns the index of the winner, or `None` when no GGUF file is
/// among them.
pub fn select_best_index(lower: &Vec<String>, candidates: &[FileCandidate], budget: u64) -> (r:
    Option<usize>)
    requires
        lower@.len() == candidates@.len(),
    ensures
        match r {
            None => forall|j: int| 0 <= j < lower@.len() ==> !is_gguf(#[trigger] lower@[j]@),
            Some(i) => winner(
                Seq::new(lower@.len(), |k: int| lower@[k]@),
                sizes_of(candidates@),
                budget,
                i as int,
            ),
        },
{
    let ghost ls = Seq::new(lower@.len(), |k: int| lower@[k]@);
    let ghost ss = sizes_of(candidates@);
    let mut any_gguf = false;
    let mut best: Option<usize> = None;
    let mut best_rank: u8 = 0;
    let mut small: Option<usize> = None;
    let mut i: usize = 0;
    while i < lower.len()
        invariant
            i <= lower@.len(),
            lower@.len() == candidates@.len(),
            ls == Seq::new(lower@.len(), |k: int| lower@[k]@),
            ss == sizes_of(candidates@),
            any_gguf <==> exists|j: int| 0 <= j < i && #[trigger] is_gguf(ls[j]),
            small is Some <==> any_gguf,
            small matches Some(m) ==> m < i && is_gguf(ls[m as int]) && (forall|j: int|
                0 <= j < i && #[trigger] is_gguf(ls[j]) ==> ss[m as int] <= ss[j]) && (forall|j: int|
                0 <= j < m && #[trigger] is_gguf(ls[j]) ==> ss[j] > ss[m as int]),
            best is Some <==> exists|j: int| 0 <= j < i && #[trigger] fits(ls, ss, budget, j),
            best matches Some(b) ==> b < i && fits(ls, ss, budget, b as int) && best_rank
                == quant_rank(ls[b as int]) && (forall|j: int|
                0 <= j < i && #[trigger] fits(ls, ss, budget, j) ==> quant_rank(ls[j])
                    <= best_rank) && (forall|j: int|
                b < j < i && #[trigger] fits(ls, ss, budget, j) ==> quant_rank(ls[j]) < best_rank),
        decreases lower.len() - i,
    {
        let g = text::ends_with(lower[i].as_str(), ".gguf");
        assert(ls[i as int] == lower@[i as int]@);
        if g {
            any_gguf = true;
            let sz = candidates[i].size;
            match small {
                Some(m) => {
                    if sz < candidates[m].size {
                        small = Some(i);
                    }
                },
                None => {
                    small = Some(i);
                },
            }
            if sz <= budget {
                let rk = rank_of_lowercase(lower[i].as_str());
                match best {
                    Some(_) => {
                        if rk >= best_rank {
                            best = Some(i);
                            best_rank = rk;
                        }
                    },
                    None => {
                        best = Some(i);
                        best_rank = rk;
                    },
                }
            }
        }
        proof {
            if g {
                assert(is_gguf(ls[i as int]));
            }
            if candidates@[i as int].size <= budget && g {
                assert(fits(ls, ss, budget, i as int));
            }
            if exists|j: int| 0 <= j < i + 1 && #[trigger] is_gguf(ls[j]) {
                let j = choose|j: int| 0 <= j < i + 1 && #[trigger] is_gguf(ls[j]);
                if j < i {
                    assert(0 <= j < i && is_gguf(ls[j]));
                }
            }
            if exists|j: int| 0 <= j < i + 1 && #[trigger] fits(ls, ss, budget, j) {
                let j = choose|j: int| 0 <= j < i + 1 && #[trigger] fits(ls, ss, budget, j);
                if j < i {
                    assert(0 <= j < i && fits(ls, ss, budget, j));
                }
            }
        }
        i = i + 1;
    }
    if !any_gguf {
        assert forall|j: int| 0 <= j < lower@.len() implies !is_gguf(#[trigger] lower@[j]@) by {
            assert(ls[j] == lower@[j]@);
        }
        return None;
    }
    match best {
        Some(b) => Some(b),
        None => small,
    }
}

/// Selects the best-fitting GGUF file from candidates given a RAM and an optional VRAM
/// budget. Returns the winner's file name, or `None` if no `.gguf` file is present;
/// falls back to the smallest `.gguf` when nothing fits.
pub fn select_best_gguf(candidates: &[FileCandidate], ram_budget_bytes: u64, vram_bytes: Option<
    u64,
>) -> (r: Option<String>)
    requires
        ram_budget_bytes * 75 <= u64::MAX,
        vram_bytes matches Some(v) ==> v * 75 <= u64::MAX,
    ensures
        match r {
            None => forall|j: int|
                0 <= j < candidates@.len() ==> !is_gguf(#[trigger] lowered(candidates@)[j]),
            Some(n) => exists|i: int|
                winner(
                    lowered(candidates@),
                    sizes_of(candidates@),
                    usable_budget(ram_budget_bytes, vram_bytes) as u64,
                    i,
                ) && n@ == candidates@[i].name@,
        },
{
    let mut lower: Vec<String> = Vec::new();
    let mut i: usize = 0;
    while i < candidates.len()
        invariant
            i <= candidates@.len(),
            lower@.len() == i,
            forall|k: int| 0 <= k < i ==> #[trigger] lower@[k]@ == lowercase(candidates@[k].name@),
        decreases candidates.len() - i,
    {
        lower.push(text::to_lowercase(candidates[i].name.as_str()));
        i = i + 1;
    }
    let effective: u64 = match vram_bytes {
        Some(v) => if v > ram_budget_bytes {
            v
        } else {
            ram_budget_bytes
        },
        None => ram_budget_bytes,
    };
    let budget = effective * 75 / 100;
    assert(Seq::new(lower@.len(), |k: int| lower@[k]@) =~= lowered(candidates@));
    match select_best_index(&lower, candidates, budget) {
        None => None,
        Some(w) => Some(candidates[w].name.clone()),
    }
}

} // verus!
