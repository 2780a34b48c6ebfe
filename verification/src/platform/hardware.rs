//! Hardware profiling — the profile of CPU, RAM and GPU the platform reports, and
//! the budget derived from it.
use vstd::prelude::*;
use crate::platform::simd::SimdCapability;
use crate::text::{self, first_index, lines_of, parsed_u64, trimmed};

verus! {

/// GPU information.
#[derive(Debug, Clone)]
pub struct GpuInfo {
    pub name: String,
    pub vendor: GpuVendor,
    pub vram_bytes: Option<u64>,
}

#[derive(Debug, Clone, Copy, PartialEq, Eq, Structural)]
pub enum GpuVendor {
    Apple,
    Nvidia,
    Amd,
    Intel,
    Unknown,
}

/// Complete hardware profile of the system.
#[derive(Debug, Clone)]
pub struct HardwareProfile {
    pub cpu_name: String,
    pub cpu_arch: String,
    pub cpu_cores_physical: usize,
    pub cpu_cores_logical: usize,
    pub total_ram_bytes: u64,
    pub available_ram_bytes: u64,
    pub simd: SimdCapability,
    pub gpu: Option<GpuInfo>,
    pub os: String,
    pub os_version: String,
}

/// Memory kept for the operating system and the runtime: 2 GiB.
pub const OS_OVERHEAD_BYTES: u64 = 2147483648;

/// Hardware profiler that derives budgets from a detected profile.
pub struct HardwareProfiler;

impl HardwareProfiler {
    pub fn new() -> (r: HardwareProfiler) {
        HardwareProfiler
    }

    /// Recommended maximum model size: the available RAM less 2 GiB of overhead,
    /// or 0 when less is available.
    pub fn recommend_max_model_bytes(&self, profile: &HardwareProfile) -> (r: u64)
        ensures
            r == if profile.available_ram_bytes >= OS_OVERHEAD_BYTES {
                profile.available_ram_bytes - OS_OVERHEAD_BYTES
            } else {
                0
            },
    {
        profile.available_ram_bytes.saturating_sub(OS_OVERHEAD_BYTES)
    }
}

/// The field of a CSV line after its first comma (up to the next comma), if the line
/// has a comma.
pub open spec fn second_field(line: Seq<char>) -> Option<Seq<char>> {
    match first_index(line, ',') {
        Some(i) => {
            let rest = line.skip(i + 1);
            match first_index(rest, ',') {
                Some(k) => Some(rest.take(k)),
                None => Some(rest),
            }
        },
        None => None,
    }
}

/// What `nvidia-smi --query-gpu=name,memory.total --format=csv,noheader,nounits`
/// reports: from its first line, the GPU's name and its memory in MiB.
pub open spec fn nvidia_report(out: Seq<char>) -> Option<(Seq<char>, u64)> {
    let ls = lines_of(out);
    if ls.len() == 0 {
        None
    } else {
        let line = ls[0];
        match first_index(line, ',') {
            Some(i) => match parsed_u64(trimmed(line.skip(i + 1))) {
                Some(mb) => Some((trimmed(line.take(i)), mb)),
                None => None,
            },
            None => None,
        }
    }
}

/// The VRAM `rocm-smi --showmeminfo vram --csv` reports: the first data line (after
/// the header) whose second field is a number of bytes.
pub open spec fn amd_vram(lines: Seq<Seq<char>>) -> Option<u64>
    decreases lines.len(),
{
    if lines.len() == 0 {
        None
    } else {
        match second_field(lines[0]) {
            Some(f) => match parsed_u64(trimmed(f)) {
                Some(v) => Some(v),
                None => amd_vram(lines.drop_first()),
            },
            None => amd_vram(lines.drop_first()),
        }
    }
}

/// The VRAM rocm-smi reports in its output, after the header line.
pub open spec fn amd_report(out: Seq<char>) -> Option<u64> {
    let ls = lines_of(out);
    if ls.len() == 0 {
        None
    } else {
        amd_vram(ls.drop_first())
    }
}

/// The index of the first `c` in `v` at or after `from`, or `v.len()`.
fn find_from(v: &Vec<char>, c: char, from: usize) -> (r: usize)
    requires
        from <= v@.len(),
    ensures
        from <= r <= v@.len(),
        forall|j: int| from <= j < r ==> v@[j] != c,
        r < v@.len() ==> v@[r as int] == c,
{
    let mut i = from;
    while i < v.len() && v[i] != c
        invariant
            from <= i <= v@.len(),
            forall|j: int| from <= j < i ==> v@[j] != c,
        decreases v.len() - i,
    {
        i = i + 1;
    }
    i
}

proof fn lemma_first_index_at(s: Seq<char>, c: char, e: int)
    requires
        0 <= e <= s.len(),
        forall|j: int| 0 <= j < e ==> s[j] != c,
        e == s.len() || s[e] == c,
    ensures
        e < s.len() ==> first_index(s, c) == Some(e),
        e == s.len() ==> first_index(s, c) is None,
{
    if e < s.len() {
        assert(s.contains(c));
        let w = choose|i: int| 0 <= i < s.len() && s[i] == c && forall|j: int| 0 <= j < i ==> s[j] != c;
        assert(0 <= e < s.len() && s[e] == c && forall|j: int| 0 <= j < e ==> s[j] != c);
        if w < e {
        } else if w > e {
        }
    } else {
        assert(!s.contains(c));
    }
}

/// The name and memory (MiB) of the GPU nvidia-smi reports in `stdout`.
pub fn parse_nvidia_smi(stdout: &str) -> (r: Option<(String, u64)>)
    ensures
        match nvidia_report(stdout@) {
            Some((name, mb)) => r matches Some((n, m)) && n@ == name && m == mb,
            None => r is None,
        },
{
    let ls = text::lines(stdout);
    if ls.len() == 0 {
        return None;
    }
    assert(text::string_views(ls@)[0] == ls@[0]@);
    let line = text::chars_of(ls[0].as_str());
    let i = find_from(&line, ',', 0);
    proof {
        lemma_first_index_at(line@, ',', i as int);
    }
    if i >= line.len() {
        return None;
    }
    let value = text::trim_chars(&text::vec_range(&line, i + 1, line.len()));
    assert(line@.subrange(i + 1, line@.len() as int) =~= line@.skip(i + 1));
    let digits = text::string_from_chars(&value);
    match text::parse_u64(digits.as_str()) {
        Some(mb) => {
            let name = text::trim_chars(&text::vec_range(&line, 0, i));
            assert(line@.subrange(0, i as int) =~= line@.take(i as int));
            Some((text::string_from_chars(&name), mb))
        },
        None => None,
    }
}

/// The GPU nvidia-smi reports, given its name and memory in MiB.
pub fn nvidia_gpu(name: String, vram_mb: u64) -> (r: GpuInfo)
    requires
        vram_mb * 1048576 <= u64::MAX,
    ensures
        r.name == name,
        r.vendor == GpuVendor::Nvidia,
        r.vram_bytes == Some((vram_mb * 1048576) as u64),
{
    GpuInfo { name, vendor: GpuVendor::Nvidia, vram_bytes: Some(vram_mb * 1024 * 1024) }
}

/// The number in the second field of a CSV line, if it has one.
fn line_vram(text_line: &str) -> (r: Option<u64>)
    ensures
        r == match second_field(text_line@) {
            Some(f) => parsed_u64(trimmed(f)),
            None => None,
        },
{
    let line = text::chars_of(text_line);
    let i = find_from(&line, ',', 0);
    proof {
        lemma_first_index_at(line@, ',', i as int);
    }
    if i >= line.len() {
        return None;
    }
    let j = find_from(&line, ',', i + 1);
    let ghost after = line@.skip(i + 1);
    proof {
        assert forall|x: int| 0 <= x < j - (i + 1) implies after[x] != ',' by {
            assert(after[x] == line@[i + 1 + x]);
        }
        if j < line@.len() {
            assert(after[j - (i + 1)] == line@[j as int]);
        }
        lemma_first_index_at(after, ',', j - (i + 1));
        assert(after.take(j - (i + 1)) =~= line@.subrange(i + 1, j as int));
        assert(j == line@.len() ==> after =~= line@.subrange(i + 1, j as int));
    }
    let field = text::trim_chars(&text::vec_range(&line, i + 1, j));
    let digits = text::string_from_chars(&field);
    text::parse_u64(digits.as_str())
}

/// The GPU rocm-smi reports in `stdout`, if any line gives its memory.
pub fn parse_rocm_smi(stdout: &str) -> (r: Option<GpuInfo>)
    ensures
        match amd_report(stdout@) {
            Some(v) => r matches Some(g) && g.name@ == "AMD GPU"@ && g.vendor == GpuVendor::Amd
                && g.vram_bytes == Some(v),
            None => r is None,
        },
{
    let ls = text::lines(stdout);
    let ghost all = lines_of(stdout@);
    if ls.len() == 0 {
        return None;
    }
    let mut k: usize = 1;
    assert(all.drop_first() =~= all.skip(1));
    while k < ls.len()
        invariant
            1 <= k <= ls@.len(),
            text::string_views(ls@) == all,
            all == lines_of(stdout@),
            amd_vram(all.skip(k as int)) == amd_vram(all.drop_first()),
        decreases ls.len() - k,
    {
        let ghost rest = all.skip(k as int);
        assert(rest[0] == ls@[k as int]@);
        assert(rest.drop_first() =~= all.skip(k + 1));
        match line_vram(ls[k].as_str()) {
            Some(v) => {
                assert(rest.len() > 0);
                assert(amd_vram(rest) == Some(v));
                return Some(
                    GpuInfo { name: text::owned("AMD GPU"), vendor: GpuVendor::Amd, vram_bytes: Some(v) },
                );
            },
            None => {},
        }
        k = k + 1;
    }
    assert(all.skip(k as int) =~= Seq::<Seq<char>>::empty());
    None
}

/// A mounted disk as the platform lists it: its mount point split into path
/// components, the length of the mount point's text, and its free space.
#[derive(Debug, Clone)]
pub struct MountInfo {
    pub components: Vec<String>,
    pub text_len: usize,
    pub available_bytes: u64,
}

/// Whether the mount point `m` is a leading run of the components of `p`.
pub open spec fn is_component_prefix(m: Seq<Seq<char>>, p: Seq<Seq<char>>) -> bool {
    m.len() <= p.len() && forall|i: int| 0 <= i < m.len() ==> m[i] == p[i]
}

/// Whether the disk `d` holds the path with components `p`.
pub open spec fn holds_path(d: MountInfo, p: Seq<Seq<char>>) -> bool {
    is_component_prefix(text::string_views(d.components@), p)
}

/// Among the disks that hold the path, the one with the longest mount point text,
/// the last of them where several are as long.
pub open spec fn best_mount(ds: Seq<MountInfo>, p: Seq<Seq<char>>) -> Option<int>
    decreases ds.len(),
{
    if ds.len() == 0 {
        None
    } else {
        let prev = best_mount(ds.drop_last(), p);
        let i = ds.len() - 1;
        if holds_path(ds[i], p) {
            match prev {
                Some(j) => if ds[i].text_len >= ds[j].text_len {
                    Some(i)
                } else {
                    Some(j)
                },
                None => Some(i),
            }
        } else {
            prev
        }
    }
}

proof fn lemma_best_mount_in_range(ds: Seq<MountInfo>, p: Seq<Seq<char>>)
    ensures
        best_mount(ds, p) matches Some(j) ==> 0 <= j < ds.len(),
    decreases ds.len(),
{
    if ds.len() > 0 {
        lemma_best_mount_in_range(ds.drop_last(), p);
    }
}

/// Whether the components of a mount point lead the components of a path.
fn mount_holds(m: &Vec<String>, p: &Vec<String>) -> (r: bool)
    ensures
        r == is_component_prefix(text::string_views(m@), text::string_views(p@)),
{
    if m.len() > p.len() {
        return false;
    }
    let mut i: usize = 0;
    while i < m.len()
        invariant
            m@.len() <= p@.len(),
            i <= m@.len(),
            forall|j: int| 0 <= j < i ==> text::string_views(m@)[j] == text::string_views(p@)[j],
        decreases m.len() - i,
    {
        if !text::str_eq(m[i].as_str(), p[i].as_str()) {
            assert(text::string_views(m@)[i as int] != text::string_views(p@)[i as int]);
            return false;
        }
        i = i + 1;
    }
    true
}

/// Free space on the disk that holds a path (given by its components): the disk
/// with the longest mount point that leads the path; `u64::MAX` when none does.
pub fn available_disk_bytes(path: &Vec<String>, disks: &Vec<MountInfo>) -> (r: u64)
    ensures
        r == match best_mount(disks@, text::string_views(path@)) {
            Some(j) => disks@[j].available_bytes,
            None => u64::MAX,
        },
{
    let ghost p = text::string_views(path@);
    let mut best: Option<usize> = None;
    let mut k: usize = 0;
    while k < disks.len()
        invariant
            k <= disks@.len(),
            p == text::string_views(path@),
            match best {
                Some(j) => best_mount(disks@.take(k as int), p) == Some(j as int),
                None => best_mount(disks@.take(k as int), p) is None,
            },
        decreases disks.len() - k,
    {
        proof {
            assert(disks@.take(k + 1).drop_last() =~= disks@.take(k as int));
            lemma_best_mount_in_range(disks@.take(k as int), p);
        }
        if mount_holds(&disks[k].components, path) {
            match best {
                Some(j) => {
                    if disks[k].text_len >= disks[j].text_len {
                        best = Some(k);
                    }
                },
                None => {
                    best = Some(k);
                },
            }
        }
        k = k + 1;
    }
    assert(disks@.take(disks@.len() as int) =~= disks@);
    proof {
        lemma_best_mount_in_range(disks@, p);
    }
    match best {
        Some(j) => disks[j].available_bytes,
        None => u64::MAX,
    }
}

} // verus!
