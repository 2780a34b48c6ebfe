//! SIMD capability detection: what the processor reports, turned into a capability
//! level and the list of feature names.
use vstd::prelude::*;
use crate::text;

verus! {

/// SIMD capability level, from least to most capable.
#[derive(Debug, Clone, Copy, PartialEq, Eq, PartialOrd, Ord, Structural)]
pub enum SimdLevel {
    NoSimd,
    Sse2,
    Sse42,
    Avx,
    Avx2,
    Avx512,
    Neon,
    NeonDotprod,
    Amx,
}

/// The instruction-set architecture the program runs on.
#[derive(Debug, Clone, Copy, PartialEq, Eq, Structural)]
pub enum CpuArch {
    X86_64,
    Aarch64,
    Other,
}

/// The x86-64 features the processor reports at run time.
#[derive(Debug, Clone, Copy, PartialEq, Eq, Structural)]
pub struct X86Features {
    pub sse2: bool,
    pub sse42: bool,
    pub avx: bool,
    pub avx2: bool,
    pub fma: bool,
    pub avx512f: bool,
}

/// The aarch64 features the processor reports at run time.
#[derive(Debug, Clone, Copy, PartialEq, Eq, Structural)]
pub struct ArmFeatures {
    pub dotprod: bool,
    pub fp16: bool,
}

/// Detected SIMD capabilities for the current platform.
#[derive(Debug, Clone)]
pub struct SimdCapability {
    pub level: SimdLevel,
    pub features: Vec<String>,
}

/// The level x86-64 feature flags give: the most capable one reported.
pub open spec fn x86_level(f: X86Features) -> SimdLevel {
    if f.avx512f {
        SimdLevel::Avx512
    } else if f.avx2 {
        SimdLevel::Avx2
    } else if f.avx {
        SimdLevel::Avx
    } else if f.sse42 {
        SimdLevel::Sse42
    } else if f.sse2 {
        SimdLevel::Sse2
    } else {
        SimdLevel::NoSimd
    }
}

/// The feature names x86-64 flags give, in detection order.
pub open spec fn x86_names(f: X86Features) -> Seq<Seq<char>> {
    (if f.sse2 { seq!["sse2"@] } else { Seq::empty() }) + (if f.sse42 {
        seq!["sse4.2"@]
    } else {
        Seq::empty()
    }) + (if f.avx { seq!["avx"@] } else { Seq::empty() }) + (if f.avx2 {
        seq!["avx2"@]
    } else {
        Seq::empty()
    }) + (if f.fma { seq!["fma"@] } else { Seq::empty() }) + (if f.avx512f {
        seq!["avx512f"@]
    } else {
        Seq::empty()
    })
}

/// The level aarch64 feature flags give: NEON always, with dot product when reported.
pub open spec fn arm_level(f: ArmFeatures) -> SimdLevel {
    if f.dotprod {
        SimdLevel::NeonDotprod
    } else {
        SimdLevel::Neon
    }
}

/// The feature names aarch64 flags give, in detection order.
pub open spec fn arm_names(f: ArmFeatures) -> Seq<Seq<char>> {
    seq!["neon"@] + (if f.dotprod { seq!["dotprod"@] } else { Seq::empty() }) + (if f.fp16 {
        seq!["fp16"@]
    } else {
        Seq::empty()
    })
}

pub open spec fn string_views(v: Seq<String>) -> Seq<Seq<char>> {
    Seq::new(v.len(), |i: int| v[i]@)
}

fn push_name(features: &mut Vec<String>, name: &str)
    ensures
        string_views(final(features)@) == string_views(old(features)@).push(name@),
{
    features.push(text::owned(name));
    assert(string_views(features@) =~= string_views(old(features)@).push(name@));
}

impl SimdCapability {
    /// The capability the reported features give on the given architecture.
    pub fn detect(arch: CpuArch, x86: X86Features, arm: ArmFeatures) -> (r: SimdCapability)
        ensures
            arch == CpuArch::X86_64 ==> r.level == x86_level(x86) && string_views(r.features@)
                == x86_names(x86),
            arch == CpuArch::Aarch64 ==> r.level == arm_level(arm) && string_views(r.features@)
                == arm_names(arm),
            arch == CpuArch::Other ==> r.level == SimdLevel::NoSimd && r.features@.len() == 0,
    {
        let mut features: Vec<String> = Vec::new();
        let level = match arch {
            CpuArch::X86_64 => Self::detect_x86(&mut features, x86),
            CpuArch::Aarch64 => Self::detect_arm(&mut features, arm),
            CpuArch::Other => SimdLevel::NoSimd,
        };
        assert(string_views(Seq::<String>::empty()) =~= Seq::<Seq<char>>::empty());
        SimdCapability { level, features }
    }

    /// Appends the names of the reported x86-64 features and returns the level.
    pub fn detect_x86(features: &mut Vec<String>, f: X86Features) -> (r: SimdLevel)
        ensures
            r == x86_level(f),
            string_views(final(features)@) == string_views(old(features)@) + x86_names(f),
    {
        let ghost start = string_views(features@);
        let mut level = SimdLevel::NoSimd;
        if f.sse2 {
            push_name(features, "sse2");
            level = SimdLevel::Sse2;
        }
        if f.sse42 {
            push_name(features, "sse4.2");
            level = SimdLevel::Sse42;
        }
        if f.avx {
            push_name(features, "avx");
            level = SimdLevel::Avx;
        }
        if f.avx2 {
            push_name(features, "avx2");
            level = SimdLevel::Avx2;
        }
        if f.fma {
            push_name(features, "fma");
        }
        if f.avx512f {
            push_name(features, "avx512f");
            level = SimdLevel::Avx512;
        }
        assert(string_views(features@) =~= start + x86_names(f));
        level
    }

    /// Appends the names of the reported aarch64 features and returns the level.
    pub fn detect_arm(features: &mut Vec<String>, f: ArmFeatures) -> (r: SimdLevel)
        ensures
            r == arm_level(f),
            string_views(final(features)@) == string_views(old(features)@) + arm_names(f),
    {
        let ghost start = string_views(features@);
        push_name(features, "neon");
        let mut level = SimdLevel::Neon;
        if f.dotprod {
            push_name(features, "dotprod");
            level = SimdLevel::NeonDotprod;
        }
        if f.fp16 {
            push_name(features, "fp16");
        }
        assert(string_views(features@) =~= start + arm_names(f));
        level
    }
}

} // verus!
