use fuse::model::recommender::HardwareProfile as RecommenderProfile;
use fuse::platform::hardware::{HardwareProfile, HardwareProfiler};
use fuse::platform::simd::{ArmFeatures, CpuArch, SimdCapability, SimdLevel, X86Features};

fn no_x86() -> X86Features {
    X86Features { sse2: false, sse42: false, avx: false, avx2: false, fma: false, avx512f: false }
}

fn no_arm() -> ArmFeatures {
    ArmFeatures { dotprod: false, fp16: false }
}

#[test]
fn test_simd_detection() {
    // An x86-64 processor always reports SSE2.
    let cap = SimdCapability::detect(CpuArch::X86_64, X86Features { sse2: true, ..no_x86() }, no_arm());
    assert!(!cap.features.is_empty());
    assert!(cap.level > SimdLevel::NoSimd);
}

#[test]
fn test_simd_level_ordering() {
    assert!(SimdLevel::Avx2 > SimdLevel::Avx);
    assert!(SimdLevel::Avx512 > SimdLevel::Avx2);
    assert!(SimdLevel::Neon > SimdLevel::NoSimd);
}

#[test]
fn x86_detection_reports_the_best_level_and_every_feature() {
    let f = X86Features { sse2: true, sse42: true, avx: true, avx2: true, fma: true, avx512f: false };
    let cap = SimdCapability::detect(CpuArch::X86_64, f, no_arm());
    assert_eq!(cap.level, SimdLevel::Avx2);
    assert_eq!(cap.features, vec!["sse2", "sse4.2", "avx", "avx2", "fma"]);
}

#[test]
fn arm_detection_always_has_neon() {
    let cap = SimdCapability::detect(CpuArch::Aarch64, no_x86(), ArmFeatures { dotprod: true, fp16: false });
    assert_eq!(cap.level, SimdLevel::NeonDotprod);
    assert_eq!(cap.features, vec!["neon", "dotprod"]);
    let other = SimdCapability::detect(CpuArch::Other, no_x86(), no_arm());
    assert_eq!(other.level, SimdLevel::NoSimd);
    assert!(other.features.is_empty());
}

fn profile(total: u64, available: u64) -> HardwareProfile {
    HardwareProfile {
        cpu_name: "cpu".to_string(),
        cpu_arch: "x86_64".to_string(),
        cpu_cores_physical: 4,
        cpu_cores_logical: 8,
        total_ram_bytes: total,
        available_ram_bytes: available,
        simd: SimdCapability::detect(CpuArch::X86_64, X86Features { sse2: true, ..no_x86() }, no_arm()),
        gpu: None,
        os: "linux".to_string(),
        os_version: "6".to_string(),
    }
}

#[test]
fn test_recommend_max_model_bytes() {
    let profiler = HardwareProfiler::new();
    let profile = profile(16 << 30, 8 << 30);
    let max = profiler.recommend_max_model_bytes(&profile);
    assert!(max < profile.total_ram_bytes);
    assert_eq!(max, 6 << 30);
    assert_eq!(profiler.recommend_max_model_bytes(&profile_small()), 0);
}

fn profile_small() -> HardwareProfile {
    profile(4 << 30, 1 << 30)
}

#[test]
fn test_hardware_profile_default() {
    let hw = RecommenderProfile::default();
    assert_eq!(hw.ram_gb, 8);
    assert!(hw.gpu_vram_gb.is_none());
    assert_eq!(hw.cpu_cores, 4);
}

use fuse::platform::hardware::{nvidia_gpu, parse_nvidia_smi, parse_rocm_smi, GpuVendor};

#[test]
fn nvidia_smi_output_is_parsed() {
    let (name, mb) = parse_nvidia_smi("NVIDIA GeForce RTX 4090, 24564\nsecond, 1\n").unwrap();
    assert_eq!(name, "NVIDIA GeForce RTX 4090");
    assert_eq!(mb, 24564);
    let gpu = nvidia_gpu(name, mb);
    assert_eq!(gpu.vendor, GpuVendor::Nvidia);
    assert_eq!(gpu.vram_bytes, Some(24564 * 1024 * 1024));
    assert!(parse_nvidia_smi("").is_none());
    assert!(parse_nvidia_smi("no comma here").is_none());
    assert!(parse_nvidia_smi("gpu, lots").is_none());
    assert_eq!(parse_nvidia_smi("gpu,+7\r\n").unwrap().1, 7);
}

#[test]
fn rocm_smi_output_is_parsed() {
    let out = "device,VRAM Total Memory (B),VRAM Total Used Memory (B)\ncard0,17163091968,123\n";
    let gpu = parse_rocm_smi(out).unwrap();
    assert_eq!(gpu.name, "AMD GPU");
    assert_eq!(gpu.vendor, GpuVendor::Amd);
    assert_eq!(gpu.vram_bytes, Some(17163091968));
    assert!(parse_rocm_smi("header only\n").is_none());
    assert!(parse_rocm_smi("h\ncard0,n/a\ncard1, 42 \n").unwrap().vram_bytes == Some(42));
}
