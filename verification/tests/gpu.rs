use spur::gpu::{gpu_request_to_gres, gpu_vendor_resource_key, is_nvidia_gpu};

#[test]
fn test_gpu_request_to_gres() {
    assert_eq!(gpu_request_to_gres(8, Some("mi300x")), "gpu:mi300x:8");
    assert_eq!(gpu_request_to_gres(4, None), "gpu:any:4");
    assert_eq!(gpu_request_to_gres(2, Some("")), "gpu:any:2");
}

#[test]
fn test_gpu_request_to_gres_single() {
    assert_eq!(gpu_request_to_gres(1, Some("h100")), "gpu:h100:1");
}
#[test]
fn test_is_nvidia_gpu_positive() {
    assert!(is_nvidia_gpu("h100"));
    assert!(is_nvidia_gpu("H100"));
    assert!(is_nvidia_gpu("h200"));
    assert!(is_nvidia_gpu("a100"));
    assert!(is_nvidia_gpu("A100"));
    assert!(is_nvidia_gpu("a10g"));
    assert!(is_nvidia_gpu("a30"));
    assert!(is_nvidia_gpu("v100"));
    assert!(is_nvidia_gpu("t4"));
    assert!(is_nvidia_gpu("T4"));
    assert!(is_nvidia_gpu("l4"));
    assert!(is_nvidia_gpu("l40s"));
    assert!(is_nvidia_gpu("L40"));
    assert!(is_nvidia_gpu("b100"));
    assert!(is_nvidia_gpu("b200"));
    assert!(is_nvidia_gpu("gb200"));
    assert!(is_nvidia_gpu("GB200"));
    assert!(is_nvidia_gpu("rtx4090"));
    assert!(is_nvidia_gpu("RTX3090"));
    assert!(is_nvidia_gpu("nvidia"));
    assert!(is_nvidia_gpu("NVIDIA"));
}

#[test]
fn test_is_nvidia_gpu_negative_amd() {
    assert!(!is_nvidia_gpu("mi300x"));
    assert!(!is_nvidia_gpu("MI300X"));
    assert!(!is_nvidia_gpu("mi250x"));
    assert!(!is_nvidia_gpu("mi210"));
    assert!(!is_nvidia_gpu("mi100"));
    assert!(!is_nvidia_gpu("gfx942"));
    assert!(!is_nvidia_gpu("gfx1201"));
    assert!(!is_nvidia_gpu("gfx90a"));
    assert!(!is_nvidia_gpu("rx7900xtx"));
    assert!(!is_nvidia_gpu("w7900"));
    assert!(!is_nvidia_gpu("amd"));
    assert!(!is_nvidia_gpu("gpu"));
    assert!(!is_nvidia_gpu("any"));
    assert!(!is_nvidia_gpu(""));
}

#[test]
fn test_gpu_vendor_resource_key_amd() {
    assert_eq!(gpu_vendor_resource_key(Some("mi300x")), "amd.com/gpu");
    assert_eq!(gpu_vendor_resource_key(Some("mi250x")), "amd.com/gpu");
    assert_eq!(gpu_vendor_resource_key(Some("gfx942")), "amd.com/gpu");
    assert_eq!(gpu_vendor_resource_key(Some("gfx90a")), "amd.com/gpu");
    assert_eq!(gpu_vendor_resource_key(Some("w7900")), "amd.com/gpu");
}

#[test]
fn test_gpu_vendor_resource_key_nvidia() {
    assert_eq!(gpu_vendor_resource_key(Some("h100")), "nvidia.com/gpu");
    assert_eq!(gpu_vendor_resource_key(Some("a100")), "nvidia.com/gpu");
    assert_eq!(gpu_vendor_resource_key(Some("v100")), "nvidia.com/gpu");
    assert_eq!(gpu_vendor_resource_key(Some("t4")), "nvidia.com/gpu");
    assert_eq!(gpu_vendor_resource_key(Some("l40s")), "nvidia.com/gpu");
}

#[test]
fn test_gpu_vendor_resource_key_defaults_amd() {
    // Unknown or generic GPU types default to AMD (ROCm project)
    assert_eq!(gpu_vendor_resource_key(None), "amd.com/gpu");
    assert_eq!(gpu_vendor_resource_key(Some("gpu")), "amd.com/gpu");
    assert_eq!(gpu_vendor_resource_key(Some("any")), "amd.com/gpu");
    assert_eq!(gpu_vendor_resource_key(Some("")), "amd.com/gpu");
}

#[test]
fn test_gpu_request_to_gres_amd_types() {
    assert_eq!(gpu_request_to_gres(8, Some("mi300x")), "gpu:mi300x:8");
    assert_eq!(gpu_request_to_gres(4, Some("mi250x")), "gpu:mi250x:4");
    assert_eq!(gpu_request_to_gres(1, Some("gfx942")), "gpu:gfx942:1");
}
