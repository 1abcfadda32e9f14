use oxys::detect::{
    classify_gpu_vendors, default_swap, detect_dgpu, detect_gpu, detect_igpu, is_drm_card_name,
    is_whole_disk_name, parse_cpu_present, parse_drm_driver, parse_vendor_id, vendor_matches,
};
use oxys::manifest::{Gpu, GpuVendor, SwapConfig, GB};
use oxys::detect::{detect_disks, is_laptop, is_vendor, BlockDeviceFiles, DetectedDisk};

#[test]
fn default_swap_returns_zram() {
    assert!(matches!(default_swap(None), SwapConfig::Zram { .. }));
}

#[test]
fn default_swap_is_half_of_detected_ram() {
    assert_eq!(default_swap(Some(16 * GB)), SwapConfig::Zram { size: 8 * GB });
    assert_eq!(default_swap(None), SwapConfig::Zram { size: 4 * GB });
}

#[test]
fn vendor_matches_detects_case_insensitive_substrings() {
    assert!(vendor_matches("ASUSTeK COMPUTER INC.", "asus"));
}

#[test]
fn vendor_matches_rejects_other_vendors() {
    assert!(!vendor_matches("Dell Inc.", "asus"));
}

#[test]
fn vendor_matching_lowercases_the_firmware_string() {
    assert!(vendor_matches("  LENOVO\n", "lenovo"));
    assert!(!vendor_matches("LENOVO", "LENOVO"));
}

#[test]
fn classifies_single_vendor_gpu() {
    assert_eq!(
        classify_gpu_vendors(&vec![GpuVendor::Amd]),
        Some(Gpu::Single(GpuVendor::Amd))
    );
}

#[test]
fn classifies_intel_nvidia_hybrid_as_prime_offload() {
    assert_eq!(
        classify_gpu_vendors(&vec![GpuVendor::Nvidia, GpuVendor::Intel]),
        Some(Gpu::Hybrid {
            igpu: GpuVendor::Intel,
            dgpu: GpuVendor::Nvidia,
        })
    );
}

#[test]
fn classifies_amd_nvidia_hybrid_with_amd_igpu() {
    assert_eq!(
        classify_gpu_vendors(&vec![GpuVendor::Amd, GpuVendor::Nvidia]),
        Some(Gpu::Hybrid {
            igpu: GpuVendor::Amd,
            dgpu: GpuVendor::Nvidia,
        })
    );
}

#[test]
fn classification_edge_cases() {
    assert_eq!(classify_gpu_vendors(&vec![]), None);
    assert_eq!(
        classify_gpu_vendors(&vec![GpuVendor::Intel, GpuVendor::Intel]),
        Some(Gpu::Single(GpuVendor::Intel))
    );
    assert_eq!(
        classify_gpu_vendors(&vec![GpuVendor::Amd, GpuVendor::Amd, GpuVendor::Intel]),
        Some(Gpu::Hybrid {
            igpu: GpuVendor::Intel,
            dgpu: GpuVendor::Amd,
        })
    );
}

#[test]
fn detected_gpu_falls_back_to_drivers_then_auto() {
    assert_eq!(
        detect_gpu(&vec![], &vec![GpuVendor::Nvidia]),
        Gpu::Single(GpuVendor::Nvidia)
    );
    assert_eq!(detect_gpu(&vec![], &vec![]), Gpu::Auto);
    let hybrid = detect_gpu(&vec![GpuVendor::Intel, GpuVendor::Nvidia], &vec![]);
    assert_eq!(detect_igpu(hybrid), Some(GpuVendor::Intel));
    assert_eq!(detect_dgpu(hybrid), Some(GpuVendor::Nvidia));
    assert_eq!(detect_dgpu(Gpu::Single(GpuVendor::Amd)), None);
    assert_eq!(detect_igpu(Gpu::Auto), None);
}

#[test]
fn parse_vendor_id_maps_supported_vendors() {
    assert_eq!(parse_vendor_id("0x1002"), Some(GpuVendor::Amd));
    assert_eq!(parse_vendor_id("0x8086"), Some(GpuVendor::Intel));
    assert_eq!(parse_vendor_id("0x10de"), Some(GpuVendor::Nvidia));
}

#[test]
fn parse_drm_driver_reads_driver_from_uevent() {
    assert_eq!(parse_drm_driver("DRIVER=amdgpu\n"), Some(GpuVendor::Amd));
    assert_eq!(parse_drm_driver("DRIVER=i915\n"), Some(GpuVendor::Intel));
    assert_eq!(
        parse_drm_driver("DRIVER=nvidia_drm\n"),
        Some(GpuVendor::Nvidia)
    );
    assert_eq!(parse_drm_driver("PCI_ID=1002:1638\n"), None);
}

#[test]
fn uevent_driver_line_may_follow_other_lines() {
    assert_eq!(
        parse_drm_driver("PCI_ID=1002:1638\r\nDRIVER=xe\r\nDRIVER=amdgpu\n"),
        Some(GpuVendor::Intel)
    );
    assert_eq!(parse_drm_driver("XDRIVER=amdgpu"), None);
}

#[test]
fn drm_card_entries_exclude_connectors() {
    assert!(is_drm_card_name("card0"));
    assert!(!is_drm_card_name("card0-DP-1"));
    assert!(!is_drm_card_name("renderD128"));
}

#[test]
fn whole_disk_detection_rejects_emmc_special_areas_and_partitions() {
    assert!(is_whole_disk_name("mmcblk0"));
    assert!(!is_whole_disk_name("mmcblk0p1"));
    assert!(!is_whole_disk_name("mmcblk0boot0"));
    assert!(!is_whole_disk_name("mmcblk0rpmb"));
}

#[test]
fn whole_disk_detection_handles_nvme_names() {
    assert!(is_whole_disk_name("nvme0n1"));
    assert!(!is_whole_disk_name("nvme0n1p1"));
    assert!(!is_whole_disk_name("nvme0"));
}

#[test]
fn whole_disk_detection_skips_virtual_devices() {
    assert!(is_whole_disk_name("sda"));
    assert!(!is_whole_disk_name("sda1"));
    assert!(!is_whole_disk_name("loop0"));
    assert!(!is_whole_disk_name("zram0"));
    assert!(!is_whole_disk_name("dm-0"));
    assert!(!is_whole_disk_name("sr0"));
}

#[test]
fn parse_cpu_present_counts_non_contiguous_ranges() {
    assert_eq!(parse_cpu_present("0-3,6-7"), Some(6));
}

#[test]
fn parse_cpu_present_rejects_invalid_ranges() {
    assert_eq!(parse_cpu_present("7-3"), None);
}

#[test]
fn parse_cpu_present_edge_cases() {
    assert_eq!(parse_cpu_present("0\n"), Some(1));
    assert_eq!(parse_cpu_present(" 0 - 1 , 4 "), Some(3));
    assert_eq!(parse_cpu_present(""), None);
    assert_eq!(parse_cpu_present("0,,1"), None);
    assert_eq!(parse_cpu_present("a-b"), None);
    assert_eq!(parse_cpu_present("+2"), Some(1));
    assert_eq!(parse_cpu_present("0-18446744073709551615"), None);
}

#[test]
fn detect_ram_returns_positive_value() {
    let meminfo = "MemTotal:       16303716 kB\nMemFree:         8123456 kB\nMemAvailable:   12000000 kB\n";
    let ram = oxys::detect::detect_ram(meminfo).expect("MemTotal parses");
    assert!(ram > 0);
    assert_eq!(ram, 16303716 * 1024);
    assert_eq!(oxys::detect::detect_ram("MemFree: 1 kB\n"), None);
    assert_eq!(oxys::detect::detect_ram("MemTotal:\n"), None);
    assert_eq!(oxys::detect::detect_ram("MemTotal: lots kB\n"), None);
}

#[test]
fn detect_cpu_count_returns_positive_value() {
    let count = parse_cpu_present("0-7\n").unwrap_or(1);
    assert!(count > 0);
    assert_eq!(count, 8);
}

#[test]
fn batteries_mark_a_laptop() {
    assert!(is_laptop(&vec!["AC".to_owned(), "BAT0".to_owned()]));
    assert!(!is_laptop(&vec!["AC".to_owned(), "ucsi-source-psy-USBC000:001".to_owned()]));
    assert!(!is_laptop(&Vec::new()));
}

#[test]
fn board_vendor_is_matched_case_insensitively() {
    assert!(is_vendor(" ASUS ", Some("ASUSTeK COMPUTER INC.\n")));
    assert!(!is_vendor("lenovo", Some("ASUSTeK COMPUTER INC.")));
    assert!(!is_vendor("  ", Some("ASUSTeK COMPUTER INC.")));
    assert!(!is_vendor("asus", None));
}

#[test]
fn disks_are_described_and_listed_in_device_order() {
    let files = |name: &str, removable: Option<&str>, rotational: Option<&str>, model: Option<&str>, size: Option<&str>| {
        BlockDeviceFiles {
            name: name.to_owned(),
            removable: removable.map(str::to_owned),
            rotational: rotational.map(str::to_owned),
            model: model.map(str::to_owned),
            size: size.map(str::to_owned),
        }
    };
    let disks = detect_disks(&vec![
        files("sdb", Some("1\n"), Some("1\n"), None, Some("62333952\n")),
        files("loop0", None, None, None, Some("8\n")),
        files("nvme0n1", Some("0\n"), Some("0\n"), Some("Samsung SSD 980 PRO 1TB   \n"), Some("1953525168\n")),
        files("sda", Some("0\n"), Some("1\n"), None, None),
        files("nvme0n1p1", None, None, None, Some("2048\n")),
        files("vda", None, None, None, Some("junk")),
    ]);
    assert_eq!(
        disks,
        vec![
            DetectedDisk { device: "/dev/nvme0n1".to_owned(), model: "Samsung SSD 980 PRO 1TB".to_owned(), size: 1953525168 * 512 },
            DetectedDisk { device: "/dev/sda".to_owned(), model: "HDD".to_owned(), size: 0 },
            DetectedDisk { device: "/dev/sdb".to_owned(), model: "removable".to_owned(), size: 62333952 * 512 },
            DetectedDisk { device: "/dev/vda".to_owned(), model: "disk".to_owned(), size: 0 },
        ]
    );
}
