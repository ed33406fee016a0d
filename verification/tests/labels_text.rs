use mig_gpu_mon::labels::{format_architecture, format_pstate, format_throttle_reasons, Architecture};
use mig_gpu_mon::text::{
    cuda_version_text, fallback_process_name, mig_display_name, push_decimal, version_text,
};

#[test]
fn pstate_labels() {
    assert_eq!(format_pstate(0), "P0");
    assert_eq!(format_pstate(8), "P8");
    assert_eq!(format_pstate(15), "P15");
    assert_eq!(format_pstate(16), "P?");
    assert_eq!(format_pstate(u32::MAX), "P?");
}

#[test]
fn architecture_names() {
    assert_eq!(format_architecture(Architecture::Ampere), "Ampere");
    assert_eq!(format_architecture(Architecture::Hopper), "Hopper");
    assert_eq!(format_architecture(Architecture::Kepler), "Kepler");
    assert_eq!(format_architecture(Architecture::Unknown), "Unknown");
}

#[test]
fn throttle_none_and_single_reasons() {
    assert_eq!(format_throttle_reasons(0), "None");
    assert_eq!(format_throttle_reasons(0x1), "Idle");
    assert_eq!(format_throttle_reasons(0x4), "SwPwrCap");
    assert_eq!(format_throttle_reasons(0x8), "HW-Slow");
    assert_eq!(format_throttle_reasons(0x20), "SW-Therm");
    assert_eq!(format_throttle_reasons(0x40), "HW-Therm");
}

#[test]
fn throttle_compound_reasons_in_order() {
    assert_eq!(format_throttle_reasons(0x44), "SwPwrCap, HW-Therm");
    assert_eq!(
        format_throttle_reasons(0x1ff),
        "Idle, AppClk, SwPwrCap, HW-Slow, SyncBoost, SW-Therm, HW-Therm, HW-PwrBrake, DispClk"
    );
    assert_eq!(format_throttle_reasons(0x200), "Unknown");
}

#[test]
fn versions() {
    assert_eq!(cuda_version_text(12040), "12.4");
    assert_eq!(cuda_version_text(11080), "11.8");
    assert_eq!(cuda_version_text(12000), "12.0");
    assert_eq!(cuda_version_text(0), "0.0");
    assert_eq!(cuda_version_text(-12040), "-12.-4");
    assert_eq!(cuda_version_text(-500), "0.-50");
    assert_eq!(version_text(8, 0), "8.0");
    assert_eq!(version_text(9, -1), "9.-1");
    assert_eq!(version_text(i32::MIN, 0), "-2147483648.0");
}

#[test]
fn names() {
    assert_eq!(mig_display_name(0, 1, "NVIDIA A100"), "MIG 0 (GPU 1: NVIDIA A100)");
    assert_eq!(mig_display_name(12, 305, ""), "MIG 12 (GPU 305: )");
    assert_eq!(fallback_process_name(4194304), "pid:4194304");
    let mut s = String::from("x");
    push_decimal(&mut s, u64::MAX);
    assert_eq!(s, "x18446744073709551615");
}
