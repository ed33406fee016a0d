use std::collections::VecDeque;

use mig_gpu_mon::display::{
    core_grid, core_slot, corrected_errors_color, ecc_mode_color, make_bar, pstate_color,
    temp_color, throttle_color, uncorrected_errors_color, with_spark_data_u32,
    with_spark_data_u64, CoreGrid, Tone,
};

#[test]
fn spark_data_is_newest_first() {
    let src: VecDeque<u32> = VecDeque::from(vec![1, 2, 3]);
    let mut buf = vec![99];
    with_spark_data_u32(&src, &mut buf);
    assert_eq!(buf, vec![3, 2, 1]);
    let src64: VecDeque<u64> = VecDeque::from(vec![u64::MAX, 0]);
    with_spark_data_u64(&src64, &mut buf);
    assert_eq!(buf, vec![0, u64::MAX]);
    with_spark_data_u64(&VecDeque::new(), &mut buf);
    assert!(buf.is_empty());
}

#[test]
fn temperature_tones() {
    assert_eq!(temp_color(60), Tone::Green);
    assert_eq!(temp_color(61), Tone::Yellow);
    assert_eq!(temp_color(80), Tone::Yellow);
    assert_eq!(temp_color(81), Tone::Red);
}

#[test]
fn pstate_tones() {
    assert_eq!(pstate_color("P0"), Tone::Green);
    assert_eq!(pstate_color("P1"), Tone::Yellow);
    assert_eq!(pstate_color("P4"), Tone::Yellow);
    assert_eq!(pstate_color("P5"), Tone::Red);
    assert_eq!(pstate_color("P12"), Tone::Red);
    assert_eq!(pstate_color("P?"), Tone::Red);
    assert_eq!(pstate_color("Q0"), Tone::Red);
}

#[test]
fn bars() {
    assert_eq!(make_bar(3, 0), "");
    assert_eq!(make_bar(2, 5), " ▮▮▯▯▯");
    assert_eq!(make_bar(9, 3), " ▮▮▮");
    assert_eq!(make_bar(0, 2), " ▯▯");
}

#[test]
fn core_grid_layout() {
    let g = core_grid(80, 10, 64);
    assert_eq!(g, CoreGrid { num_cols: 6, bar_width: 4, visible: 60, rows: 10 });
    assert_eq!(core_slot(&g, 0, 0), Some(0));
    assert_eq!(core_slot(&g, 3, 2), Some(23));
    let small = core_grid(5, 3, 2);
    assert_eq!(small, CoreGrid { num_cols: 1, bar_width: 0, visible: 2, rows: 2 });
    let partial = core_grid(24, 4, 5);
    assert_eq!(partial.num_cols, 2);
    assert_eq!(partial.rows, 3);
    assert_eq!(core_slot(&partial, 2, 1), None);
    assert_eq!(core_slot(&partial, 1, 1), Some(4));
    assert_eq!(core_slot(&partial, usize::MAX, usize::MAX), None);
}

#[test]
fn ecc_and_throttle_tones() {
    assert_eq!(ecc_mode_color(true), Tone::Green);
    assert_eq!(ecc_mode_color(false), Tone::Muted);
    assert_eq!(corrected_errors_color(0), Tone::Green);
    assert_eq!(corrected_errors_color(3), Tone::Yellow);
    assert_eq!(uncorrected_errors_color(0), Tone::Green);
    assert_eq!(uncorrected_errors_color(1), Tone::Alert);
    assert_eq!(throttle_color("None"), Tone::Green);
    assert_eq!(throttle_color("SW Power Cap"), Tone::Alert);
    assert_eq!(throttle_color("Nonf"), Tone::Alert);
    assert_eq!(throttle_color(""), Tone::Alert);
    assert_eq!(throttle_color("None "), Tone::Alert);
}
