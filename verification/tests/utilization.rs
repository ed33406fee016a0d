use mig_gpu_mon::utilization::{
    aggregate_process_utilization, mig_utilization, sampled_gpu_util, scaled_parent_util,
};

#[test]
fn process_utilization_takes_largest_valid() {
    assert_eq!(aggregate_process_utilization(&vec![10, 250, 40], &vec![0, 5, 101]), (40, 5));
    assert_eq!(aggregate_process_utilization(&vec![], &vec![]), (0, 0));
    assert_eq!(aggregate_process_utilization(&vec![100], &vec![200]), (100, 0));
}

#[test]
fn sampled_util_averages_last_five() {
    assert_eq!(sampled_gpu_util(&vec![]), None);
    assert_eq!(sampled_gpu_util(&vec![290000]), Some(29));
    let samples = vec![0, 0, 300000, 300000, 300000, 300000, 250000];
    assert_eq!(sampled_gpu_util(&samples), Some(29));
    assert_eq!(sampled_gpu_util(&vec![u32::MAX; 8]), Some(100));
}

#[test]
fn slice_ratio_scaling() {
    assert_eq!(scaled_parent_util(29, 7, 3), 67);
    assert_eq!(scaled_parent_util(50, 7, 1), 100);
    assert_eq!(scaled_parent_util(u32::MAX, u32::MAX, 1), 100);
    assert_eq!(scaled_parent_util(0, 7, 7), 0);
}

#[test]
fn mig_fallback_order() {
    assert_eq!(
        mig_utilization(Some(5), None, None, Some((9, 9)), Some(50), None, None, 7, Some(1)),
        (Some(5), None, None)
    );
    assert_eq!(
        mig_utilization(None, None, None, Some((30, 12)), Some(50), Some(10), Some(10), 7, Some(1)),
        (Some(30), Some(30), Some(12))
    );
    assert_eq!(
        mig_utilization(None, None, Some(3), Some((30, 0)), None, None, None, 7, None),
        (Some(30), Some(30), Some(3))
    );
    assert_eq!(
        mig_utilization(None, None, None, None, Some(29), None, None, 7, Some(3)),
        (Some(67), Some(67), None)
    );
    assert_eq!(
        mig_utilization(None, None, None, None, Some(29), None, None, 7, None),
        (None, None, None)
    );
    assert_eq!(
        mig_utilization(None, None, None, None, None, None, None, 7, Some(3)),
        (None, None, None)
    );
}

#[test]
fn mig_memory_falls_back_to_parent_readings() {
    // Parent memory-controller samples come first, scaled by 7/3.
    assert_eq!(
        mig_utilization(Some(40), Some(40), None, None, None, Some(12), Some(30), 7, Some(3)),
        (Some(40), Some(40), Some(28))
    );
    // Without samples, the parent's current memory utilization.
    assert_eq!(
        mig_utilization(Some(40), Some(40), None, None, None, None, Some(30), 7, Some(3)),
        (Some(40), Some(40), Some(70))
    );
    // Scaled figures are capped at 100.
    assert_eq!(
        mig_utilization(None, None, None, None, Some(29), Some(60), None, 7, Some(1)),
        (Some(100), Some(100), Some(100))
    );
    // A zero per-process memory figure does not count as a reading.
    assert_eq!(
        mig_utilization(None, None, None, Some((30, 0)), None, Some(6), None, 7, Some(2)),
        (Some(30), Some(30), Some(21))
    );
    // The instance's own figure is kept.
    assert_eq!(
        mig_utilization(Some(1), Some(1), Some(5), None, None, Some(90), Some(90), 7, Some(1)),
        (Some(1), Some(1), Some(5))
    );
    // Unknown slice count: nothing to scale by.
    assert_eq!(
        mig_utilization(Some(1), Some(1), None, None, None, Some(90), Some(90), 7, None),
        (Some(1), Some(1), None)
    );
}
