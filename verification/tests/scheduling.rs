use payload_dumper::scheduling::{attempt_delay_ms, chunk_size, use_parallel, PARTITION_ATTEMPTS};

#[test]
fn partition_attempts_back_off_then_give_up() {
    assert_eq!(attempt_delay_ms(0), Some(0));
    assert_eq!(attempt_delay_ms(1), Some(200));
    assert_eq!(attempt_delay_ms(2), Some(400));
    assert_eq!(attempt_delay_ms(PARTITION_ATTEMPTS), None);
    assert_eq!(attempt_delay_ms(u32::MAX), None);
}

#[test]
fn partitions_are_shared_over_cpus() {
    assert_eq!(chunk_size(10, 4), 2);
    assert_eq!(chunk_size(3, 8), 1);
    assert_eq!(chunk_size(0, 1), 1);
    assert_eq!(chunk_size(16, 4), 4);
}

#[test]
fn parallel_extraction_is_chosen_by_source() {
    assert!(use_parallel(true, None, false));
    assert!(use_parallel(false, Some(b"zip"), false));
    assert!(use_parallel(false, Some(b"bin"), false));
    assert!(!use_parallel(false, Some(b"img"), false));
    assert!(!use_parallel(false, None, false));
    assert!(!use_parallel(true, None, true));
    assert!(!use_parallel(false, Some(b"zip"), true));
}
