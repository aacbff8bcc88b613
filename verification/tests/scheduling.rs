use trainingsample::{
    calculate_optimal_block_height, choose_lanczos3_kernel, clamp_batch_size, resize_worker_threads,
    worker_thread_count, Lanczos3Kernel,
};

#[test]
fn worker_threads_leave_cores_free_on_large_machines() {
    assert_eq!(worker_thread_count(16), 14);
    assert_eq!(worker_thread_count(12), 10);
    assert_eq!(worker_thread_count(11), 10);
    assert_eq!(worker_thread_count(8), 7);
    assert_eq!(worker_thread_count(7), 7);
    assert_eq!(worker_thread_count(1), 1);
    assert!(resize_worker_threads() >= 1);
}

#[test]
fn block_height_targets_ten_thousand_pixels() {
    // 10000 / 100 = 100 rows, within [16, 1000 / 4] and below 256.
    assert_eq!(calculate_optimal_block_height(100, 1000), 100);
    // Wide rows: at least 16 rows.
    assert_eq!(calculate_optimal_block_height(4096, 1024), 16);
    // Narrow rows: at most 256 rows.
    assert_eq!(calculate_optimal_block_height(10, 4096), 256);
    // A short image: at most a quarter of its height, even below 16.
    assert_eq!(calculate_optimal_block_height(100, 40), 10);
}

#[test]
fn batch_sizes_are_powers_of_two_within_the_target() {
    for (estimate, th) in [(0usize, 512usize), (3, 1024), (383, 512), (700, 1024), (5000, 2048)] {
        let b = clamp_batch_size(estimate, th);
        assert!(b >= 8);
        assert!(b <= th);
        assert!(b.is_power_of_two());
    }
    assert_eq!(clamp_batch_size(383, 512), 512);
    assert_eq!(clamp_batch_size(100, 1024), 128);
    assert_eq!(clamp_batch_size(3, 1024), 8);
    // A target that is no power of two caps the rounded size.
    assert_eq!(clamp_batch_size(300, 300), 300);
    assert_eq!(clamp_batch_size(5, 6), 6);
    assert_eq!(clamp_batch_size(5, 0), 0);
}

#[test]
fn small_images_use_the_fused_kernel() {
    assert_eq!(choose_lanczos3_kernel(64, 64, 32, 32), Lanczos3Kernel::Fused);
    assert_eq!(choose_lanczos3_kernel(1024, 1024, 512, 512), Lanczos3Kernel::Blocked);
    assert_eq!(choose_lanczos3_kernel(256, 128, 1024, 512), Lanczos3Kernel::Blocked);
    assert_eq!(choose_lanczos3_kernel(511, 512, 511, 512), Lanczos3Kernel::Fused);
    assert_eq!(choose_lanczos3_kernel(512, 512, 10, 10), Lanczos3Kernel::Blocked);
}
