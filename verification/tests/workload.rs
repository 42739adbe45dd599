//! Stress runs and benchmark payloads.
use terminal::workload::run_seed;

#[test]
fn smoke_run_does_not_violate_invariants() {
    // Small deterministic smoke run covering all four modes.
    for mode in 0..4u8 {
        run_seed(0xABCD, mode, 64 * 1024, 80, 24).expect("invariants hold");
    }
}

#[test]
fn extreme_grid_sizes_do_not_panic() {
    // Tiny and large grids under random input.
    for (cols, rows) in [(1, 1), (200, 100)] {
        run_seed(42, 0, 32 * 1024, cols, rows).expect("invariants hold");
    }
}
