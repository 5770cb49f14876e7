use cuda_thread::dims::{UVec2, UVec3};
use cuda_thread::launch::{first, index, index_2d, index_3d, ThreadContext};

fn v(x: usize, y: usize, z: usize) -> UVec3 {
    UVec3::new(x, y, z)
}

fn ctx(thread_idx: UVec3, block_idx: UVec3, block_dim: UVec3, grid_dim: UVec3) -> ThreadContext {
    ThreadContext { thread_idx, block_idx, block_dim, grid_dim }
}

/// Every thread of the launch, blocks in flattened order, threads within.
fn all_threads(grid_dim: UVec3, block_dim: UVec3) -> Vec<ThreadContext> {
    let mut out = Vec::new();
    for bz in 0..grid_dim.z {
        for by in 0..grid_dim.y {
            for bx in 0..grid_dim.x {
                for tz in 0..block_dim.z {
                    for ty in 0..block_dim.y {
                        for tx in 0..block_dim.x {
                            out.push(ctx(v(tx, ty, tz), v(bx, by, bz), block_dim, grid_dim));
                        }
                    }
                }
            }
        }
    }
    out
}

fn assert_bijective(grid_dim: UVec3, block_dim: UVec3) {
    let threads = all_threads(grid_dim, block_dim);
    let total = grid_dim.product() * block_dim.product();
    assert_eq!(threads.len(), total);
    let mut seen = vec![false; total];
    for c in &threads {
        assert!(c.is_valid());
        let i = index(c);
        assert!(i < total);
        assert!(!seen[i], "index {} given twice", i);
        seen[i] = true;
    }
    assert!(seen.iter().all(|s| *s));
}

#[test]
fn flattened_index_is_bijective_3d() {
    assert_bijective(v(2, 3, 2), v(3, 2, 2));
}

#[test]
fn flattened_index_is_bijective_2d_and_1d() {
    assert_bijective(v(3, 2, 1), v(2, 4, 1));
    assert_bijective(v(5, 1, 1), v(7, 1, 1));
    assert_bijective(v(1, 1, 1), v(1, 1, 1));
}

#[test]
fn flattened_index_follows_x_then_y_then_z() {
    let threads = all_threads(v(2, 2, 2), v(2, 2, 2));
    for (n, c) in threads.iter().enumerate() {
        assert_eq!(index(c), n);
    }
}

#[test]
fn one_dimensional_index_is_global_x() {
    for c in all_threads(v(3, 1, 1), v(5, 1, 1)) {
        let g = index_2d(&c);
        assert_eq!(index(&c), g.x);
        assert_eq!(index(&c), c.thread_idx.x + c.block_idx.x * c.block_dim.x);
    }
}

#[test]
fn first_is_true_for_exactly_one_thread() {
    let threads = all_threads(v(2, 2, 3), v(3, 1, 2));
    let firsts: Vec<&ThreadContext> = threads.iter().filter(|c| first(c)).collect();
    assert_eq!(firsts.len(), 1);
    assert_eq!(firsts[0].thread_idx, UVec3::zero());
    assert_eq!(firsts[0].block_idx, UVec3::zero());
    assert_eq!(index(firsts[0]), 0);
}

#[test]
fn first_is_false_off_the_origin() {
    assert!(!first(&ctx(v(0, 0, 0), v(0, 1, 0), v(4, 4, 4), v(2, 2, 2))));
    assert!(!first(&ctx(v(0, 0, 1), v(0, 0, 0), v(4, 4, 4), v(2, 2, 2))));
    assert!(first(&ctx(v(0, 0, 0), v(0, 0, 0), v(4, 4, 4), v(2, 2, 2))));
}

#[test]
fn scenario_one_dimensional_launch_of_eight() {
    let c = ctx(v(2, 0, 0), v(1, 0, 0), v(4, 1, 1), v(2, 1, 1));
    assert_eq!(c.grid_dim.product() * c.block_dim.product(), 8);
    assert_eq!(index_2d(&c).x, 6);
    assert_eq!(index_3d(&c).x, 6);
    assert_eq!(index(&c), 6);
}

#[test]
fn scenario_two_by_two_block() {
    let c = ctx(v(1, 1, 0), v(0, 0, 0), v(2, 2, 1), v(1, 1, 1));
    assert_eq!(index(&c), 3);
}

#[test]
fn index_formula_exact_value() {
    // block_id = 1 + 2 * 3 + 1 * (3 * 4) = 19; offset = 2 + 1 * 5 + 3 * (5 * 2) = 37
    let c = ctx(v(2, 1, 3), v(1, 2, 1), v(5, 2, 4), v(3, 4, 2));
    assert_eq!(index(&c), 19 * 40 + 37);
}

#[test]
fn global_positions_per_axis() {
    let c = ctx(v(3, 1, 2), v(2, 5, 7), v(4, 6, 8), v(10, 10, 10));
    assert_eq!(index_2d(&c), UVec2::new(11, 31));
    assert_eq!(index_3d(&c), UVec3::new(11, 31, 58));
}

#[test]
fn global_position_at_the_largest_size() {
    let c = ctx(v(1, 0, 0), v(usize::MAX - 1, 0, 0), v(1, 1, 1), v(usize::MAX, 1, 1));
    assert_eq!(index_3d(&c), UVec3::new(usize::MAX, 0, 0));
}

#[test]
fn validity_of_contexts() {
    assert!(ctx(v(0, 0, 0), v(0, 0, 0), v(1, 1, 1), v(1, 1, 1)).is_valid());
    assert!(!ctx(v(4, 0, 0), v(0, 0, 0), v(4, 1, 1), v(1, 1, 1)).is_valid());
    assert!(!ctx(v(0, 0, 0), v(0, 0, 2), v(4, 1, 1), v(1, 1, 2)).is_valid());
    assert!(!ctx(v(0, 0, 0), v(0, 0, 0), v(0, 1, 1), v(1, 1, 1)).is_valid());
    let big = usize::MAX / 2 + 1;
    assert!(!ctx(v(0, 0, 0), v(0, 0, 0), v(2, 1, 1), v(big, 1, 1)).is_valid());
    assert!(ctx(v(0, 0, 0), v(0, 0, 0), v(1, 1, 1), v(usize::MAX, 1, 1)).is_valid());
    let c = ctx(v(0, 0, 0), v(usize::MAX - 1, 0, 0), v(1, 1, 1), v(usize::MAX, 1, 1));
    assert!(c.is_valid());
    assert_eq!(index(&c), usize::MAX - 1);
}

#[test]
fn product_of_components() {
    assert_eq!(v(2, 3, 4).product(), 24);
    assert_eq!(v(7, 0, 9).product(), 0);
}
