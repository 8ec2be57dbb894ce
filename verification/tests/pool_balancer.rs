use moe_scheduler::error::Error;
use moe_scheduler::task_executor::{LoadBalancer, MemoryPool};

#[test]
fn pool_never_exceeds_its_capacity() {
    let mut pool = MemoryPool::new(100);
    let b1 = pool.acquire(40).unwrap();
    let b2 = pool.acquire(40).unwrap();
    assert_eq!(pool.total_allocated, 80);
    let r = pool.acquire(40);
    assert!(matches!(r, Err(Error::ResourceExhausted(_))));
    assert_eq!(pool.total_allocated, 80);
    assert!(pool.total_allocated <= pool.capacity);
    drop(b1);
    drop(b2);
}

#[test]
fn release_then_acquire_reuses_the_buffer() {
    let mut pool = MemoryPool::new(100);
    let b = pool.acquire(40).unwrap();
    assert_eq!(pool.total_allocated, 40);
    pool.release(b);
    // The second acquisition of the same size pops the free buffer: no
    // growth in the allocation count.
    let b2 = pool.acquire(40).unwrap();
    assert_eq!(pool.total_allocated, 40);
    assert_eq!(b2.size, 40);
}

#[test]
fn pool_buckets_are_per_size() {
    let mut pool = MemoryPool::new(100);
    let b8 = pool.acquire(8).unwrap();
    pool.release(b8);
    // A different size does not reuse the 8-byte buffer.
    let b16 = pool.acquire(16).unwrap();
    assert_eq!(pool.total_allocated, 8 + 16);
    assert_eq!(b16.size, 16);
}

#[test]
fn teardown_clears_the_pool() {
    let mut pool = MemoryPool::new(64);
    let b = pool.acquire(8).unwrap();
    pool.release(b);
    pool.teardown();
    assert_eq!(pool.total_allocated, 0);
    assert!(pool.free_buffers.is_empty());
    assert_eq!(pool.capacity, 64);
}

#[test]
fn select_picks_the_least_loaded_unit() {
    // Loads of 0.2 and 0.1 in steps of 0.1: unit A at 2 steps, unit B
    // at 1 step; the balancer picks B.
    let mut lb = LoadBalancer::new();
    lb.gpu_loads = vec![(7, 2), (9, 1)];
    let picked = lb.select_gpu(&vec![7, 9]).unwrap();
    assert_eq!(picked, 9);
    assert_eq!(lb.load_lookup(9), 2);
    assert_eq!(lb.load_lookup(7), 2);
}

#[test]
fn release_floors_the_load_at_zero() {
    let mut lb = LoadBalancer::new();
    lb.gpu_loads = vec![(9, 1)];
    lb.release_gpu(9);
    assert_eq!(lb.load_lookup(9), 0);
    // Releasing again never makes the load negative.
    lb.release_gpu(9);
    assert_eq!(lb.load_lookup(9), 0);
}

#[test]
fn select_ties_go_to_the_first_candidate() {
    let mut lb = LoadBalancer::new();
    lb.gpu_loads = vec![(1, 1), (2, 1)];
    let picked = lb.select_gpu(&vec![1, 2]).unwrap();
    assert_eq!(picked, 1);
}

#[test]
fn select_with_no_candidates_is_resource_exhaustion() {
    let mut lb = LoadBalancer::new();
    let r = lb.select_gpu(&Vec::new());
    assert!(matches!(r, Err(Error::ResourceExhausted(_))));
}

#[test]
fn untracked_units_start_at_zero_load() {
    let mut lb = LoadBalancer::new();
    assert_eq!(lb.load_lookup(42), 0);
    let picked = lb.select_gpu(&vec![42]).unwrap();
    assert_eq!(picked, 42);
    assert_eq!(lb.load_lookup(42), 1);
}

#[test]
fn assignments_are_recorded_per_task() {
    let mut lb = LoadBalancer::new();
    lb.assign_task("a", 3);
    lb.assign_task("b", 5);
    lb.assign_task("a", 7);
    assert_eq!(lb.task_distribution.len(), 2);
    assert!(lb.task_distribution.contains(&("a".to_string(), 7)));
    assert!(lb.task_distribution.contains(&("b".to_string(), 5)));
}
