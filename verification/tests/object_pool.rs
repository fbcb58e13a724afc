use rust_workflow_engine::optimization::object_pool::{ObjectPool, ObjectPoolConfig};

#[test]
fn test_object_pool_creation() {
    let config = ObjectPoolConfig { initial_capacity: 10, max_capacity: 100, ttl_secs: 300 };

    let pool = ObjectPool::<i32>::new(config);
    let stats = pool.get_stats();

    assert_eq!(stats.pool_size, 10);
    assert_eq!(stats.max_capacity, 100);
    assert_eq!(stats.create_count, 10);
    assert_eq!(stats.reuse_count, 0);
}

#[test]
fn object_pool_hands_out_oldest_first() {
    let config = ObjectPoolConfig::default();
    let mut pool = ObjectPool::<i32>::new(config);

    let obj = pool.get();
    assert_eq!(obj, 0);

    pool.return_object(42);

    // the pool hands out its oldest idle object first: the 99 pre-made ones come before 42
    for _ in 0..99 {
        assert_eq!(pool.get(), 0);
    }
    let obj = pool.get();
    assert_eq!(obj, 42);

    let stats = pool.get_stats();
    assert_eq!(stats.reuse_count, 101);
    assert!(stats.reuse_per_mille > 0);
}

#[test]
fn test_object_pool_max_capacity() {
    let config = ObjectPoolConfig { initial_capacity: 5, max_capacity: 5, ttl_secs: 300 };

    let mut pool = ObjectPool::<i32>::new(config);

    for _ in 0..5 {
        let _ = pool.get();
    }

    for i in 0..10 {
        pool.return_object(i);
    }

    let stats = pool.get_stats();
    assert_eq!(stats.pool_size, 5);
}

#[test]
fn test_object_pool_reuse_rate() {
    let config = ObjectPoolConfig { initial_capacity: 10, max_capacity: 100, ttl_secs: 300 };

    let mut pool = ObjectPool::<i32>::new(config);

    for _ in 0..100 {
        let obj = pool.get();
        pool.return_object(obj + 1);
    }

    let stats = pool.get_stats();
    assert!(stats.reuse_per_mille > 900);
}

#[test]
fn object_pool_cleanup_and_expiry() {
    let config = ObjectPoolConfig { initial_capacity: 3, max_capacity: 10, ttl_secs: 1 };
    let mut pool = ObjectPool::<u8>::new_at(config, 1_000);
    pool.return_object_at(7, 1_800);
    assert_eq!(pool.cleanup_at(2_000), 3);
    assert_eq!(pool.get_stats().pool_size, 1);
    // the remaining object is fresh at 2 s and handed out again
    assert_eq!(pool.get_at(2_500), 7);
    assert_eq!(pool.get_at(2_500), 0);
    assert_eq!(pool.get_stats().create_count, 4);
    pool.clear();
    assert_eq!(pool.get_stats().pool_size, 0);
}

#[test]
fn get_reuses_the_front_object_then_makes_new_ones() {
    let mut pool = ObjectPool::<i32>::new(ObjectPoolConfig { initial_capacity: 1, max_capacity: 4, ttl_secs: 300 });
    assert_eq!(pool.get(), 0);
    assert_eq!(pool.get_stats().reuse_count, 1);
    pool.return_object(42);
    assert_eq!(pool.get(), 42);
    assert_eq!(pool.get_stats().reuse_count, 2);
    assert_eq!(pool.get(), 0);
    assert_eq!(pool.get_stats().create_count, 2);
}
