use dingo_test_runner::util::memory_pool::{MemoryPoolManager, PoolConfig, VecPool};

#[test]
fn test_string_vec_pool_basic() {
    let config = PoolConfig::default();
    let mut manager = MemoryPoolManager::new(config);
    let mut pooled_vec = manager.get_string_vec();
    pooled_vec.push("test".to_string());
    pooled_vec.push("data".to_string());
    assert_eq!(pooled_vec.len(), 2);
    assert_eq!(pooled_vec[0], "test");
    assert_eq!(pooled_vec[1], "data");
    manager.string_vec_pool.return_vec(pooled_vec);
    let pooled_vec2 = manager.get_string_vec();
    assert_eq!(pooled_vec2.len(), 0);
}

#[test]
fn test_row_data_pool_basic() {
    let config = PoolConfig::default();
    let mut manager = MemoryPoolManager::new(config);
    let mut row_data = manager.get_row_data();
    row_data.push(vec!["col1".to_string(), "col2".to_string()]);
    row_data.push(vec!["val1".to_string(), "val2".to_string()]);
    assert_eq!(row_data.len(), 2);
    assert_eq!(row_data[0][0], "col1");
    manager.row_data_pool.return_vec(row_data);
    let row_data2 = manager.get_row_data();
    assert_eq!(row_data2.len(), 0);
}

#[test]
fn test_pool_stats() {
    let mut manager = MemoryPoolManager::new(PoolConfig::default());
    manager.clear_all();
    let stats_before = manager.get_stats();
    let vec1 = manager.get_string_vec();
    let vec2 = manager.get_row_data();
    let stats_after = manager.get_stats();
    assert_eq!(stats_after.string_vec_pool_size, stats_before.string_vec_pool_size);
    manager.string_vec_pool.return_vec(vec1);
    manager.row_data_pool.return_vec(vec2);
    let stats_final = manager.get_stats();
    assert!(stats_final.string_vec_pool_size >= stats_before.string_vec_pool_size);
}

#[test]
fn pool_keeps_no_more_than_its_limit() {
    let mut pool: VecPool<u8> = VecPool::new(4, 1);
    pool.return_vec(vec![1, 2]);
    pool.return_vec(vec![3]);
    assert_eq!(pool.pool_size(), 2);
    assert!(pool.get().is_empty());
    assert_eq!(pool.pool_size(), 1);
    assert!(pool.get().is_empty());
    assert_eq!(pool.pool_size(), 1);
    pool.clear();
    assert_eq!(pool.pool_size(), 0);
}
