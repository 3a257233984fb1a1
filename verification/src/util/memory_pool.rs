//! Pools of emptied vectors, handed out again instead of allocating anew.
//!
//! A pool keeps at most a given number of vectors. It counts the vectors
//! given back less those handed out again (never below zero); a vector given
//! back while that count is above the limit is dropped.

use vstd::prelude::*;

verus! {

#[verifier::external_type_specification]
#[verifier::external_body]
pub struct ExRegex(regex::Regex);

/// The limits of the pools.
#[derive(Debug, Clone)]
pub struct PoolConfig {
    pub string_vec_initial_capacity: usize,
    pub string_vec_max_pool_size: usize,
    pub query_max_pool_size: usize,
    pub row_data_max_pool_size: usize,
    pub byte_vec_initial_capacity: usize,
    pub byte_vec_max_pool_size: usize,
}

impl Default for PoolConfig {
    fn default() -> (res: Self)
        ensures
            res.string_vec_initial_capacity == 16,
            res.string_vec_max_pool_size == 1000,
            res.query_max_pool_size == 500,
            res.row_data_max_pool_size == 100,
            res.byte_vec_initial_capacity == 1024,
            res.byte_vec_max_pool_size == 200,
    {
        PoolConfig {
            string_vec_initial_capacity: 16,
            string_vec_max_pool_size: 1000,
            query_max_pool_size: 500,
            row_data_max_pool_size: 100,
            byte_vec_initial_capacity: 1024,
            byte_vec_max_pool_size: 200,
        }
    }
}

/// The counts of the pools.
#[derive(Debug, Clone)]
pub struct PoolStats {
    pub string_vec_pool_size: usize,
    pub row_data_pool_size: usize,
    pub byte_vec_pool_size: usize,
    pub regex_vec_pool_size: usize,
}

/// A pool of emptied vectors.
pub struct VecPool<T> {
    pool: Vec<Vec<T>>,
    initial_capacity: usize,
    max_pool_size: usize,
    current_size: usize,
}

impl<T> VecPool<T> {
    /// The pool keeps no more vectors than its limit, nor more than its
    /// count; every kept vector is empty.
    pub closed spec fn wf(&self) -> bool {
        &&& self.pool@.len() <= self.max_pool_size
        &&& self.pool@.len() <= self.current_size
        &&& forall|i: int| 0 <= i < self.pool@.len() ==> (#[trigger] self.pool@[i])@.len() == 0
    }

    /// The number of vectors kept.
    pub closed spec fn kept(&self) -> nat {
        self.pool@.len()
    }

    /// Vectors given back less vectors handed out again.
    pub closed spec fn count(&self) -> nat {
        self.current_size as nat
    }

    /// The most vectors kept.
    pub closed spec fn limit(&self) -> nat {
        self.max_pool_size as nat
    }

    /// `self` is `before` after one vector was handed out: a kept one when
    /// there was one (the count going down by one), else a new one.
    pub open spec fn handed_out_from(&self, before: &Self) -> bool {
        &&& self.wf()
        &&& self.limit() == before.limit()
        &&& before.kept() > 0 ==> self.kept() == before.kept() - 1 && self.count() == before.count()
            - 1
        &&& before.kept() == 0 ==> self.kept() == 0 && self.count() == before.count()
    }

    /// An empty pool keeping at most `max_pool_size` vectors, new ones made
    /// with room for `initial_capacity` items.
    pub fn new(initial_capacity: usize, max_pool_size: usize) -> (res: Self)
        ensures
            res.wf(),
            res.kept() == 0,
            res.count() == 0,
            res.limit() == max_pool_size,
    {
        VecPool { pool: Vec::new(), initial_capacity, max_pool_size, current_size: 0 }
    }

    /// An empty vector: a kept one when there is one (the count going down
    /// by one), else a new one.
    pub fn get(&mut self) -> (res: Vec<T>)
        requires
            old(self).wf(),
        ensures
            final(self).wf(),
            res@.len() == 0,
            final(self).limit() == old(self).limit(),
            old(self).kept() > 0 ==> final(self).kept() == old(self).kept() - 1 && final(self).count()
                == old(self).count() - 1,
            old(self).kept() == 0 ==> final(self).kept() == 0 && final(self).count() == old(
                self,
            ).count(),
    {
        match self.pool.pop() {
            Some(mut v) => {
                v.clear();
                self.current_size = self.current_size - 1;
                v
            },
            None => Vec::with_capacity(self.initial_capacity),
        }
    }

    /// Takes a vector back: the count goes up by one, and the vector,
    /// emptied, is kept while the count is within the limit.
    pub fn return_vec(&mut self, v: Vec<T>)
        requires
            old(self).wf(),
            old(self).count() < usize::MAX,
        ensures
            final(self).wf(),
            final(self).limit() == old(self).limit(),
            final(self).count() == old(self).count() + 1,
            final(self).kept() == if old(self).count() + 1 <= old(self).limit() {
                old(self).kept() + 1
            } else {
                old(self).kept()
            },
    {
        self.current_size = self.current_size + 1;
        if self.current_size <= self.max_pool_size {
            let mut v = v;
            v.clear();
            self.pool.push(v);
        }
    }

    /// The count.
    pub fn pool_size(&self) -> (res: usize)
        ensures
            res == self.count(),
    {
        self.current_size
    }

    /// Drops every kept vector; the count starts again from zero.
    pub fn clear(&mut self)
        requires
            old(self).wf(),
        ensures
            final(self).wf(),
            final(self).kept() == 0,
            final(self).count() == 0,
            final(self).limit() == old(self).limit(),
    {
        self.pool = Vec::new();
        self.current_size = 0;
    }
}

/// The pools of the runner: string lists, result rows, bytes and compiled
/// patterns.
pub struct MemoryPoolManager {
    pub string_vec_pool: VecPool<String>,
    pub row_data_pool: VecPool<Vec<String>>,
    pub byte_vec_pool: VecPool<u8>,
    pub regex_vec_pool: VecPool<(regex::Regex, String)>,
}

impl MemoryPoolManager {
    /// All pools well formed.
    pub open spec fn wf(&self) -> bool {
        &&& self.string_vec_pool.wf()
        &&& self.row_data_pool.wf()
        &&& self.byte_vec_pool.wf()
        &&& self.regex_vec_pool.wf()
    }

    /// Empty pools with the limits of `config`.
    pub fn new(config: PoolConfig) -> (res: Self)
        ensures
            res.wf(),
            res.string_vec_pool.count() == 0 && res.string_vec_pool.limit()
                == config.string_vec_max_pool_size,
            res.row_data_pool.count() == 0 && res.row_data_pool.limit()
                == config.row_data_max_pool_size,
            res.byte_vec_pool.count() == 0 && res.byte_vec_pool.limit()
                == config.byte_vec_max_pool_size,
            res.regex_vec_pool.count() == 0 && res.regex_vec_pool.limit()
                == config.string_vec_max_pool_size,
    {
        MemoryPoolManager {
            string_vec_pool: VecPool::new(
                config.string_vec_initial_capacity,
                config.string_vec_max_pool_size,
            ),
            row_data_pool: VecPool::new(0, config.row_data_max_pool_size),
            byte_vec_pool: VecPool::new(
                config.byte_vec_initial_capacity,
                config.byte_vec_max_pool_size,
            ),
            regex_vec_pool: VecPool::new(0, config.string_vec_max_pool_size),
        }
    }

    /// An empty list of strings from its pool.
    pub fn get_string_vec(&mut self) -> (res: Vec<String>)
        requires
            old(self).wf(),
        ensures
            final(self).wf(),
            res@.len() == 0,
            final(self).string_vec_pool.handed_out_from(&old(self).string_vec_pool),
            final(self).row_data_pool == old(self).row_data_pool,
            final(self).byte_vec_pool == old(self).byte_vec_pool,
            final(self).regex_vec_pool == old(self).regex_vec_pool,
    {
        self.string_vec_pool.get()
    }

    /// An empty list of rows from its pool.
    pub fn get_row_data(&mut self) -> (res: Vec<Vec<String>>)
        requires
            old(self).wf(),
        ensures
            final(self).wf(),
            res@.len() == 0,
            final(self).row_data_pool.handed_out_from(&old(self).row_data_pool),
            final(self).string_vec_pool == old(self).string_vec_pool,
            final(self).byte_vec_pool == old(self).byte_vec_pool,
            final(self).regex_vec_pool == old(self).regex_vec_pool,
    {
        self.row_data_pool.get()
    }

    /// An empty byte buffer from its pool.
    pub fn get_byte_vec(&mut self) -> (res: Vec<u8>)
        requires
            old(self).wf(),
        ensures
            final(self).wf(),
            res@.len() == 0,
            final(self).byte_vec_pool.handed_out_from(&old(self).byte_vec_pool),
            final(self).string_vec_pool == old(self).string_vec_pool,
            final(self).row_data_pool == old(self).row_data_pool,
            final(self).regex_vec_pool == old(self).regex_vec_pool,
    {
        self.byte_vec_pool.get()
    }

    /// An empty list of patterns from its pool.
    pub fn get_regex_vec(&mut self) -> (res: Vec<(regex::Regex, String)>)
        requires
            old(self).wf(),
        ensures
            final(self).wf(),
            res@.len() == 0,
            final(self).regex_vec_pool.handed_out_from(&old(self).regex_vec_pool),
            final(self).string_vec_pool == old(self).string_vec_pool,
            final(self).row_data_pool == old(self).row_data_pool,
            final(self).byte_vec_pool == old(self).byte_vec_pool,
    {
        self.regex_vec_pool.get()
    }

    /// The count of each pool.
    pub fn get_stats(&self) -> (res: PoolStats)
        ensures
            res.string_vec_pool_size == self.string_vec_pool.count(),
            res.row_data_pool_size == self.row_data_pool.count(),
            res.byte_vec_pool_size == self.byte_vec_pool.count(),
            res.regex_vec_pool_size == self.regex_vec_pool.count(),
    {
        PoolStats {
            string_vec_pool_size: self.string_vec_pool.pool_size(),
            row_data_pool_size: self.row_data_pool.pool_size(),
            byte_vec_pool_size: self.byte_vec_pool.pool_size(),
            regex_vec_pool_size: self.regex_vec_pool.pool_size(),
        }
    }

    /// Empties every pool.
    pub fn clear_all(&mut self)
        requires
            old(self).wf(),
        ensures
            final(self).wf(),
            final(self).string_vec_pool.count() == 0,
            final(self).row_data_pool.count() == 0,
            final(self).byte_vec_pool.count() == 0,
            final(self).regex_vec_pool.count() == 0,
    {
        self.string_vec_pool.clear();
        self.row_data_pool.clear();
        self.byte_vec_pool.clear();
        self.regex_vec_pool.clear();
    }
}

} // verus!
