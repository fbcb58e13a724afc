//! Reuse of frequently created objects: a pool of idle objects handed out
//! oldest first, with a time to live and a capacity.

use vstd::prelude::*;
use std::collections::VecDeque;
use crate::clock::unix_now_millis;

verus! {

/// Sizes and time to live of an object pool.
#[derive(Debug, Clone, Copy, PartialEq, Eq, Structural)]
pub struct ObjectPoolConfig {
    pub initial_capacity: usize,
    pub max_capacity: usize,
    pub ttl_secs: u64,
}

impl Default for ObjectPoolConfig {
    /// 100 objects up front, at most 1000, five minutes to live.
    fn default() -> (c: Self)
        ensures
            c == (ObjectPoolConfig { initial_capacity: 100, max_capacity: 1000, ttl_secs: 300 }),
    {
        ObjectPoolConfig { initial_capacity: 100, max_capacity: 1000, ttl_secs: 300 }
    }
}

/// An idle object and when it was created and last used (milliseconds since the epoch).
pub struct PoolObject<T> {
    pub data: T,
    pub created_at_ms: u64,
    pub last_used_at_ms: u64,
}

/// What the pool reports; the reuse rate is in thousandths of all requests
/// (created objects included), rounded down.
#[derive(Debug, Clone, Copy, PartialEq, Eq, Structural)]
pub struct ObjectPoolStats {
    pub pool_size: usize,
    pub max_capacity: usize,
    pub create_count: u64,
    pub reuse_count: u64,
    pub reuse_per_mille: u64,
}

/// Whole seconds from `from_ms` to `to_ms`, zero when `to_ms` is earlier.
pub open spec fn secs_since(from_ms: u64, to_ms: u64) -> int {
    if to_ms > from_ms {
        (to_ms - from_ms) / 1000
    } else {
        0
    }
}

/// Milliseconds from `from_ms` to `to_ms`, zero when `to_ms` is earlier.
pub open spec fn ms_since(from_ms: u64, to_ms: u64) -> int {
    if to_ms > from_ms {
        to_ms - from_ms
    } else {
        0
    }
}

/// The first idle object, from `i` on, that is still fresh at `now_ms`.
pub open spec fn first_fresh<T>(q: Seq<PoolObject<T>>, ttl_secs: u64, now_ms: u64, i: int) -> Option<int>
    decreases q.len() - i,
{
    if i < 0 || i >= q.len() {
        None
    } else if secs_since(q[i].last_used_at_ms, now_ms) < ttl_secs {
        Some(i)
    } else {
        first_fresh(q, ttl_secs, now_ms, i + 1)
    }
}

/// The idle objects that are younger than the time to live at `now_ms`, in order.
pub open spec fn unexpired<T>(q: Seq<PoolObject<T>>, ttl_secs: u64, now_ms: u64) -> Seq<PoolObject<T>>
    decreases q.len(),
{
    if q.len() == 0 {
        seq![]
    } else {
        unexpired(q.drop_last(), ttl_secs, now_ms) + if ms_since(q.last().last_used_at_ms, now_ms) < ttl_secs * 1000 {
            seq![q.last()]
        } else {
            seq![]
        }
    }
}

/// A pool of reusable objects.
pub struct ObjectPool<T> {
    pub pool: VecDeque<PoolObject<T>>,
    pub config: ObjectPoolConfig,
    pub create_count: u64,
    pub reuse_count: u64,
}

/// What taking an object at `now_ms` does, from `p0` to `p1`, handing out
/// `obj`: the first idle object still fresh is reused (the expired ones before
/// it are dropped); with none, the pool is left empty and a new default
/// object is made.
pub open spec fn taken<T: Default>(p0: ObjectPool<T>, p1: ObjectPool<T>, now_ms: u64, obj: T) -> bool {
    match first_fresh(p0.pool@, p0.config.ttl_secs, now_ms, 0) {
        Some(i) => obj == p0.pool@[i].data && p1.pool@ == p0.pool@.subrange(i + 1, p0.pool@.len() as int)
            && p1.reuse_count == p0.reuse_count + 1 && p1.create_count == p0.create_count,
        None => p1.pool@.len() == 0 && p1.create_count == p0.create_count + 1 && p1.reuse_count == p0.reuse_count
            && call_ensures(T::default, (), obj),
    }
}

impl<T: Default> ObjectPool<T> {
    /// A pool holding `initial_capacity` default objects made at `now_ms`.
    pub fn new_at(config: ObjectPoolConfig, now_ms: u64) -> (p: Self)
        ensures
            p.pool@.len() == config.initial_capacity,
            forall|i: int| 0 <= i < p.pool@.len() ==> (#[trigger] p.pool@[i]).last_used_at_ms == now_ms,
            p.config == config,
            p.create_count == config.initial_capacity,
            p.reuse_count == 0,
    {
        let mut pool: VecDeque<PoolObject<T>> = VecDeque::new();
        let mut i: usize = 0;
        while i < config.initial_capacity
            invariant
                i <= config.initial_capacity,
                pool@.len() == i,
                forall|j: int| 0 <= j < pool@.len() ==> (#[trigger] pool@[j]).last_used_at_ms == now_ms,
            decreases config.initial_capacity - i,
        {
            pool.push_back(PoolObject { data: T::default(), created_at_ms: now_ms, last_used_at_ms: now_ms });
            i = i + 1;
        }
        ObjectPool { pool, config, create_count: config.initial_capacity as u64, reuse_count: 0 }
    }

    /// A pool made now.
    pub fn new(config: ObjectPoolConfig) -> (p: Self)
        ensures
            p.pool@.len() == config.initial_capacity,
            p.config == config,
            p.create_count == config.initial_capacity,
            p.reuse_count == 0,
    {
        Self::new_at(config, unix_now_millis())
    }

    /// An object at `now_ms`: the first idle one still fresh (those before it,
    /// expired, are dropped), else a new default one.
    pub fn get_at(&mut self, now_ms: u64) -> (obj: T)
        requires
            old(self).create_count < u64::MAX,
            old(self).reuse_count < u64::MAX,
        ensures
            final(self).config == old(self).config,
            taken(*old(self), *final(self), now_ms, obj),
    {
        let ghost q = self.pool@;
        let ghost mut k: int = 0;
        while self.pool.len() > 0
            invariant
                0 <= k <= q.len(),
                self.pool@ == q.subrange(k, q.len() as int),
                first_fresh(q, self.config.ttl_secs, now_ms, 0) == first_fresh(q, self.config.ttl_secs, now_ms, k),
                self.config == old(self).config,
                self.create_count == old(self).create_count,
                self.reuse_count == old(self).reuse_count,
                q == old(self).pool@,
                self.reuse_count < u64::MAX,
            decreases self.pool@.len(),
        {
            let o = self.pool.pop_front().unwrap();
            assert(o == q[k]);
            let age = if now_ms > o.last_used_at_ms { (now_ms - o.last_used_at_ms) / 1000 } else { 0 };
            if age < self.config.ttl_secs {
                self.reuse_count = self.reuse_count + 1;
                proof {
                    assert(self.pool@ =~= q.subrange(k + 1, q.len() as int));
                }
                return o.data;
            }
            proof {
                k = k + 1;
                assert(self.pool@ =~= q.subrange(k, q.len() as int));
            }
        }
        self.create_count = self.create_count + 1;
        T::default()
    }

    /// An object now, as `get_at` hands one out at the clock's reading.
    pub fn get(&mut self) -> (obj: T)
        requires
            old(self).create_count < u64::MAX,
            old(self).reuse_count < u64::MAX,
        ensures
            final(self).config == old(self).config,
            final(self).create_count + final(self).reuse_count == old(self).create_count + old(self).reuse_count + 1,
            exists|now_ms: u64| #[trigger] taken(*old(self), *final(self), now_ms, obj),
    {
        self.get_at(unix_now_millis())
    }

    /// Puts `obj` back, used at `now_ms`, unless the pool is full.
    pub fn return_object_at(&mut self, obj: T, now_ms: u64)
        ensures
            old(self).pool@.len() >= old(self).config.max_capacity ==> final(self).pool@ == old(self).pool@,
            old(self).pool@.len() < old(self).config.max_capacity ==> final(self).pool@ == old(self).pool@.push(
                PoolObject { data: obj, created_at_ms: now_ms, last_used_at_ms: now_ms },
            ),
            final(self).config == old(self).config,
            final(self).create_count == old(self).create_count,
            final(self).reuse_count == old(self).reuse_count,
    {
        if self.pool.len() >= self.config.max_capacity {
            return;
        }
        self.pool.push_back(PoolObject { data: obj, created_at_ms: now_ms, last_used_at_ms: now_ms });
    }

    /// Puts `obj` back now, unless the pool is full.
    pub fn return_object(&mut self, obj: T)
        ensures
            old(self).pool@.len() >= old(self).config.max_capacity ==> final(self).pool@ == old(self).pool@,
            old(self).pool@.len() < old(self).config.max_capacity ==> final(self).pool@.len() == old(self).pool@.len()
                + 1 && final(self).pool@.drop_last() == old(self).pool@ && final(self).pool@.last().data == obj,
            final(self).config == old(self).config,
            final(self).create_count == old(self).create_count,
            final(self).reuse_count == old(self).reuse_count,
    {
        self.return_object_at(obj, unix_now_millis())
    }

    pub fn get_stats(&self) -> (s: ObjectPoolStats)
        ensures
            s.pool_size == self.pool@.len(),
            s.max_capacity == self.config.max_capacity,
            s.create_count == self.create_count,
            s.reuse_count == self.reuse_count,
            s.reuse_per_mille == (if self.create_count + self.reuse_count > 0 {
                self.reuse_count * 1000 / (self.create_count + self.reuse_count)
            } else {
                0
            }),
    {
        let total = (self.create_count as u128) + (self.reuse_count as u128);
        let rate: u64 = if total > 0 {
            let num = (self.reuse_count as u128) * 1000;
            let r = num / total;
            proof {
                let ru = self.reuse_count as int;
                let t = total as int;
                assert(num as int / t <= 1000) by (nonlinear_arith)
                    requires
                        num as int == ru * 1000,
                        ru <= t,
                        t > 0,
                ;
            }
            r as u64
        } else {
            0
        };
        ObjectPoolStats {
            pool_size: self.pool.len(),
            max_capacity: self.config.max_capacity,
            create_count: self.create_count,
            reuse_count: self.reuse_count,
            reuse_per_mille: rate,
        }
    }

    /// Drops the idle objects that are not younger than the time to live at
    /// `now_ms`; returns how many.
    pub fn cleanup_at(&mut self, now_ms: u64) -> (n: usize)
        ensures
            final(self).pool@ == unexpired(old(self).pool@, old(self).config.ttl_secs, now_ms),
            n + final(self).pool@.len() == old(self).pool@.len(),
            final(self).config == old(self).config,
            final(self).create_count == old(self).create_count,
            final(self).reuse_count == old(self).reuse_count,
    {
        let ghost q = self.pool@;
        let n = self.pool.len();
        let mut kept: VecDeque<PoolObject<T>> = VecDeque::new();
        let mut removed: usize = 0;
        let mut i: usize = 0;
        while self.pool.len() > 0
            invariant
                q == old(self).pool@,
                n == q.len(),
                i + self.pool@.len() == n,
                self.pool@ == q.subrange(i as int, n as int),
                kept@ == unexpired(q.subrange(0, i as int), self.config.ttl_secs, now_ms),
                removed + kept@.len() == i,
                self.config == old(self).config,
                self.create_count == old(self).create_count,
                self.reuse_count == old(self).reuse_count,
            decreases self.pool@.len(),
        {
            let o = self.pool.pop_front().unwrap();
            proof {
                assert(o == q[i as int]);
                assert(q.subrange(0, i + 1).drop_last() =~= q.subrange(0, i as int));
                assert(q.subrange(0, i + 1).last() == o);
            }
            let since = if now_ms > o.last_used_at_ms { (now_ms - o.last_used_at_ms) as u128 } else { 0 };
            if since < (self.config.ttl_secs as u128) * 1000 {
                kept.push_back(o);
            } else {
                removed = removed + 1;
            }
            i = i + 1;
            assert(self.pool@ =~= q.subrange(i as int, n as int));
        }
        assert(q.subrange(0, n as int) =~= q);
        self.pool = kept;
        removed
    }

    /// Drops the expired idle objects now, as `cleanup_at` does at the clock's reading.
    pub fn cleanup(&mut self) -> (n: usize)
        ensures
            n + final(self).pool@.len() == old(self).pool@.len(),
            exists|now_ms: u64| final(self).pool@ == #[trigger] unexpired(old(self).pool@, old(self).config.ttl_secs, now_ms),
            final(self).config == old(self).config,
            final(self).create_count == old(self).create_count,
            final(self).reuse_count == old(self).reuse_count,
    {
        self.cleanup_at(unix_now_millis())
    }

    /// Empties the pool.
    pub fn clear(&mut self)
        ensures
            final(self).pool@.len() == 0,
            final(self).config == old(self).config,
            final(self).create_count == old(self).create_count,
            final(self).reuse_count == old(self).reuse_count,
    {
        self.pool.clear();
    }
}

} // verus!
