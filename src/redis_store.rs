//! A store in Redis, reached through a bounded, lazily connecting pool.
//!
//! Nothing is known of what a remote store answers, so this store does not
//! obey a model: the functions that use it state what holds whatever it
//! answers.
use vstd::prelude::*;
use redis::Commands;
use crate::store::{DataStore, DataStoreError};

verus! {

#[verifier::external_type_specification]
#[verifier::external_body]
pub struct ExRedisClient(redis::Client);

#[verifier::external_type_specification]
#[verifier::external_body]
pub struct ExRedisError(redis::RedisError);

#[verifier::external_type_specification]
#[verifier::external_body]
pub struct ExPoolError(r2d2::Error);

/// A pool of Redis connections (r2d2's `Pool<redis::Client>`), opaque here.
#[verifier::external_body]
pub struct RedisPool {
    pool: r2d2::Pool<redis::Client>,
}

/// A connection taken from a [`RedisPool`], returned to it when dropped.
#[verifier::external_body]
pub struct RedisConnection {
    conn: r2d2::PooledConnection<redis::Client>,
}

/// The connection string of a Redis server on this machine.
pub const LOCAL_REDIS_URL: &'static str = "redis://127.0.0.1/";

/// Connections the pool holds at most.
pub const POOL_MAX_SIZE: u32 = 6;

/// Idle connections the pool tries to keep.
pub const POOL_MIN_IDLE: u32 = 2;

/// How long an operation waits for a connection, in milliseconds.
pub const POOL_TIMEOUT_MS: u64 = 1000;

/// Whether `redis::Client::open` accepts a connection string: it parses the
/// string alone and connects to nothing.
pub uninterp spec fn redis_url_accepted(url: Seq<char>) -> bool;

/// Relies on `redis::Client::open`: a client for the connection string,
/// which does not connect yet; an error where the string is not a Redis URL.
/// The local URL has a host, and its empty path selects database 0, so it
/// is accepted.
#[verifier::external_body]
fn open_client(url: &str) -> (r: Result<redis::Client, redis::RedisError>)
    ensures
        r is Ok <==> redis_url_accepted(url@),
        url@ == LOCAL_REDIS_URL@ ==> r is Ok,
{
    redis::Client::open(url)
}

/// The most connections a pool holds (r2d2's `Pool::max_size`).
pub uninterp spec fn pool_max_size(pool: RedisPool) -> u32;

/// The idle connections a pool keeps (r2d2's `Pool::min_idle`).
pub uninterp spec fn pool_min_idle(pool: RedisPool) -> Option<u32>;

/// How long a pool waits for a connection, in milliseconds (r2d2's
/// `Pool::connection_timeout`).
pub uninterp spec fn pool_timeout_ms(pool: RedisPool) -> u64;

/// Relies on `r2d2::Pool::builder` with `max_size`, `min_idle`,
/// `connection_timeout`, `error_handler` and `build_unchecked`: a pool of at
/// most `max_size` connections that connects lazily and does not log.
/// The builder panics where `max_size` or the timeout is zero, or where
/// `min_idle` exceeds `max_size`.
#[verifier::external_body]
fn build_pool(client: redis::Client, max_size: u32, min_idle: u32, timeout_ms: u64) -> (r:
    RedisPool)
    requires
        max_size > 0,
        min_idle <= max_size,
        timeout_ms > 0,
    ensures
        pool_max_size(r) == max_size,
        pool_min_idle(r) == Some(min_idle),
        pool_timeout_ms(r) == timeout_ms,
{
    let pool = r2d2::Pool::builder()
        .max_size(max_size)
        .min_idle(Some(min_idle))
        .connection_timeout(std::time::Duration::from_millis(timeout_ms))
        .error_handler(Box::new(r2d2::NopErrorHandler))
        .build_unchecked(client);
    RedisPool { pool }
}

/// Relies on `Clone` of `r2d2::Pool`: a handle to the same pool, with its
/// settings.
#[verifier::external_body]
fn share_pool(pool: &RedisPool) -> (r: RedisPool)
    ensures
        pool_max_size(r) == pool_max_size(*pool),
        pool_min_idle(r) == pool_min_idle(*pool),
        pool_timeout_ms(r) == pool_timeout_ms(*pool),
{
    RedisPool { pool: pool.pool.clone() }
}

/// Relies on `r2d2::Pool::get`: a connection from the pool, or an error
/// once the pool's timeout has passed.
#[verifier::external_body]
fn pool_get(pool: &RedisPool) -> (r: Result<RedisConnection, r2d2::Error>) {
    pool.pool.get().map(|conn| RedisConnection { conn })
}

/// Relies on redis's `Commands::get`: the value under `key`, `None` where
/// there is none.
#[verifier::external_body]
fn redis_get(conn: &mut RedisConnection, key: &str) -> (r: Result<
    Option<String>,
    redis::RedisError,
>) {
    conn.conn.get(key)
}

/// Relies on redis's `Commands::set`: store `value` under `key`.
#[verifier::external_body]
fn redis_set(conn: &mut RedisConnection, key: &str, value: &str) -> (r:
    Result<(), redis::RedisError>) {
    conn.conn.set(key, value)
}

/// Relies on redis's `Commands::set_ex`: store `value` under `key` for
/// `secs` seconds.
#[verifier::external_body]
fn redis_set_ex(
    conn: &mut RedisConnection,
    key: &str,
    value: &str,
    secs: u64,
) -> (r: Result<(), redis::RedisError>) {
    conn.conn.set_ex(key, value, secs as usize)
}

/// Relies on redis's `Commands::del`: remove `key`.
#[verifier::external_body]
fn redis_del(conn: &mut RedisConnection, key: &str) -> (r: Result<
    (),
    redis::RedisError,
>) {
    conn.conn.del(key)
}

/// A data store for Redis.
pub struct RedisStore {
    pool: RedisPool,
}

impl RedisStore {
    /// The most connections this store's pool holds.
    pub closed spec fn max_size(&self) -> u32 {
        pool_max_size(self.pool)
    }

    /// The idle connections this store's pool keeps.
    pub closed spec fn min_idle(&self) -> Option<u32> {
        pool_min_idle(self.pool)
    }

    /// How long an operation waits for a connection, in milliseconds.
    pub closed spec fn timeout_ms(&self) -> u64 {
        pool_timeout_ms(self.pool)
    }

    /// A store for the Redis server on this machine. It always opens: the
    /// pool connects on first use.
    pub fn new() -> (r: Result<RedisStore, DataStoreError>)
        ensures
            r is Ok,
            r matches Ok(st) ==> st.max_size() == POOL_MAX_SIZE && st.min_idle() == Some(POOL_MIN_IDLE)
                && st.timeout_ms() == POOL_TIMEOUT_MS,
    {
        RedisStore::open(LOCAL_REDIS_URL)
    }

    /// A store for the Redis server at `url`, with a pool of at most six
    /// connections that waits one second for one. Fails with `Backend` where
    /// the connection string is refused.
    pub fn open(url: &str) -> (r: Result<RedisStore, DataStoreError>)
        ensures
            r is Ok <==> redis_url_accepted(url@),
            url@ == LOCAL_REDIS_URL@ ==> r is Ok,
            r matches Err(e) ==> e == DataStoreError::Backend,
            r matches Ok(st) ==> st.max_size() == POOL_MAX_SIZE && st.min_idle() == Some(POOL_MIN_IDLE)
                && st.timeout_ms() == POOL_TIMEOUT_MS,
    {
        RedisStore::open_with(url, POOL_MAX_SIZE, POOL_MIN_IDLE, POOL_TIMEOUT_MS)
    }

    /// A store for the Redis server at `url`, with a pool of at most
    /// `max_size` connections, of which it keeps `min_idle` idle, and that
    /// waits `timeout_ms` milliseconds for one. Fails with `Backend` where the
    /// connection string is refused.
    pub fn open_with(url: &str, max_size: u32, min_idle: u32, timeout_ms: u64) -> (r: Result<
        RedisStore,
        DataStoreError,
    >)
        requires
            max_size > 0,
            min_idle <= max_size,
            timeout_ms > 0,
        ensures
            r is Ok <==> redis_url_accepted(url@),
            url@ == LOCAL_REDIS_URL@ ==> r is Ok,
            r matches Err(e) ==> e == DataStoreError::Backend,
            r matches Ok(st) ==> st.max_size() == max_size && st.min_idle() == Some(min_idle)
                && st.timeout_ms() == timeout_ms,
    {
        match open_client(url) {
            Ok(client) => Ok(RedisStore { pool: build_pool(client, max_size, min_idle, timeout_ms) }),
            Err(_) => Err(DataStoreError::Backend),
        }
    }

    /// Another handle to this store, sharing its pool: for a request that
    /// writes while others read.
    pub fn share(&self) -> (r: RedisStore)
        ensures
            r.max_size() == self.max_size(),
            r.min_idle() == self.min_idle(),
            r.timeout_ms() == self.timeout_ms(),
    {
        RedisStore { pool: share_pool(&self.pool) }
    }
}

/// What a read amounts to, from whether a connection could be had and what
/// the command answered: no connection is `Unavailable`, a nil reply
/// `NotFound`, a failed command `Backend`.
pub fn read_outcome(conn_ok: bool, got: Result<Option<String>, ()>) -> (r: Result<
    String,
    DataStoreError,
>)
    ensures
        r == (if !conn_ok {
            Err(DataStoreError::Unavailable)
        } else {
            match got {
                Ok(Some(v)) => Ok(v),
                Ok(None) => Err(DataStoreError::NotFound),
                Err(_) => Err(DataStoreError::Backend),
            }
        }),
{
    if !conn_ok {
        return Err(DataStoreError::Unavailable);
    }
    match got {
        Ok(Some(v)) => Ok(v),
        Ok(None) => Err(DataStoreError::NotFound),
        Err(_) => Err(DataStoreError::Backend),
    }
}

/// What a write or delete amounts to, from whether a connection could be
/// had and whether the command succeeded: no connection is `Unavailable`, a
/// failed command `Backend`.
pub fn write_outcome(conn_ok: bool, done: Result<(), ()>) -> (r: Result<(), DataStoreError>)
    ensures
        r == (if !conn_ok {
            Err(DataStoreError::Unavailable)
        } else if done is Ok {
            Ok(())
        } else {
            Err(DataStoreError::Backend)
        }),
{
    if !conn_ok {
        Err(DataStoreError::Unavailable)
    } else if done.is_ok() {
        Ok(())
    } else {
        Err(DataStoreError::Backend)
    }
}

fn command_done(r: Result<(), redis::RedisError>) -> (d: Result<(), ()>)
    ensures
        d is Ok <==> r is Ok,
{
    match r {
        Ok(()) => Ok(()),
        Err(_) => Err(()),
    }
}

impl DataStore for RedisStore {
    open spec fn obeys_model(&self) -> bool {
        false
    }

    open spec fn model(&self) -> Map<Seq<char>, Seq<char>> {
        Map::empty()
    }

    fn retrieve(&self, key: &str) -> (r: Result<String, DataStoreError>) {
        match pool_get(&self.pool) {
            Err(_) => read_outcome(false, Err(())),
            Ok(mut conn) => {
                let got = match redis_get(&mut conn, key) {
                    Ok(v) => Ok(v),
                    Err(_) => Err(()),
                };
                read_outcome(true, got)
            },
        }
    }

    fn store(&mut self, key: &str, value: &str) -> (r: Result<(), DataStoreError>) {
        match pool_get(&self.pool) {
            Err(_) => write_outcome(false, Err(())),
            Ok(mut conn) => write_outcome(true, command_done(redis_set(&mut conn, key, value))),
        }
    }

    fn store_expiring(&mut self, key: &str, value: &str, ttl_secs: u64) -> (r: Result<
        (),
        DataStoreError,
    >) {
        match pool_get(&self.pool) {
            Err(_) => write_outcome(false, Err(())),
            Ok(mut conn) => write_outcome(
                true,
                command_done(redis_set_ex(&mut conn, key, value, ttl_secs)),
            ),
        }
    }

    fn delete(&mut self, key: &str) -> (r: Result<(), DataStoreError>) {
        match pool_get(&self.pool) {
            Err(_) => write_outcome(false, Err(())),
            Ok(mut conn) => write_outcome(true, command_done(redis_del(&mut conn, key))),
        }
    }
}

} // verus!
