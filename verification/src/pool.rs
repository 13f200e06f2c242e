use vstd::prelude::*;

use crate::errors::TransferError;
use crate::text::lower_seq;

verus! {

/// A cached user preference is served for this long: 300 s.
pub const USER_CACHE_TTL_MS: u64 = 300000;

/// How long one call may wait for a free connection permit: 5 s.
pub const ACQUIRE_TIMEOUT_MS: u64 = 5000;

/// How long one guarded operation may run: 10 s.
pub const EXEC_TIMEOUT_MS: u64 = 10000;

/// The preference cache holds at most this many users.
pub const USER_CACHE_CAPACITY: usize = 1000;

/// A user's transcode preference, the relational store's
/// quality-preference column read as an enum.
#[derive(Clone, Copy, Debug, PartialEq, Eq, Structural)]
pub enum QualityPreference {
    HighEfficiency,
    Compatible,
    AudioOnly,
}

/// The integer code a preference is cached under.
pub open spec fn spec_quality_code(q: QualityPreference) -> u64 {
    match q {
        QualityPreference::HighEfficiency => 0,
        QualityPreference::Compatible => 1,
        QualityPreference::AudioOnly => 2,
    }
}

/// The integer code a preference is cached under.
pub fn quality_code(q: QualityPreference) -> (c: u64)
    ensures
        c == spec_quality_code(q),
{
    match q {
        QualityPreference::HighEfficiency => 0,
        QualityPreference::Compatible => 1,
        QualityPreference::AudioOnly => 2,
    }
}

/// The preference a cached code stands for; unknown codes read as the
/// compatible default.
pub open spec fn spec_quality_from_code(c: u64) -> QualityPreference {
    if c == 0 {
        QualityPreference::HighEfficiency
    } else if c == 2 {
        QualityPreference::AudioOnly
    } else {
        QualityPreference::Compatible
    }
}

/// The preference a cached code stands for.
pub fn quality_from_code(c: u64) -> (q: QualityPreference)
    ensures
        q == spec_quality_from_code(c),
{
    if c == 0 {
        QualityPreference::HighEfficiency
    } else if c == 2 {
        QualityPreference::AudioOnly
    } else {
        QualityPreference::Compatible
    }
}

/// Encoding then decoding a preference gives it back.
pub proof fn lemma_quality_code_roundtrip(q: QualityPreference)
    ensures
        spec_quality_from_code(spec_quality_code(q)) == q,
{
}

/// How a stored preference string reads as an enum: unknown strings
/// fall back to the compatible default.
pub open spec fn spec_parse_quality(s: Seq<char>) -> QualityPreference {
    if lower_seq(s) =~= "h265"@ {
        QualityPreference::HighEfficiency
    } else if lower_seq(s) =~= "audio"@ {
        QualityPreference::AudioOnly
    } else {
        QualityPreference::Compatible
    }
}

/// Read a stored preference string, case-insensitively.
pub fn parse_quality(s: &str) -> (q: QualityPreference)
    ensures
        q == spec_parse_quality(s@),
{
    if crate::text::lower_eq(s, "h265") {
        QualityPreference::HighEfficiency
    } else if crate::text::lower_eq(s, "audio") {
        QualityPreference::AudioOnly
    } else {
        QualityPreference::Compatible
    }
}

/// Read a set-quality request: the preference named after the marker,
/// if the request starts with it.
pub fn quality_callback(data: &str) -> (r: Option<QualityPreference>)
    ensures
        crate::text::occurs_at(data@, "set_quality_"@, 0) ==> r == Some(
            spec_parse_quality(data@.subrange(12, data@.len() as int)),
        ),
        !crate::text::occurs_at(data@, "set_quality_"@, 0) ==> r is None,
{
    proof {
        reveal_strlit("set_quality_");
    }
    let n = data.unicode_len();
    if n < 12 {
        return None;
    }
    let marker = "set_quality_";
    let mut k: usize = 0;
    while k < 12
        invariant
            marker@ =~= "set_quality_"@,
            marker@.len() == 12,
            12 <= n == data@.len(),
            k <= 12,
            forall|j: int| 0 <= j < k ==> data@[j] == marker@[j],
        decreases 12 - k,
    {
        if data.get_char(k) != marker.get_char(k) {
            assert(data@.subrange(0, 12)[k as int] != marker@[k as int]);
            return None;
        }
        k += 1;
    }
    assert(data@.subrange(0, 12) =~= "set_quality_"@);
    let rest = data.substring_char(12, n);
    Some(parse_quality(rest))
}

/// Whether a preference selects the audio-only pipeline.
pub fn is_audio_preference(q: QualityPreference) -> (b: bool)
    ensures
        b == (q is AudioOnly),
{
    match q {
        QualityPreference::AudioOnly => true,
        _ => false,
    }
}

/// An LRU cache from user id to (preference code, write time).
pub type UserCache = lru::LruCache<i64, (u64, u64)>;

/// The empty cache contents.
pub open spec fn spec_no_entries() -> Map<i64, (u64, u64)> {
    Map::empty()
}

/// The entries an LRU cache holds: key to (preference code, write time).
pub uninterp spec fn cache_entries(c: lru::LruCache<i64, (u64, u64)>) -> Map<i64, (u64, u64)>;

/// The capacity an LRU cache was created with.
pub uninterp spec fn cache_cap(c: lru::LruCache<i64, (u64, u64)>) -> nat;

#[verifier::external_type_specification]
#[verifier::external_body]
#[verifier::reject_recursive_types(K)]
#[verifier::reject_recursive_types(V)]
#[verifier::reject_recursive_types(S)]
pub struct ExLruCache<K, V, S>(lru::LruCache<K, V, S>);

/// Relies on lru::LruCache::new: an empty cache that holds at most
/// the fixed capacity, evicting the least recently used beyond that.
#[verifier::external_body]
fn lru_new() -> (c: UserCache)
    ensures
        cache_cap(c) == USER_CACHE_CAPACITY,
        cache_entries(c) == spec_no_entries(),
{
    lru::LruCache::new(std::num::NonZeroUsize::new(USER_CACHE_CAPACITY).unwrap())
}

/// Relies on lru::LruCache::get: the entry under `k`, if any; only the
/// recency order changes, never the contents.
#[verifier::external_body]
fn lru_get(c: &mut lru::LruCache<i64, (u64, u64)>, k: i64) -> (r: Option<(u64, u64)>)
    ensures
        cache_entries(*final (c)) == cache_entries(*old(c)),
        cache_cap(*final (c)) == cache_cap(*old(c)),
        r == if cache_entries(*old(c)).contains_key(k) {
            Some(cache_entries(*old(c))[k])
        } else {
            None::<(u64, u64)>
        },
{
    c.get(&k).copied()
}

/// Relies on lru::LruCache::put: stores `k`; when a new key arrives at
/// capacity, some other (the least recently used) entry leaves first.
#[verifier::external_body]
fn lru_put(c: &mut lru::LruCache<i64, (u64, u64)>, k: i64, v: (u64, u64))
    ensures
        cache_cap(*final (c)) == cache_cap(*old(c)),
        cache_entries(*old(c)).contains_key(k) || cache_entries(*old(c)).dom().len() < cache_cap(
            *old(c),
        ) ==> cache_entries(*final (c)) == cache_entries(*old(c)).insert(k, v),
        !cache_entries(*old(c)).contains_key(k) && cache_entries(*old(c)).dom().len() >= cache_cap(
            *old(c),
        ) ==> exists|e: i64|
            #![auto]
            cache_entries(*old(c)).contains_key(e) && e != k && cache_entries(*final (c))
                == cache_entries(*old(c)).remove(e).insert(k, v),
{
    c.put(k, v);
}

/// Relies on lru::LruCache::pop: removes the entry under `k`.
#[verifier::external_body]
fn lru_pop(c: &mut lru::LruCache<i64, (u64, u64)>, k: i64) -> (r: Option<(u64, u64)>)
    ensures
        cache_cap(*final (c)) == cache_cap(*old(c)),
        cache_entries(*final (c)) == cache_entries(*old(c)).remove(k),
        r == if cache_entries(*old(c)).contains_key(k) {
            Some(cache_entries(*old(c))[k])
        } else {
            None::<(u64, u64)>
        },
{
    c.pop(&k)
}

/// What a cache lookup at `now_ms` answers from `entries`: the stored
/// code, provided the entry was written within the TTL window.
pub open spec fn spec_cache_lookup(entries: Map<i64, (u64, u64)>, id: i64, now_ms: u64) -> Option<
    u64,
> {
    if entries.contains_key(id) && entries[id].1 <= now_ms && now_ms - entries[id].1
        < USER_CACHE_TTL_MS {
        Some(entries[id].0)
    } else {
        None
    }
}

/// A lookup answers only from an entry younger than the TTL; an entry
/// older than the TTL is never served.
pub proof fn lemma_lookup_only_fresh(entries: Map<i64, (u64, u64)>, id: i64, now_ms: u64)
    ensures
        match spec_cache_lookup(entries, id, now_ms) {
            Some(code) => entries.contains_key(id) && code == entries[id].0 && now_ms
                - entries[id].1 < USER_CACHE_TTL_MS,
            None => true,
        },
{
}

/// Right after `id` is invalidated no lookup of `id` answers from the
/// cache, whatever the clock says: the pre-invalidation value is gone.
pub proof fn lemma_invalidate_forces_fetch(entries: Map<i64, (u64, u64)>, id: i64, now_ms: u64)
    ensures
        spec_cache_lookup(entries.remove(id), id, now_ms) is None,
{
}

/// What the relational store answered when a preference was fetched.
#[derive(Debug, PartialEq, Eq)]
pub enum DbFetchResult {
    /// The row's quality-preference column.
    Row(String),
    /// No row for this user.
    NoRow,
    /// The query failed; store errors never block the user-facing flow.
    QueryError,
}

/// The preference a fetch result resolves to: the row's value, or the
/// compatible default on no row and on any query error.
pub open spec fn spec_resolve_quality(db: DbFetchResult) -> QualityPreference {
    match db {
        DbFetchResult::Row(s) => spec_parse_quality(s@),
        _ => QualityPreference::Compatible,
    }
}

/// Resolve a fetch result to a preference.
pub fn resolve_quality(db: &DbFetchResult) -> (q: QualityPreference)
    ensures
        q == spec_resolve_quality(*db),
{
    match db {
        DbFetchResult::Row(s) => parse_quality(s.as_str()),
        _ => QualityPreference::Compatible,
    }
}

/// What happened to the operation once a connection was acquired.
#[derive(Clone, Copy, Debug, PartialEq, Eq, Structural)]
pub enum ExecOutcome {
    /// The operation finished within its execution budget.
    Finished,
    /// The operation reported an error.
    OpFailed,
    /// The execution budget ran out; the operation is abandoned and its
    /// eventual result discarded.
    TimedOut,
}

/// Bounds and serializes access to the single-writer relational store,
/// with a TTL'd, LRU-bounded preference cache layered over reads.
pub struct DatabasePool {
    pub db_path: String,
    pub max_connections: usize,
    pub in_use: usize,
    pub user_cache: lru::LruCache<i64, (u64, u64)>,
}

impl DatabasePool {
    /// The pool's invariant: permits never exceed the bound, and the
    /// cache stays within its fixed capacity.
    pub open spec fn wf(self) -> bool {
        &&& self.in_use <= self.max_connections
        &&& cache_entries(self.user_cache).dom().finite()
        &&& cache_entries(self.user_cache).dom().len() <= USER_CACHE_CAPACITY
        &&& cache_cap(self.user_cache) == USER_CACHE_CAPACITY
    }

    /// A pool over the store at `db_path` with `max_connections`
    /// permits and an empty cache.
    pub fn new(db_path: String, max_connections: usize) -> (pool: Self)
        ensures
            pool.wf(),
            pool.db_path == db_path,
            pool.max_connections == max_connections,
            pool.in_use == 0,
            cache_entries(pool.user_cache) == spec_no_entries(),
    {
        let user_cache = lru_new();
        DatabasePool { db_path, max_connections, in_use: 0, user_cache }
    }

    /// Take a permit if one is free; a caller that gets `false` must
    /// wait (and times out into `AcquireTimeout`).
    pub fn try_acquire(&mut self) -> (granted: bool)
        requires
            old(self).wf(),
        ensures
            final (self).wf(),
            final (self).db_path == old(self).db_path,
            final (self).max_connections == old(self).max_connections,
            final (self).user_cache == old(self).user_cache,
            granted == (old(self).in_use < old(self).max_connections),
            granted ==> final (self).in_use == old(self).in_use + 1,
            !granted ==> final (self).in_use == old(self).in_use,
    {
        if self.in_use < self.max_connections {
            self.in_use = self.in_use + 1;
            true
        } else {
            false
        }
    }

    /// Return a permit.
    pub fn release(&mut self)
        requires
            old(self).wf(),
            old(self).in_use >= 1,
        ensures
            final (self).wf(),
            final (self).db_path == old(self).db_path,
            final (self).max_connections == old(self).max_connections,
            final (self).user_cache == old(self).user_cache,
            final (self).in_use == old(self).in_use - 1,
    {
        self.in_use = self.in_use - 1;
    }

    /// The permit accounting and outcome of one guarded operation:
    /// acquisition either times out (`AcquireTimeout`) or grants a
    /// permit that is returned on every path — also when the operation
    /// itself times out (`ExecutionTimeout`) or fails. The two timeout
    /// modes stay distinguished.
    pub fn with_connection_outcome(&mut self, acquired_in_time: bool, exec: ExecOutcome) -> (r:
        Result<(), TransferError>)
        requires
            old(self).wf(),
        ensures
            final (self).wf(),
            final (self).db_path == old(self).db_path,
            final (self).max_connections == old(self).max_connections,
            final (self).user_cache == old(self).user_cache,
            final (self).in_use == old(self).in_use,
            !(acquired_in_time && old(self).in_use < old(self).max_connections) ==> r == Err::<
                (),
                TransferError,
            >(TransferError::AcquireTimeout),
            acquired_in_time && old(self).in_use < old(self).max_connections ==> r == (match exec {
                ExecOutcome::Finished => Ok::<(), TransferError>(()),
                ExecOutcome::OpFailed => Err(TransferError::TransientIo),
                ExecOutcome::TimedOut => Err(TransferError::ExecutionTimeout),
            }),
    {
        if !acquired_in_time {
            return Err(TransferError::AcquireTimeout);
        }
        let granted = self.try_acquire();
        if !granted {
            return Err(TransferError::AcquireTimeout);
        }
        let r = match exec {
            ExecOutcome::Finished => Ok(()),
            ExecOutcome::OpFailed => Err(TransferError::TransientIo),
            ExecOutcome::TimedOut => Err(TransferError::ExecutionTimeout),
        };
        self.release();
        r
    }

    /// TTL lookup in the preference cache: a fresh entry answers, a
    /// stale one is dropped and reads as a miss.
    pub fn cache_lookup(&mut self, user_id: i64, now_ms: u64) -> (r: Option<u64>)
        requires
            old(self).wf(),
        ensures
            final (self).wf(),
            final (self).db_path == old(self).db_path,
            final (self).max_connections == old(self).max_connections,
            final (self).in_use == old(self).in_use,
            r == spec_cache_lookup(cache_entries(old(self).user_cache), user_id, now_ms),
            r is Some ==> cache_entries(final (self).user_cache) == cache_entries(
                old(self).user_cache,
            ),
            r is None ==> cache_entries(final (self).user_cache) == cache_entries(
                old(self).user_cache,
            ).remove(user_id),
    {
        let hit = lru_get(&mut self.user_cache, user_id);
        match hit {
            Some((code, written_ms)) => {
                if written_ms <= now_ms && now_ms - written_ms < USER_CACHE_TTL_MS {
                    Some(code)
                } else {
                    lru_pop(&mut self.user_cache, user_id);
                    proof {
                        cache_entries(
                            old(self).user_cache,
                        ).lemma_remove_key_len(user_id);
                    }
                    None
                }
            },
            None => {
                proof {
                    assert(cache_entries(self.user_cache) =~= cache_entries(
                        self.user_cache,
                    ).remove(user_id));
                }
                None
            },
        }
    }

    /// Record a freshly resolved preference under `user_id` at `now_ms`.
    pub fn cache_store(&mut self, user_id: i64, code: u64, now_ms: u64)
        requires
            old(self).wf(),
        ensures
            final (self).wf(),
            final (self).db_path == old(self).db_path,
            final (self).max_connections == old(self).max_connections,
            final (self).in_use == old(self).in_use,
            cache_entries(final (self).user_cache).contains_key(user_id),
            cache_entries(final (self).user_cache)[user_id] == (code, now_ms),
            forall|k: i64|
                k != user_id && #[trigger] cache_entries(final (self).user_cache).contains_key(k)
                    ==> cache_entries(old(self).user_cache).contains_key(k) && cache_entries(
                    final (self).user_cache,
                )[k] == cache_entries(old(self).user_cache)[k],
    {
        lru_put(&mut self.user_cache, user_id, (code, now_ms));
        proof {
            let pre = cache_entries(old(self).user_cache);
            let post = cache_entries(self.user_cache);
            if pre.contains_key(user_id) || pre.dom().len() < USER_CACHE_CAPACITY {
                assert(post.dom() =~= pre.dom().insert(user_id));
            } else {
                let e = choose|e: i64|
                    #![auto]
                    pre.contains_key(e) && e != user_id && post == pre.remove(e).insert(
                        user_id,
                        (code, now_ms),
                    );
                pre.lemma_remove_key_len(e);
                assert(post.dom() =~= pre.remove(e).dom().insert(user_id));
            }
        }
    }

    /// Drop `user_id` from the cache at once, so the next lookup goes
    /// back to the store: read-your-write after an update.
    pub fn invalidate_user_quality_cache(&mut self, user_id: i64)
        requires
            old(self).wf(),
        ensures
            final (self).wf(),
            final (self).db_path == old(self).db_path,
            final (self).max_connections == old(self).max_connections,
            final (self).in_use == old(self).in_use,
            cache_entries(final (self).user_cache) == cache_entries(old(self).user_cache).remove(
                user_id,
            ),
            !cache_entries(final (self).user_cache).contains_key(user_id),
    {
        lru_pop(&mut self.user_cache, user_id);
        proof {
            if cache_entries(old(self).user_cache).contains_key(user_id) {
                cache_entries(old(self).user_cache).lemma_remove_key_len(user_id);
            } else {
                assert(cache_entries(self.user_cache).dom() =~= cache_entries(
                    old(self).user_cache,
                ).dom());
            }
        }
    }

    /// A user's preference: the cache answers when fresh; otherwise the
    /// supplied store answer (fetched by the caller on a miss) resolves
    /// it — defaulting on no row or error — and is cached under `now_ms`.
    pub fn get_user_quality(&mut self, user_id: i64, now_ms: u64, db: &DbFetchResult) -> (q:
        QualityPreference)
        requires
            old(self).wf(),
        ensures
            final (self).wf(),
            final (self).in_use == old(self).in_use,
            match spec_cache_lookup(cache_entries(old(self).user_cache), user_id, now_ms) {
                Some(code) => {
                    &&& q == spec_quality_from_code(code)
                    &&& cache_entries(final (self).user_cache) == cache_entries(
                        old(self).user_cache,
                    )
                },
                None => {
                    &&& q == spec_resolve_quality(*db)
                    &&& cache_entries(final (self).user_cache).contains_key(user_id)
                    &&& cache_entries(final (self).user_cache)[user_id] == (
                        spec_quality_code(q),
                        now_ms,
                    )
                    &&& forall|k: i64|
                        k != user_id && #[trigger] cache_entries(
                            final (self).user_cache,
                        ).contains_key(k) ==> cache_entries(old(self).user_cache).contains_key(k)
                            && cache_entries(final (self).user_cache)[k] == cache_entries(
                            old(self).user_cache,
                        )[k]
                },
            },
    {
        match self.cache_lookup(user_id, now_ms) {
            Some(code) => quality_from_code(code),
            None => {
                let q = resolve_quality(db);
                let code = quality_code(q);
                self.cache_store(user_id, code, now_ms);
                q
            },
        }
    }
}

} // verus!
