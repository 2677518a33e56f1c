use vstd::prelude::*;

verus! {

/// The identity of a cacheable request: two requests with equal keys are
/// interchangeable for caching purposes.
#[derive(Debug)]
pub struct CacheKey {
    pub method: String,
    pub path: String,
    pub user_id: Option<u64>,
    pub user_role: Option<String>,
}

/// The mathematical value of a [`CacheKey`].
pub struct CacheKeyV {
    pub method: Seq<char>,
    pub path: Seq<char>,
    pub user_id: Option<u64>,
    pub user_role: Option<Seq<char>>,
}

impl View for CacheKey {
    type V = CacheKeyV;

    open spec fn view(&self) -> CacheKeyV {
        CacheKeyV {
            method: self.method@,
            path: self.path@,
            user_id: self.user_id,
            user_role: match self.user_role {
                Some(r) => Some(r@),
                None => None,
            },
        }
    }
}

impl Clone for CacheKey {
    fn clone(&self) -> (r: Self)
        ensures
            r@ == self@,
    {
        CacheKey {
            method: self.method.clone(),
            path: self.path.clone(),
            user_id: self.user_id,
            user_role: match &self.user_role {
                Some(r) => Some(r.clone()),
                None => None,
            },
        }
    }
}

impl CacheKey {
    /// Key equality, decided field by field.
    pub fn key_eq(&self, other: &CacheKey) -> (r: bool)
        ensures
            r == (self@ == other@),
    {
        let methods = self.method == other.method;
        let paths = self.path == other.path;
        let ids = match (&self.user_id, &other.user_id) {
            (Some(a), Some(b)) => *a == *b,
            (None, None) => true,
            _ => false,
        };
        let roles = match (&self.user_role, &other.user_role) {
            (Some(a), Some(b)) => *a == *b,
            (None, None) => true,
            _ => false,
        };
        methods && paths && ids && roles
    }
}

/// A memoized response: immutable once stored, cloned on each read.
#[derive(Debug)]
pub struct CachedResponse {
    pub status: u16,
    pub headers: Vec<(String, String)>,
    pub body: Vec<u8>,
}

/// The mathematical value of a [`CachedResponse`].
pub struct CachedResponseV {
    pub status: u16,
    pub headers: Seq<(Seq<char>, Seq<char>)>,
    pub body: Seq<u8>,
}

impl View for CachedResponse {
    type V = CachedResponseV;

    open spec fn view(&self) -> CachedResponseV {
        CachedResponseV {
            status: self.status,
            headers: self.headers@.map(|i: int, p: (String, String)| (p.0@, p.1@)),
            body: self.body@,
        }
    }
}

impl Clone for CachedResponse {
    fn clone(&self) -> (r: Self)
        ensures
            r@ == self@,
    {
        let n = self.headers.len();
        let mut headers: Vec<(String, String)> = Vec::new();
        let mut i: usize = 0;
        while i < n
            invariant
                i <= n,
                n == self.headers@.len(),
                headers@.len() == i,
                forall|j: int|
                    0 <= j < i ==> headers@[j].0@ == self.headers@[j].0@ && headers@[j].1@
                        == self.headers@[j].1@,
            decreases n - i,
        {
            let p: &(String, String) = &self.headers[i];
            headers.push((p.0.clone(), p.1.clone()));
            i = i + 1;
        }
        let mut body: Vec<u8> = Vec::new();
        let mut k: usize = 0;
        let bn = self.body.len();
        while k < bn
            invariant
                k <= bn,
                bn == self.body@.len(),
                body@.len() == k,
                forall|j: int| 0 <= j < k ==> body@[j] == self.body@[j],
            decreases bn - k,
        {
            body.push(self.body[k]);
            k = k + 1;
        }
        let r = CachedResponse { status: self.status, headers, body };
        proof {
            assert(r@.headers =~= self@.headers);
            assert(r@.body =~= self@.body);
        }
        r
    }
}

impl CachedResponse {
    /// A 2xx status marks a successful response.
    pub open spec fn spec_is_success(&self) -> bool {
        200 <= self.status < 300
    }

    pub fn is_success(&self) -> (r: bool)
        ensures
            r == self.spec_is_success(),
    {
        200 <= self.status && self.status < 300
    }
}

/// Some entry of the dynamic cache has key (view) `k`.
pub open spec fn cache_has_key(s: Seq<(CacheKey, CachedResponse)>, k: CacheKeyV) -> bool {
    exists|i: int| 0 <= i < s.len() && s[i].0@ == k
}

/// The index of the entry with key `k`; meaningful only when `cache_has_key`
/// holds, and unique under `unique_cache_keys`.
pub open spec fn cache_index_of(s: Seq<(CacheKey, CachedResponse)>, k: CacheKeyV) -> int {
    choose|i: int| 0 <= i < s.len() && s[i].0@ == k
}

/// No two entries of the dynamic cache share a key.
pub open spec fn unique_cache_keys(s: Seq<(CacheKey, CachedResponse)>) -> bool {
    forall|i: int, j: int| 0 <= i < j < s.len() ==> s[i].0@ != s[j].0@
}

/// The dynamic cache after storing `value` under `key`: an existing entry is
/// replaced in place, a new one is appended when there is room, and
/// otherwise the oldest entry is evicted first.
pub open spec fn spec_cache_insert(
    s: Seq<(CacheKey, CachedResponse)>,
    capacity: nat,
    key: CacheKey,
    value: CachedResponse,
) -> Seq<(CacheKey, CachedResponse)> {
    if cache_has_key(s, key@) {
        s.update(cache_index_of(s, key@), (key, value))
    } else if s.len() < capacity {
        s.push((key, value))
    } else {
        s.subrange(1, s.len() as int).push((key, value))
    }
}

/// The dynamic response cache: keyed by full request identity,
/// capacity-bounded, evicting its oldest entry when full.
#[derive(Debug)]
pub struct ResponseCache {
    pub entries: Vec<(CacheKey, CachedResponse)>,
    pub capacity: usize,
}

impl ResponseCache {
    pub open spec fn wf(&self) -> bool {
        &&& unique_cache_keys(self.entries@)
        &&& self.entries@.len() <= self.capacity
        &&& self.capacity >= 1
    }

    pub fn new(capacity: usize) -> (c: Self)
        requires
            capacity >= 1,
        ensures
            c.wf(),
            c.entries@.len() == 0,
            c.capacity == capacity,
    {
        ResponseCache { entries: Vec::new(), capacity }
    }

    /// The index of the entry with key `key`, scanning from the front.
    fn find_key(&self, key: &CacheKey) -> (r: Option<usize>)
        ensures
            match r {
                Some(i) => i < self.entries@.len() && self.entries@[i as int].0@ == key@
                    && (forall|j: int| 0 <= j < i ==> self.entries@[j].0@ != key@),
                None => !cache_has_key(self.entries@, key@),
            },
    {
        let n = self.entries.len();
        let mut i: usize = 0;
        while i < n
            invariant
                i <= n,
                n == self.entries@.len(),
                forall|j: int| 0 <= j < i ==> self.entries@[j].0@ != key@,
            decreases n - i,
        {
            let e: &(CacheKey, CachedResponse) = &self.entries[i];
            if e.0.key_eq(key) {
                return Some(i);
            }
            i = i + 1;
        }
        None
    }

    /// Look the key up; a hit returns the stored response verbatim (cloned).
    pub fn get(&self, key: &CacheKey) -> (r: Option<CachedResponse>)
        requires
            self.wf(),
        ensures
            match r {
                Some(v) => cache_has_key(self.entries@, key@) && v@ == self.entries@[
                    cache_index_of(self.entries@, key@)
                ].1@,
                None => !cache_has_key(self.entries@, key@),
            },
    {
        match self.find_key(key) {
            Some(i) => {
                proof {
                    cache_key_at_index(self.entries@, i as int);
                }
                Some(self.entries[i].1.clone())
            },
            None => None,
        }
    }

    /// Store `value` under `key`: replace an existing entry in place, append
    /// when there is room, and otherwise evict the oldest entry first.
    pub fn insert(&mut self, key: CacheKey, value: CachedResponse)
        requires
            old(self).wf(),
        ensures
            final(self).wf(),
            final(self).capacity == old(self).capacity,
            final(self).entries@ == spec_cache_insert(
                old(self).entries@,
                old(self).capacity as nat,
                key,
                value,
            ),
            cache_has_key(final(self).entries@, key@),
            final(self).entries@[cache_index_of(final(self).entries@, key@)].1@ == value@,
    {
        match self.find_key(&key) {
            Some(i) => {
                proof {
                    cache_key_at_index(self.entries@, i as int);
                }
                let e: &mut (CacheKey, CachedResponse) = &mut self.entries[i];
                *e = (key, value);
                proof {
                    lemma_update_preserves_unique(old(self).entries@, i as int, self.entries@);
                    cache_key_at_index(self.entries@, i as int);
                }
            },
            None => {
                if self.entries.len() >= self.capacity {
                    let _evicted = self.entries.remove(0);
                    proof {
                        assert(self.entries@ =~= old(self).entries@.subrange(
                            1,
                            old(self).entries@.len() as int,
                        ));
                    }
                }
                self.entries.push((key, value));
                proof {
                    let s = self.entries@;
                    assert(s[s.len() - 1].0@ == key@);
                    cache_key_at_index(s, s.len() - 1);
                }
            },
        }
    }
}

/// Law (cache idempotence): once a response is memoized under a key, a
/// lookup of that key finds exactly that response, with no further upstream
/// contact needed. Together with the request gate's contract -- which serves
/// any GET whose key the cache holds straight from it and never consults the
/// dynamic cache for another method -- this pins the cached round trip down.
pub proof fn lemma_cache_insert_then_get(
    s: Seq<(CacheKey, CachedResponse)>,
    capacity: nat,
    key: CacheKey,
    value: CachedResponse,
)
    requires
        unique_cache_keys(s),
        s.len() <= capacity,
        capacity >= 1,
    ensures
        ({
            let t = spec_cache_insert(s, capacity, key, value);
            &&& cache_has_key(t, key@)
            &&& t[cache_index_of(t, key@)].1 == value
        }),
{
    let t = spec_cache_insert(s, capacity, key, value);
    if cache_has_key(s, key@) {
        let i = cache_index_of(s, key@);
        assert(0 <= i < s.len() && s[i].0@ == key@);
        assert(t[i].0@ == key@);
        assert(unique_cache_keys(t)) by {
            assert forall|a: int, b: int| 0 <= a < b < t.len() implies t[a].0@ != t[b].0@ by {
                if a != i && b != i {
                    assert(s[a].0@ != s[b].0@);
                } else if a == i {
                    assert(s[a].0@ == key@ && s[b].0@ != s[a].0@);
                } else {
                    assert(s[b].0@ == key@ && s[a].0@ != s[b].0@);
                }
            }
        }
        cache_key_at_index(t, i);
    } else if s.len() < capacity {
        assert(t[t.len() - 1].0@ == key@);
        assert(unique_cache_keys(t));
        cache_key_at_index(t, t.len() - 1);
    } else {
        let dropped = s.subrange(1, s.len() as int);
        assert(forall|j: int| 0 <= j < dropped.len() ==> dropped[j] == s[j + 1]);
        assert(unique_cache_keys(t)) by {
            assert forall|a: int, b: int| 0 <= a < b < t.len() implies t[a].0@ != t[b].0@ by {
                if b < t.len() - 1 {
                    assert(s[a + 1].0@ != s[b + 1].0@);
                } else {
                    assert(t[b].0@ == key@);
                    assert(t[a].0@ == s[a + 1].0@);
                }
            }
        }
        assert(t[t.len() - 1].0@ == key@);
        cache_key_at_index(t, t.len() - 1);
    }
}

/// Updating an entry to a key that occurs nowhere else keeps keys unique.
proof fn lemma_update_preserves_unique(
    s: Seq<(CacheKey, CachedResponse)>,
    i: int,
    t: Seq<(CacheKey, CachedResponse)>,
)
    requires
        unique_cache_keys(s),
        0 <= i < s.len(),
        t.len() == s.len(),
        forall|j: int| 0 <= j < s.len() && j != i ==> t[j] == s[j],
        forall|j: int| 0 <= j < s.len() && j != i ==> s[j].0@ != t[i].0@,
    ensures
        unique_cache_keys(t),
{
}

/// When the entry at `i` has key `k` and keys are unique, `cache_index_of`
/// picks `i`.
proof fn cache_key_at_index(s: Seq<(CacheKey, CachedResponse)>, i: int)
    requires
        unique_cache_keys(s),
        0 <= i < s.len(),
    ensures
        cache_has_key(s, s[i].0@),
        cache_index_of(s, s[i].0@) == i,
{
    assert(cache_has_key(s, s[i].0@));
    let w = cache_index_of(s, s[i].0@);
    if w < i {
        assert(s[w].0@ != s[i].0@);
    } else if i < w {
        assert(s[i].0@ != s[w].0@);
    }
}

/// The static cache: keyed by path alone, populated once per reload from
/// routes flagged static, storing only successful responses, never evicted.
#[derive(Debug)]
pub struct StaticCache {
    pub entries: Vec<(String, CachedResponse)>,
}

impl StaticCache {
    pub open spec fn wf(&self) -> bool {
        crate::assoc::unique_keys(self.entries@)
    }

    pub fn new() -> (c: Self)
        ensures
            c.wf(),
            c.entries@.len() == 0,
    {
        StaticCache { entries: Vec::new() }
    }

    /// Look a path up; a hit returns the stored response verbatim (cloned).
    pub fn get(&self, path: &String) -> (r: Option<CachedResponse>)
        requires
            self.wf(),
        ensures
            match r {
                Some(v) => crate::assoc::has_key(self.entries@, path@) && v@ == self.entries@[
                    crate::assoc::index_of_key(self.entries@, path@)
                ].1@,
                None => !crate::assoc::has_key(self.entries@, path@),
            },
    {
        match crate::assoc::find_index(&self.entries, path) {
            Some(i) => {
                proof {
                    crate::assoc::lemma_index_of_key_unique(self.entries@, path@, i as int);
                }
                Some(self.entries[i].1.clone())
            },
            None => None,
        }
    }

    /// Store the probe response for a static path, but only when it is
    /// successful (2xx); anything else leaves the cache unchanged.
    pub fn store_success(&mut self, path: &String, value: CachedResponse)
        requires
            old(self).wf(),
        ensures
            final(self).wf(),
            ({
                let s = old(self).entries@;
                if !value.spec_is_success() {
                    final(self).entries@ == s
                } else if crate::assoc::has_key(s, path@) {
                    final(self).entries@ == s.update(
                        crate::assoc::index_of_key(s, path@),
                        (s[crate::assoc::index_of_key(s, path@)].0, value),
                    )
                } else {
                    final(self).entries@ == s.push((*path, value))
                }
            }),
    {
        if !value.is_success() {
            return ;
        }
        match crate::assoc::find_index(&self.entries, path) {
            Some(i) => {
                proof {
                    crate::assoc::lemma_index_of_key_unique(self.entries@, path@, i as int);
                }
                let e: &mut (String, CachedResponse) = &mut self.entries[i];
                e.1 = value;
                proof {
                    assert(self.entries@ =~= old(self).entries@.update(
                        i as int,
                        (old(self).entries@[i as int].0, self.entries@[i as int].1),
                    ));
                }
            },
            None => {
                self.entries.push((path.clone(), value));
            },
        }
    }
}

} // verus!
