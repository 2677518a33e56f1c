use vstd::prelude::*;

verus! {

use crate::assoc::{unique_keys, has_key, index_of_key, find_index, lemma_index_of_key_unique};

/// Per-client rate state. Token quantities are in milli-tokens and the
/// refill rate in milli-tokens per second; timestamps are in milliseconds.
/// Tokens stay in `[0, max_tokens]` and refill monotonically with elapsed
/// wall time.
#[derive(Debug, Clone, Copy, PartialEq, Eq, Structural)]
pub struct TokenBucket {
    pub tokens: u64,
    pub last_refill: u64,
}

impl TokenBucket {
    /// A bucket starts full.
    pub fn new(max_tokens: u64, now_ms: u64) -> (b: Self)
        ensures
            b.tokens == max_tokens,
            b.last_refill == now_ms,
    {
        TokenBucket { tokens: max_tokens, last_refill: now_ms }
    }

    /// The bucket after a refill at `now_ms`: elapsed milliseconds times the
    /// rate (per second), capped at `max_tokens`. A clock that moved
    /// backwards adds nothing.
    pub open spec fn spec_refilled(self, now_ms: u64, max_tokens: u64, refill_rate: u64) -> TokenBucket {
        let elapsed: int = if now_ms >= self.last_refill {
            now_ms - self.last_refill
        } else {
            0
        };
        let added: int = elapsed * refill_rate / 1000;
        let t: u64 = if self.tokens + added >= max_tokens {
            max_tokens
        } else {
            (self.tokens + added) as u64
        };
        TokenBucket { tokens: t, last_refill: now_ms }
    }

    /// Refill the bucket for the elapsed time and stamp it with `now_ms`.
    pub fn refill(&mut self, now_ms: u64, max_tokens: u64, refill_rate: u64)
        ensures
            *final(self) == old(self).spec_refilled(now_ms, max_tokens, refill_rate),
    {
        let elapsed: u64 = if now_ms >= self.last_refill {
            now_ms - self.last_refill
        } else {
            0
        };
        proof {
            assert((elapsed as int) * (refill_rate as int) <= (u64::MAX as int) * (
            u64::MAX as int)) by (nonlinear_arith)
                requires
                    elapsed <= u64::MAX,
                    refill_rate <= u64::MAX,
            ;
            assert((u64::MAX as int) * (u64::MAX as int) + (u64::MAX as int) < (u128::MAX as int))
                by (nonlinear_arith);
        }
        let prod: u128 = (elapsed as u128) * (refill_rate as u128);
        let added: u128 = prod / 1000;
        proof {
            assert(added <= prod) by (nonlinear_arith)
                requires
                    added == prod / 1000,
                    prod >= 0,
            ;
        }
        let sum: u128 = (self.tokens as u128) + added;
        if sum >= max_tokens as u128 {
            self.tokens = max_tokens;
        } else {
            self.tokens = sum as u64;
        }
        self.last_refill = now_ms;
    }

    /// Whether any budget remains; a bucket at zero rejects the request.
    pub fn has_tokens(&self) -> (r: bool)
        ensures
            r == (self.tokens > 0),
    {
        self.tokens > 0
    }

    /// The bucket after debiting `weight`, clamped at zero.
    pub open spec fn spec_debited(self, weight: u64) -> TokenBucket {
        let t: u64 = if self.tokens >= weight {
            (self.tokens - weight) as u64
        } else {
            0
        };
        TokenBucket { tokens: t, last_refill: self.last_refill }
    }

    /// Debit `weight` milli-tokens, clamping at zero rather than going
    /// negative.
    pub fn debit(&mut self, weight: u64)
        ensures
            *final(self) == old(self).spec_debited(weight),
    {
        if self.tokens >= weight {
            self.tokens = self.tokens - weight;
        } else {
            self.tokens = 0;
        }
    }
}

/// The bucket table after refilling `client`'s bucket at `now_ms`, creating
/// it full when absent.
pub open spec fn spec_refill_table(
    s: Seq<(String, TokenBucket)>,
    client: String,
    now_ms: u64,
    max_tokens: u64,
    refill_rate: u64,
) -> Seq<(String, TokenBucket)> {
    if has_key(s, client@) {
        let i = index_of_key(s, client@);
        s.update(i, (s[i].0, s[i].1.spec_refilled(now_ms, max_tokens, refill_rate)))
    } else {
        s.push((client, TokenBucket { tokens: max_tokens, last_refill: now_ms }))
    }
}

/// Whether `client` has budget left right after the refill at `now_ms`.
pub open spec fn spec_refill_allows(
    s: Seq<(String, TokenBucket)>,
    client: Seq<char>,
    now_ms: u64,
    max_tokens: u64,
    refill_rate: u64,
) -> bool {
    if has_key(s, client) {
        s[index_of_key(s, client)].1.spec_refilled(now_ms, max_tokens, refill_rate).tokens > 0
    } else {
        max_tokens > 0
    }
}

/// The bucket table after debiting `weight` from `client`'s bucket.
pub open spec fn spec_debit_table(
    s: Seq<(String, TokenBucket)>,
    client: Seq<char>,
    weight: u64,
) -> Seq<(String, TokenBucket)> {
    let i = index_of_key(s, client);
    s.update(i, (s[i].0, s[i].1.spec_debited(weight)))
}

/// The per-client token-bucket table. Entries are created lazily (full) on
/// first contact and persist for the process lifetime.
#[derive(Debug, Clone)]
pub struct BucketTable {
    pub entries: Vec<(String, TokenBucket)>,
}

impl BucketTable {
    pub open spec fn wf(&self) -> bool {
        unique_keys(self.entries@)
    }

    pub fn new() -> (t: Self)
        ensures
            t.entries@.len() == 0,
            t.wf(),
    {
        BucketTable { entries: Vec::new() }
    }

    /// Refill the client's bucket -- creating it full when absent -- and
    /// report whether any budget remains.
    pub fn refill_and_check(
        &mut self,
        client: &String,
        now_ms: u64,
        max_tokens: u64,
        refill_rate: u64,
    ) -> (r: bool)
        requires
            old(self).wf(),
        ensures
            final(self).wf(),
            final(self).entries@ == spec_refill_table(
                old(self).entries@,
                *client,
                now_ms,
                max_tokens,
                refill_rate,
            ),
            r == spec_refill_allows(
                old(self).entries@,
                client@,
                now_ms,
                max_tokens,
                refill_rate,
            ),
            has_key(final(self).entries@, client@),
    {
        match find_index(&self.entries, client) {
            Some(i) => {
                proof {
                    lemma_index_of_key_unique(self.entries@, client@, i as int);
                }
                let e: &mut (String, TokenBucket) = &mut self.entries[i];
                e.1.refill(now_ms, max_tokens, refill_rate);
                let r = e.1.has_tokens();
                proof {
                    assert(self.entries@ =~= old(self).entries@.update(
                        i as int,
                        (old(self).entries@[i as int].0, self.entries@[i as int].1),
                    ));
                    assert(self.entries@[i as int].0@ == client@);
                }
                r
            },
            None => {
                let b = TokenBucket::new(max_tokens, now_ms);
                self.entries.push((client.clone(), b));
                proof {
                    assert(self.entries@[self.entries@.len() - 1].0@ == client@);
                }
                max_tokens > 0
            },
        }
    }

    /// Debit the client's bucket; the bucket must already exist (it was
    /// refilled earlier in the same request).
    pub fn debit_client(&mut self, client: &String, weight: u64)
        requires
            old(self).wf(),
            has_key(old(self).entries@, client@),
        ensures
            final(self).wf(),
            final(self).entries@ == spec_debit_table(old(self).entries@, client@, weight),
    {
        match find_index(&self.entries, client) {
            Some(i) => {
                proof {
                    lemma_index_of_key_unique(self.entries@, client@, i as int);
                }
                let e: &mut (String, TokenBucket) = &mut self.entries[i];
                e.1.debit(weight);
                proof {
                    assert(self.entries@ =~= old(self).entries@.update(
                        i as int,
                        (old(self).entries@[i as int].0, self.entries@[i as int].1),
                    ));
                }
            },
            None => {
                proof {
                    assert(false);
                }
            },
        }
    }

    /// The bucket currently stored for `client`, if any.
    pub fn lookup(&self, client: &String) -> (r: Option<TokenBucket>)
        requires
            self.wf(),
        ensures
            match r {
                Some(b) => has_key(self.entries@, client@) && b == crate::assoc::value_of_key(
                    self.entries@,
                    client@,
                ),
                None => !has_key(self.entries@, client@),
            },
    {
        match find_index(&self.entries, client) {
            Some(i) => {
                proof {
                    lemma_index_of_key_unique(self.entries@, client@, i as int);
                }
                Some(self.entries[i].1)
            },
            None => None,
        }
    }
}

} // verus!
