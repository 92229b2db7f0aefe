//! Request counters of one proxy instance.

use vstd::prelude::*;
use crate::strmap::StringMap;

verus! {

/// Request counters: the total, one per endpoint, one per user, and one per
/// user and endpoint.
pub struct ProxyStats {
    total: usize,
    endpoint: StringMap<usize>,
    user: StringMap<usize>,
    user_endpoint: StringMap<StringMap<usize>>,
}

/// The counter of `key` after one more request: one more than it was, one
/// when there was none.
pub open spec fn bumped(counters: Map<Seq<char>, usize>, key: Seq<char>) -> usize {
    if counters.contains_key(key) {
        (counters[key] + 1) as usize
    } else {
        1
    }
}

/// The counters of `key`, none when there were none.
pub open spec fn counters_of(
    nested: Map<Seq<char>, Map<Seq<char>, usize>>,
    key: Seq<char>,
) -> Map<Seq<char>, usize> {
    if nested.contains_key(key) {
        nested[key]
    } else {
        Map::empty()
    }
}

/// Whether each counter of `before` is still there in `after` and is no smaller.
pub open spec fn counters_le(before: Map<Seq<char>, usize>, after: Map<Seq<char>, usize>) -> bool {
    forall|k: Seq<char>| #[trigger]
        before.contains_key(k) ==> after.contains_key(k) && before[k] <= after[k]
}

/// Whether no counter of `counters` exceeds `bound`.
pub open spec fn counters_within(counters: Map<Seq<char>, usize>, bound: int) -> bool {
    forall|k: Seq<char>| #[trigger] counters.contains_key(k) ==> counters[k] <= bound
}

impl ProxyStats {
    /// The number of requests counted since the instance was made.
    pub closed spec fn total_requests(self) -> nat {
        self.total as nat
    }

    /// The requests counted for each endpoint.
    pub closed spec fn endpoint_requests(self) -> Map<Seq<char>, usize> {
        self.endpoint@
    }

    /// The requests counted for each user.
    pub closed spec fn user_requests(self) -> Map<Seq<char>, usize> {
        self.user@
    }

    /// The requests counted for each user, by endpoint.
    pub closed spec fn user_endpoint_requests(self) -> Map<Seq<char>, Map<Seq<char>, usize>> {
        Map::new(
            |u: Seq<char>| self.user_endpoint@.contains_key(u),
            |u: Seq<char>| self.user_endpoint@[u]@,
        )
    }

    /// Well-formedness: the maps are well formed and no counter exceeds the
    /// total.
    pub closed spec fn wf(self) -> bool {
        &&& self.endpoint.wf()
        &&& self.user.wf()
        &&& self.user_endpoint.wf()
        &&& forall|i: int|
            0 <= i < self.user_endpoint.values().len()
                ==> (#[trigger] self.user_endpoint.values()[i]).wf()
        &&& counters_within(self.endpoint@, self.total as int)
        &&& counters_within(self.user@, self.total as int)
        &&& forall|u: Seq<char>| #[trigger]
            self.user_endpoint@.contains_key(u) ==> counters_within(
                self.user_endpoint@[u]@,
                self.total as int,
            )
    }

    /// Lemma: in a well-formed value no counter exceeds the total.
    pub proof fn lemma_bounded(self)
        requires
            self.wf(),
        ensures
            counters_within(self.endpoint_requests(), self.total_requests() as int),
            counters_within(self.user_requests(), self.total_requests() as int),
            forall|u: Seq<char>| #[trigger]
                self.user_endpoint_requests().contains_key(u) ==> counters_within(
                    self.user_endpoint_requests()[u],
                    self.total_requests() as int,
                ),
    {
    }

    /// Counters with nothing counted.
    pub fn new() -> (s: Self)
        ensures
            s.wf(),
            s.total_requests() == 0,
            s.endpoint_requests() == Map::<Seq<char>, usize>::empty(),
            s.user_requests() == Map::<Seq<char>, usize>::empty(),
            s.user_endpoint_requests() == Map::<Seq<char>, Map<Seq<char>, usize>>::empty(),
    {
        let s = ProxyStats {
            total: 0,
            endpoint: StringMap::new(),
            user: StringMap::new(),
            user_endpoint: StringMap::new(),
        };
        proof {
            s.user_endpoint.lemma_shape();
            assert(s.user_endpoint_requests() =~= Map::<Seq<char>, Map<Seq<char>, usize>>::empty());
        }
        s
    }

    /// The number of requests counted.
    pub fn total(&self) -> (n: usize)
        ensures
            n == self.total_requests(),
    {
        self.total
    }

    /// The number of requests counted for `endpoint`.
    pub fn endpoint(&self, endpoint: &str) -> (r: Option<usize>)
        requires
            self.wf(),
        ensures
            r == if self.endpoint_requests().contains_key(endpoint@) {
                Some(self.endpoint_requests()[endpoint@])
            } else {
                None
            },
    {
        match self.endpoint.get(endpoint) {
            Some(n) => Some(*n),
            None => None,
        }
    }

    /// The number of requests counted for `username`.
    pub fn user(&self, username: &str) -> (r: Option<usize>)
        requires
            self.wf(),
        ensures
            r == if self.user_requests().contains_key(username@) {
                Some(self.user_requests()[username@])
            } else {
                None
            },
    {
        match self.user.get(username) {
            Some(n) => Some(*n),
            None => None,
        }
    }

    /// The per-endpoint counters of `username`.
    pub fn user_endpoint(&self, username: &str) -> (r: Option<&StringMap<usize>>)
        requires
            self.wf(),
        ensures
            match r {
                Some(m) => m.wf() && self.user_endpoint_requests().contains_key(username@) && m@
                    == self.user_endpoint_requests()[username@],
                None => !self.user_endpoint_requests().contains_key(username@),
            },
    {
        proof {
            self.user_endpoint.lemma_shape();
        }
        match self.user_endpoint.find(username) {
            Some(i) => {
                proof {
                    self.user_endpoint.lemma_index(i as int);
                }
                Some(self.user_endpoint.value_at(i))
            },
            None => None,
        }
    }

    /// Starts the counter of `endpoint` at zero.
    pub fn reset_endpoint(&mut self, endpoint: &str)
        requires
            old(self).wf(),
        ensures
            final(self).wf(),
            final(self).total_requests() == old(self).total_requests(),
            final(self).endpoint_requests() == old(self).endpoint_requests().insert(endpoint@, 0),
            final(self).user_requests() == old(self).user_requests(),
            final(self).user_endpoint_requests() == old(self).user_endpoint_requests(),
    {
        self.endpoint.insert(endpoint.to_owned(), 0);
    }

    /// Starts the counters of `username` at zero.
    pub fn reset_user(&mut self, username: &str)
        requires
            old(self).wf(),
        ensures
            final(self).wf(),
            final(self).total_requests() == old(self).total_requests(),
            final(self).endpoint_requests() == old(self).endpoint_requests(),
            final(self).user_requests() == old(self).user_requests().insert(username@, 0),
            final(self).user_endpoint_requests() == old(self).user_endpoint_requests().insert(
                username@,
                Map::empty(),
            ),
    {
        let ghost before = *self;
        self.user.insert(username.to_owned(), 0);
        let inner: StringMap<usize> = StringMap::new();
        proof {
            before.user_endpoint.lemma_shape();
        }
        self.user_endpoint.insert(username.to_owned(), inner);
        proof {
            self.user_endpoint.lemma_shape();
            assert forall|i: int| 0 <= i < self.user_endpoint.values().len() implies (
            #[trigger] self.user_endpoint.values()[i]).wf() by {
                let k = self.user_endpoint.keys()[i];
                self.user_endpoint.lemma_index(i);
                if k != username@ {
                    let j = before.user_endpoint.index_of(k);
                    before.user_endpoint.lemma_index(j);
                }
            }
            assert(self.user_endpoint_requests() =~= before.user_endpoint_requests().insert(
                username@,
                Map::empty(),
            ));
        }
    }

    /// Counts one request of `username` to `endpoint`.
    pub fn inc(&mut self, endpoint: &str, username: &str)
        requires
            old(self).wf(),
            old(self).total_requests() < usize::MAX,
        ensures
            final(self).wf(),
            final(self).total_requests() == old(self).total_requests() + 1,
            final(self).endpoint_requests() == old(self).endpoint_requests().insert(
                endpoint@,
                bumped(old(self).endpoint_requests(), endpoint@),
            ),
            final(self).user_requests() == old(self).user_requests().insert(
                username@,
                bumped(old(self).user_requests(), username@),
            ),
            final(self).user_endpoint_requests() == old(self).user_endpoint_requests().insert(
                username@,
                counters_of(old(self).user_endpoint_requests(), username@).insert(
                    endpoint@,
                    bumped(counters_of(old(self).user_endpoint_requests(), username@), endpoint@),
                ),
            ),
    {
        let ghost before = *self;
        self.total += 1;
        bump(&mut self.endpoint, endpoint);
        bump(&mut self.user, username);
        proof {
            before.user_endpoint.lemma_shape();
        }
        match self.user_endpoint.find(username) {
            Some(i) => {
                proof {
                    before.user_endpoint.lemma_index(i as int);
                }
                let mut inner = self.user_endpoint.replace_at(i, StringMap::new());
                bump(&mut inner, endpoint);
                self.user_endpoint.replace_at(i, inner);
                proof {
                    assert(self.user_endpoint.values() =~= before.user_endpoint.values().update(
                        i as int,
                        inner,
                    ));
                }
            },
            None => {
                let mut inner: StringMap<usize> = StringMap::new();
                bump(&mut inner, endpoint);
                self.user_endpoint.insert(username.to_owned(), inner);
                proof {
                    self.user_endpoint.lemma_shape();
                    assert forall|i: int| 0 <= i < self.user_endpoint.values().len() implies (
                    #[trigger] self.user_endpoint.values()[i]).wf() by {
                        let k = self.user_endpoint.keys()[i];
                        self.user_endpoint.lemma_index(i);
                        if k != username@ {
                            let j = before.user_endpoint.index_of(k);
                            before.user_endpoint.lemma_index(j);
                        }
                    }
                }
            },
        }
        proof {
            assert(self.user_endpoint_requests() =~= before.user_endpoint_requests().insert(
                username@,
                counters_of(before.user_endpoint_requests(), username@).insert(
                    endpoint@,
                    bumped(counters_of(before.user_endpoint_requests(), username@), endpoint@),
                ),
            ));
        }
    }
}

/// Counts one more under `key`.
fn bump(counters: &mut StringMap<usize>, key: &str)
    requires
        old(counters).wf(),
        forall|k: Seq<char>| #[trigger]
            old(counters)@.contains_key(k) ==> old(counters)@[k] < usize::MAX,
    ensures
        final(counters).wf(),
        final(counters)@ == old(counters)@.insert(key@, bumped(old(counters)@, key@)),
{
    proof {
        counters.lemma_shape();
    }
    match counters.find(key) {
        Some(i) => {
            proof {
                counters.lemma_index(i as int);
            }
            let n = *counters.value_at(i);
            counters.replace_at(i, n + 1);
        },
        None => {
            counters.insert(key.to_owned(), 1);
        },
    }
}

/// Counting a request lowers no counter: the total and every counter that
/// was there are at least what they were.
pub proof fn lemma_inc_monotone(before: ProxyStats, after: ProxyStats, endpoint: Seq<char>, username: Seq<char>)
    requires
        before.wf(),
        before.total_requests() < usize::MAX,
        after.total_requests() == before.total_requests() + 1,
        after.endpoint_requests() == before.endpoint_requests().insert(
            endpoint,
            bumped(before.endpoint_requests(), endpoint),
        ),
        after.user_requests() == before.user_requests().insert(
            username,
            bumped(before.user_requests(), username),
        ),
        after.user_endpoint_requests() == before.user_endpoint_requests().insert(
            username,
            counters_of(before.user_endpoint_requests(), username).insert(
                endpoint,
                bumped(counters_of(before.user_endpoint_requests(), username), endpoint),
            ),
        ),
    ensures
        before.total_requests() <= after.total_requests(),
        counters_le(before.endpoint_requests(), after.endpoint_requests()),
        counters_le(before.user_requests(), after.user_requests()),
        forall|u: Seq<char>| #[trigger]
            before.user_endpoint_requests().contains_key(u)
                ==> after.user_endpoint_requests().contains_key(u) && counters_le(
                before.user_endpoint_requests()[u],
                after.user_endpoint_requests()[u],
            ),
{
    before.lemma_bounded();
}

} // verus!
