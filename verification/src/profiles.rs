//! The profile batcher's decisions: the display-name cache with its
//! staleness gate, the deduplicated batch capped at a fixed size, and the
//! bounded retry rule for rate-limited lookups.
use vstd::prelude::*;

verus! {

/// Cached display names older than this many seconds (7 days) are
/// refreshed.
pub const NAME_STALENESS_SECS: u64 = 604800;

/// At most this many ids go into one batched profile lookup.
pub const PROFILE_BATCH_SIZE: usize = 100;

/// A rate-limited batch is retried until this many attempts were made.
pub const PROFILE_RETRY_LIMIT: u8 = 3;

/// A cached display name and when it was last refreshed, in seconds.
#[derive(Clone, Debug)]
pub struct UserName {
    pub id: u64,
    pub last_updated: u64,
    pub name: String,
}

/// Index of the cache row for this user, or -1.
pub open spec fn name_idx(names: Seq<UserName>, id: u64) -> int
    decreases names.len(),
{
    if names.len() == 0 {
        -1
    } else if names[0].id == id {
        0
    } else {
        let r = name_idx(names.drop_first(), id);
        if r < 0 {
            -1
        } else {
            r + 1
        }
    }
}

/// What `name_idx` finds: -1 exactly when the user has no row, and
/// otherwise the first index holding it.
pub proof fn lemma_name_idx(names: Seq<UserName>, id: u64)
    ensures
        name_idx(names, id) == -1 <==> (forall|j: int| 0 <= j < names.len() ==> names[j].id != id),
        name_idx(names, id) != -1 ==> 0 <= name_idx(names, id) < names.len() && names[name_idx(
            names,
            id,
        )].id == id,
        forall|j: int| 0 <= j < name_idx(names, id) ==> names[j].id != id,
    decreases names.len(),
{
    if names.len() == 0 {
    } else if names[0].id == id {
    } else {
        let rest = names.drop_first();
        lemma_name_idx(rest, id);
        assert(forall|j: int| 0 <= j < rest.len() ==> rest[j] == names[j + 1]);
        let r = name_idx(rest, id);
        if r == -1 {
            assert forall|j: int| 0 <= j < names.len() implies names[j].id != id by {
                if j > 0 {
                    assert(names[j] == rest[j - 1]);
                }
            }
        } else {
            assert(names[r + 1] == rest[r]);
            assert forall|j: int| 0 <= j < r + 1 implies names[j].id != id by {
                if j > 0 {
                    assert(names[j] == rest[j - 1]);
                }
            }
        }
    }
}

/// A first match pins `name_idx` down.
pub proof fn lemma_name_idx_is(names: Seq<UserName>, id: u64, i: int)
    requires
        0 <= i < names.len(),
        names[i].id == id,
        forall|j: int| 0 <= j < i ==> names[j].id != id,
    ensures
        name_idx(names, id) == i,
{
    lemma_name_idx(names, id);
    let r = name_idx(names, id);
    if r == -1 {
        assert(names[i].id != id);
    } else if r < i {
        assert(names[r].id != id);
    } else if r > i {
        assert(names[i].id != id);
    }
}

/// Whether a cached refresh time calls for an update: the cache row is
/// older than the staleness horizon, or there is none. A row from the
/// future never counts as stale.
pub open spec fn refresh_due(now: u64, last_refreshed: Option<u64>) -> bool {
    match last_refreshed {
        Some(t) => now - t > NAME_STALENESS_SECS,
        None => true,
    }
}

/// The display-name cache, keyed by user id.
#[derive(Debug)]
pub struct UserNameStore {
    pub names: Vec<UserName>,
}

impl UserNameStore {
    /// Each user has at most one row.
    pub open spec fn wf(&self) -> bool {
        forall|i: int, j: int| 0 <= i < j < self.names@.len() ==> self.names@[i].id
            != self.names@[j].id
    }

    /// An empty cache.
    pub fn new() -> (s: UserNameStore)
        ensures
            s.wf(),
            s.names@.len() == 0,
    {
        UserNameStore { names: Vec::new() }
    }

    /// The stored row for a user, if any.
    pub fn get_by_id(&self, id: u64) -> (r: Option<UserName>)
        ensures
            ({
                let k = name_idx(self.names@, id);
                match r {
                    Some(row) => k >= 0 && (row.id == id && row.last_updated
                        == self.names@[k].last_updated && row.name@ == self.names@[k].name@),
                    None => k == -1,
                }
            }),
    {
        let n = self.names.len();
        let mut i: usize = 0;
        while i < n
            invariant
                i <= n,
                n == self.names@.len(),
                forall|j: int| 0 <= j < i ==> self.names@[j].id != id,
            decreases n - i,
        {
            if self.names[i].id == id {
                proof {
                    lemma_name_idx_is(self.names@, id, i as int);
                }
                return Some(
                    UserName {
                        id: self.names[i].id,
                        last_updated: self.names[i].last_updated,
                        name: self.names[i].name.clone(),
                    },
                );
            }
            i = i + 1;
        }
        proof {
            lemma_name_idx(self.names@, id);
        }
        None
    }

    /// Store a row for this user, replacing an old one: afterwards the
    /// user's row holds exactly the given name and refresh time and every
    /// other row is as it was.
    pub fn upsert(&mut self, username: UserName)
        requires
            old(self).wf(),
        ensures
            final(self).wf(),
            ({
                let k = name_idx(old(self).names@, username.id);
                if k >= 0 {
                    final(self).names@ == old(self).names@.update(k, username)
                } else {
                    final(self).names@ == old(self).names@.push(username)
                }
            }),
    {
        let n = self.names.len();
        let mut i: usize = 0;
        while i < n
            invariant
                *self == *old(self),
                self.wf(),
                i <= n,
                n == self.names@.len(),
                forall|j: int| 0 <= j < i ==> self.names@[j].id != username.id,
            decreases n - i,
        {
            if self.names[i].id == username.id {
                proof {
                    lemma_name_idx_is(self.names@, username.id, i as int);
                }
                self.names.set(i, username);
                proof {
                    assert forall|a: int, b: int| 0 <= a < b < self.names@.len() implies
                        self.names@[a].id != self.names@[b].id by {
                        if a != i {
                            assert(self.names@[a] == old(self).names@[a]);
                        }
                        if b != i {
                            assert(self.names@[b] == old(self).names@[b]);
                        }
                    }
                }
                return ;
            }
            i = i + 1;
        }
        proof {
            lemma_name_idx(self.names@, username.id);
        }
        self.names.push(username);
        proof {
            assert forall|a: int, b: int| 0 <= a < b < self.names@.len() implies self.names@[a].id
                != self.names@[b].id by {
                assert(self.names@[a] == old(self).names@[a]);
                if b < self.names@.len() - 1 {
                    assert(self.names@[b] == old(self).names@[b]);
                }
            }
        }
    }

    /// Whether this user's cached name should be refreshed now, per
    /// [`refresh_due`]: the row is older than the staleness horizon or
    /// absent.
    pub fn should_update_user(&self, now: u64, id: u64) -> (r: bool)
        ensures
            ({
                let k = name_idx(self.names@, id);
                r == refresh_due(
                    now,
                    if k >= 0 {
                        Some(self.names@[k].last_updated)
                    } else {
                        None
                    },
                )
            }),
    {
        match self.get_by_id(id) {
            Some(row) => {
                if row.last_updated > now {
                    false
                } else {
                    now - row.last_updated > NAME_STALENESS_SECS
                }
            },
            None => true,
        }
    }

    /// Refresh this user's display name if the staleness gate allows it:
    /// when due, the row becomes (id, now, name); otherwise nothing
    /// changes.
    pub fn update_user_name(&mut self, now: u64, id: u64, name: String)
        requires
            old(self).wf(),
        ensures
            final(self).wf(),
            ({
                let k = name_idx(old(self).names@, id);
                let due = refresh_due(
                    now,
                    if k >= 0 {
                        Some(old(self).names@[k].last_updated)
                    } else {
                        None
                    },
                );
                if !due {
                    final(self).names@ == old(self).names@
                } else {
                    ({
                        let row = final(self).names@[if k >= 0 {
                            k
                        } else {
                            old(self).names@.len() as int
                        }];
                        (row.id == id && row.last_updated == now && row.name@ == name@) && (if k
                            >= 0 {
                            final(self).names@ == old(self).names@.update(k, row)
                        } else {
                            final(self).names@ == old(self).names@.push(row)
                        })
                    })
                }
            }),
    {
        let ghost olds = self.names@;
        let ghost k = name_idx(olds, id);
        if self.should_update_user(now, id) {
            let row_in = UserName { id, last_updated: now, name };
            proof {
                assert(row_in.id == id && row_in.last_updated == now);
            }
            self.upsert(row_in);
            proof {
                lemma_name_idx(olds, id);
                let news = self.names@;
                if k >= 0 {
                    assert(news.len() == olds.len());
                    assert(news[k].id == id);
                    assert(news[k].last_updated == now);
                    assert(news =~= olds.update(k, news[k]));
                } else {
                    assert(news.len() == olds.len() + 1);
                    assert(news[olds.len() as int].id == id);
                    assert(news =~= olds.push(news[olds.len() as int]));
                }
            }
        }
    }
}

/// Whether an id belongs to the batch.
pub open spec fn batch_has(ids: Seq<u64>, id: u64) -> bool {
    exists|i: int| 0 <= i < ids.len() && ids[i] == id
}

/// One deduplicated batch of user ids, capped at the batch size.
#[derive(Debug)]
pub struct BatchSet {
    pub ids: Vec<u64>,
}

impl BatchSet {
    /// No id twice, and never more than the cap.
    pub open spec fn wf(&self) -> bool {
        (forall|i: int, j: int| 0 <= i < j < self.ids@.len() ==> self.ids@[i] != self.ids@[j])
            && self.ids@.len() <= PROFILE_BATCH_SIZE
    }

    /// An empty batch.
    pub fn new() -> (s: BatchSet)
        ensures
            s.wf(),
            s.ids@.len() == 0,
    {
        BatchSet { ids: Vec::new() }
    }

    /// Whether the batch is at its cap and must be flushed.
    pub fn is_full(&self) -> (r: bool)
        ensures
            r == (self.ids@.len() >= PROFILE_BATCH_SIZE),
    {
        self.ids.len() >= PROFILE_BATCH_SIZE
    }

    /// Offer an id to the batch: a duplicate and an offer to a full batch
    /// change nothing, else the id joins the batch.
    pub fn offer(&mut self, id: u64) -> (added: bool)
        requires
            old(self).wf(),
        ensures
            final(self).wf(),
            added == (!batch_has(old(self).ids@, id) && old(self).ids@.len()
                < PROFILE_BATCH_SIZE),
            !added ==> *final(self) == *old(self),
            added ==> final(self).ids@ == old(self).ids@.push(id),
            forall|x: u64|
                batch_has(final(self).ids@, x) <==> (batch_has(old(self).ids@, x) || (added && x
                    == id)),
    {
        let n = self.ids.len();
        let mut i: usize = 0;
        while i < n
            invariant
                *self == *old(self),
                self.wf(),
                i <= n,
                n == self.ids@.len(),
                forall|j: int| 0 <= j < i ==> self.ids@[j] != id,
            decreases n - i,
        {
            if self.ids[i] == id {
                proof {
                    assert(self.ids@[i as int] == id);
                    assert(batch_has(self.ids@, id));
                }
                return false;
            }
            i = i + 1;
        }
        if self.ids.len() >= PROFILE_BATCH_SIZE {
            return false;
        }
        self.ids.push(id);
        proof {
            let ids = self.ids@;
            let m = ids.len() as int;
            assert(ids[m - 1] == id);
            assert forall|a: int, b: int| 0 <= a < b < ids.len() implies ids[a] != ids[b] by {
                assert(ids[a] == old(self).ids@[a]);
                if b < m - 1 {
                    assert(ids[b] == old(self).ids@[b]);
                }
            }
            assert forall|x: u64|
                batch_has(ids, x) <==> (batch_has(old(self).ids@, x) || x == id) by {
                if batch_has(ids, x) {
                    let k = choose|k: int| 0 <= k < ids.len() && ids[k] == x;
                    if k < m - 1 {
                        assert(old(self).ids@[k] == x);
                    }
                }
                if batch_has(old(self).ids@, x) {
                    let k = choose|k: int| 0 <= k < old(self).ids@.len() && old(self).ids@[k] == x;
                    assert(ids[k] == x);
                }
                if x == id {
                    assert(ids[m - 1] == x);
                }
            }
        }
        true
    }

    /// Empty the batch after it was flushed or abandoned.
    pub fn clear(&mut self)
        ensures
            final(self).wf(),
            final(self).ids@.len() == 0,
    {
        self.ids.clear();
    }
}

/// Whether a rate-limited batch gets another attempt: only while fewer
/// than the retry limit have been made; after that it is abandoned.
pub fn should_retry(attempts_made: u8) -> (r: bool)
    ensures
        r == (attempts_made < PROFILE_RETRY_LIMIT),
{
    attempts_made < PROFILE_RETRY_LIMIT
}

} // verus!
