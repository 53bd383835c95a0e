//! The download scheduler's decisions: when a catalog app is due for an
//! immediate run, how a cursor-paginated run advances and when it stops,
//! and the set of scheduled apps with idempotent add and remove.
use vstd::prelude::*;

use crate::steam::{default_page_shape, GetPage};
use crate::DOWNLOAD_PERIOD_SECS;

verus! {

/// The scheduler's mailbox alphabet: start a run from a first page, start
/// scheduling an app, stop scheduling an app.
#[derive(Debug)]
pub enum SteamDownloadMsg {
    Download { app_id: u32, first_page: GetPage },
    AddApp(u32),
    RemoveApp(u32),
}

/// The stored newest `last_updated` as a count of seconds, zero when the
/// store holds no item for the app yet.
pub open spec fn last_or_zero(last_updated: Option<u64>) -> u64 {
    match last_updated {
        Some(t) => t,
        None => 0,
    }
}

/// Whether an app is due for an immediate run: the time since the newest
/// stored item exceeds the download period, or a force flag is set.
pub fn should_trigger(now_secs: u64, last_updated: Option<u64>, force: bool) -> (r: bool)
    requires
        last_or_zero(last_updated) <= now_secs,
    ensures
        r == (now_secs - last_or_zero(last_updated) > DOWNLOAD_PERIOD_SECS || force),
{
    let last: u64 = match last_updated {
        Some(t) => t,
        None => 0,
    };
    now_secs - last > DOWNLOAD_PERIOD_SECS || force
}

/// The state of one paginated download run.
#[derive(Clone, Debug)]
pub struct DownloadRun {
    pub appid: u32,
    /// The advertised total, unknown until the first page arrives.
    pub total: i64,
    /// How many entries the run has forwarded so far.
    pub downloaded: i64,
}

/// What a run does after one page response.
#[derive(Debug)]
pub enum PageOutcome {
    /// Fetch the next page with this request.
    Continue(GetPage),
    /// The run is over; this is a normal stop, never an error.
    Finished,
}

impl DownloadRun {
    /// A fresh run: nothing downloaded, the advertised total still unknown
    /// and taken as the largest count so the first page is always fetched.
    pub fn new(appid: u32) -> (r: DownloadRun)
        ensures
            r.appid == appid,
            r.total == i64::MAX,
            r.downloaded == 0,
            r.downloaded < r.total,
    {
        DownloadRun { appid, total: i64::MAX, downloaded: 0 }
    }

    /// Digest one page response. A page with zero entries finishes the run
    /// at once, without an error, whatever the advertised total says.
    /// Otherwise the run adopts the advertised total, counts the entries,
    /// and continues from the returned cursor exactly while the total says
    /// more entries remain.
    pub fn on_page(&mut self, total: i64, next_cursor: String, entry_count: usize) -> (r:
        PageOutcome)
        requires
            0 <= old(self).downloaded,
            old(self).downloaded + entry_count <= i64::MAX,
        ensures
            final(self).appid == old(self).appid,
            0 <= final(self).downloaded,
            entry_count == 0 ==> r is Finished && *final(self) == *old(self),
            entry_count > 0 ==> final(self).total == total && final(self).downloaded == old(
                self,
            ).downloaded + entry_count,
            entry_count > 0 && final(self).downloaded < total ==> (r matches PageOutcome::Continue(
                p,
            ) && (default_page_shape(p) && p.appid == old(self).appid && p.cursor == next_cursor)),
            entry_count > 0 && final(self).downloaded >= total ==> r is Finished,
    {
        if entry_count == 0 {
            return PageOutcome::Finished;
        }
        self.total = total;
        self.downloaded = self.downloaded + (entry_count as i64);
        if self.downloaded < self.total {
            PageOutcome::Continue(GetPage::next_page(self.appid, next_cursor))
        } else {
            PageOutcome::Finished
        }
    }
}

/// Whether an app id is in the scheduled set.
pub open spec fn app_scheduled(apps: Seq<u32>, id: u32) -> bool {
    exists|i: int| 0 <= i < apps.len() && apps[i] == id
}

/// The set of apps the scheduler holds a recurring timer for.
#[derive(Debug)]
pub struct SchedulerApps {
    pub apps: Vec<u32>,
}

impl SchedulerApps {
    /// Each app is scheduled at most once.
    pub open spec fn wf(&self) -> bool {
        forall|i: int, j: int| 0 <= i < j < self.apps@.len() ==> self.apps@[i] != self.apps@[j]
    }

    /// An empty schedule.
    pub fn new() -> (s: SchedulerApps)
        ensures
            s.wf(),
            s.apps@.len() == 0,
    {
        SchedulerApps { apps: Vec::new() }
    }

    /// Schedule an app. Adding one that is already scheduled is a no-op,
    /// and the result says whether a new timer is owed.
    pub fn add_app(&mut self, id: u32) -> (added: bool)
        requires
            old(self).wf(),
        ensures
            final(self).wf(),
            added == !app_scheduled(old(self).apps@, id),
            !added ==> *final(self) == *old(self),
            forall|x: u32|
                app_scheduled(final(self).apps@, x) <==> (app_scheduled(old(self).apps@, x) || x
                    == id),
    {
        let n = self.apps.len();
        let mut i: usize = 0;
        while i < n
            invariant
                *self == *old(self),
                self.wf(),
                i <= n,
                n == self.apps@.len(),
                forall|j: int| 0 <= j < i ==> self.apps@[j] != id,
            decreases n - i,
        {
            if self.apps[i] == id {
                proof {
                    assert(self.apps@[i as int] == id);
                    assert(app_scheduled(self.apps@, id));
                }
                return false;
            }
            i = i + 1;
        }
        self.apps.push(id);
        proof {
            let apps = self.apps@;
            let n = apps.len() as int;
            assert forall|x: u32|
                app_scheduled(apps, x) <==> (app_scheduled(old(self).apps@, x) || x == id) by {
                if app_scheduled(apps, x) {
                    let k = choose|k: int| 0 <= k < apps.len() && apps[k] == x;
                    if k < n - 1 {
                        assert(old(self).apps@[k] == x);
                    }
                }
                if app_scheduled(old(self).apps@, x) {
                    let k = choose|k: int|
                        0 <= k < old(self).apps@.len() && old(self).apps@[k] == x;
                    assert(apps[k] == x);
                }
                if x == id {
                    assert(apps[n - 1] == x);
                }
            }
        }
        true
    }

    /// Cancel an app's timer. Removing one that is not scheduled is a
    /// no-op, and the result says whether a timer was cancelled.
    pub fn remove_app(&mut self, id: u32) -> (removed: bool)
        requires
            old(self).wf(),
        ensures
            final(self).wf(),
            removed == app_scheduled(old(self).apps@, id),
            !removed ==> *final(self) == *old(self),
            forall|x: u32|
                app_scheduled(final(self).apps@, x) <==> (app_scheduled(old(self).apps@, x) && x
                    != id),
    {
        let n = self.apps.len();
        let mut i: usize = 0;
        while i < n
            invariant
                *self == *old(self),
                self.wf(),
                i <= n,
                n == self.apps@.len(),
                forall|j: int| 0 <= j < i ==> self.apps@[j] != id,
            decreases n - i,
        {
            if self.apps[i] == id {
                proof {
                    assert(app_scheduled(self.apps@, id));
                }
                self.apps.remove(i);
                proof {
                    let apps = self.apps@;
                    let olda = old(self).apps@;
                    assert forall|a: int, b: int| 0 <= a < b < apps.len() implies apps[a]
                        != apps[b] by {
                        let a0: int = if a < i {
                            a
                        } else {
                            a + 1
                        };
                        let b0: int = if b < i {
                            b
                        } else {
                            b + 1
                        };
                        assert(apps[a] == olda[a0] && apps[b] == olda[b0]);
                    }
                    assert forall|x: u32|
                        app_scheduled(apps, x) <==> (app_scheduled(olda, x) && x != id) by {
                        if app_scheduled(apps, x) {
                            let k = choose|k: int| 0 <= k < apps.len() && apps[k] == x;
                            let k0: int = if k < i {
                                k
                            } else {
                                k + 1
                            };
                            assert(olda[k0] == x);
                            if x == id {
                                assert(olda[i as int] == id);
                            }
                        }
                        if app_scheduled(olda, x) && x != id {
                            let k = choose|k: int| 0 <= k < olda.len() && olda[k] == x;
                            if k < i {
                                assert(apps[k] == x);
                            } else {
                                assert(olda[i as int] == id);
                                assert(k != i);
                                assert(apps[k - 1] == x);
                            }
                        }
                    }
                }
                return true;
            }
            i = i + 1;
        }
        false
    }
}

} // verus!
