//! Per-account AI admission control: short-lived concurrency permits so a
//! single account cannot fan out model calls while an earlier request is still
//! running. Daily usage is persisted elsewhere; only the budget lives here.
use vstd::prelude::*;
use crate::settings::{env_positive_u32, env_positive_usize, parse_positive, positive_error, ConfigError};
use crate::text::{owned, str_eq};

verus! {

pub const DEFAULT_DAILY_BUDGET: u32 = 50;

pub const DEFAULT_MAX_CONCURRENT: usize = 2;

/// The in-flight counts held in `entries`, keyed by account.
pub open spec fn counts_of(entries: Seq<(String, usize)>) -> Map<Seq<char>, nat>
    decreases entries.len(),
{
    if entries.len() == 0 {
        Map::empty()
    } else {
        counts_of(entries.drop_last()).insert(entries.last().0@, entries.last().1 as nat)
    }
}

/// The in-flight count of `user` in `m`; an account with none is absent.
pub open spec fn count_in(m: Map<Seq<char>, nat>, user: Seq<char>) -> nat {
    if m.dom().contains(user) {
        m[user]
    } else {
        0
    }
}

/// The counts after one more request of `user` is admitted.
pub open spec fn acquired(m: Map<Seq<char>, nat>, user: Seq<char>) -> Map<Seq<char>, nat> {
    m.insert(user, count_in(m, user) + 1)
}

/// The counts after one request of `user` finishes: the count drops by one and
/// an account whose count reaches zero is forgotten.
pub open spec fn released(m: Map<Seq<char>, nat>, user: Seq<char>) -> Map<Seq<char>, nat> {
    if !m.dom().contains(user) {
        m
    } else if m[user] <= 1 {
        m.remove(user)
    } else {
        m.insert(user, (m[user] - 1) as nat)
    }
}

/// Admits at most `max_concurrent` simultaneous AI requests per account.
#[derive(Debug)]
pub struct AccountAiLimiter {
    daily_budget: u32,
    max_concurrent: usize,
    active: Vec<(String, usize)>,
}

/// Evidence that one request of an account was admitted; hand it back to
/// [`AccountAiLimiter::release`] when the request finishes.
#[derive(Debug)]
pub struct AccountAiPermit {
    user_id: String,
}

impl AccountAiPermit {
    /// The account the permit was issued to.
    pub closed spec fn user(self) -> Seq<char> {
        self.user_id@
    }

    pub fn user_id(&self) -> (r: &str)
        ensures
            r@ == self.user(),
    {
        self.user_id.as_str()
    }
}

impl AccountAiLimiter {
    #[verifier::type_invariant]
    spec fn well_formed(self) -> bool {
        &&& self.max_concurrent >= 1
        &&& forall|i: int, j: int|
            0 <= i < j < self.active@.len() ==> (#[trigger] self.active@[i]).0@
                != (#[trigger] self.active@[j]).0@
        &&& forall|i: int|
            0 <= i < self.active@.len() ==> 1 <= (#[trigger] self.active@[i]).1
                <= self.max_concurrent
    }

    /// The in-flight request count of each account that has one.
    pub closed spec fn active(self) -> Map<Seq<char>, nat> {
        counts_of(self.active@)
    }

    pub closed spec fn max(self) -> nat {
        self.max_concurrent as nat
    }

    pub closed spec fn budget(self) -> u32 {
        self.daily_budget
    }

    /// A limiter with the given budget and concurrency limit and nothing in flight.
    pub fn new(daily_budget: u32, max_concurrent: usize) -> (r: Self)
        requires
            max_concurrent >= 1,
        ensures
            r.budget() == daily_budget,
            r.max() == max_concurrent,
            r.active() == Map::<Seq<char>, nat>::empty(),
    {
        AccountAiLimiter { daily_budget, max_concurrent, active: Vec::new() }
    }

    /// Limits from `MPGS_AI_ACCOUNT_DAILY_BUDGET` and
    /// `MPGS_AI_ACCOUNT_MAX_CONCURRENT` (each `None` when unset; defaults 50
    /// and 2). A value that is not a positive integer is an error.
    pub fn from_env(daily_budget_raw: Option<&str>, max_concurrent_raw: Option<&str>) -> (r: Result<
        Self,
        ConfigError,
    >)
        ensures
            r is Ok <==> (daily_budget_raw matches Some(v) ==> parse_positive(v@, u32::MAX as nat)
                is Some) && (max_concurrent_raw matches Some(v) ==> parse_positive(
                v@,
                usize::MAX as nat,
            ) is Some),
            r matches Ok(l) ==> l.active() == Map::<Seq<char>, nat>::empty() && l.budget() == match daily_budget_raw {
                None => DEFAULT_DAILY_BUDGET,
                Some(v) => parse_positive(v@, u32::MAX as nat)->0 as u32,
            } && l.max() == match max_concurrent_raw {
                None => DEFAULT_MAX_CONCURRENT as nat,
                Some(v) => parse_positive(v@, usize::MAX as nat)->0,
            },
            r matches Err(e) ==> e.message@ == if daily_budget_raw matches Some(v)
                && parse_positive(v@, u32::MAX as nat) is None {
                positive_error("MPGS_AI_ACCOUNT_DAILY_BUDGET"@)
            } else {
                positive_error("MPGS_AI_ACCOUNT_MAX_CONCURRENT"@)
            },
    {
        let daily_budget = match env_positive_u32(
            "MPGS_AI_ACCOUNT_DAILY_BUDGET",
            daily_budget_raw,
            DEFAULT_DAILY_BUDGET,
        ) {
            Ok(v) => v,
            Err(e) => {
                return Err(e);
            },
        };
        let max_concurrent = match env_positive_usize(
            "MPGS_AI_ACCOUNT_MAX_CONCURRENT",
            max_concurrent_raw,
            DEFAULT_MAX_CONCURRENT,
        ) {
            Ok(v) => v,
            Err(e) => {
                return Err(e);
            },
        };
        Ok(AccountAiLimiter { daily_budget, max_concurrent, active: Vec::new() })
    }

    pub fn daily_budget(&self) -> (r: u32)
        ensures
            r == self.budget(),
    {
        self.daily_budget
    }

    /// The number of requests of `user_id` in flight; never more than the limit.
    pub fn in_flight(&self, user_id: &str) -> (r: usize)
        ensures
            r == count_in(self.active(), user_id@),
            r <= self.max(),
    {
        proof {
            use_type_invariant(self);
            lemma_counts_of_unique(self.active@);
        }
        match self.find(user_id) {
            Some(i) => {
                proof {
                    lemma_counts_of_at(self.active@, i as int);
                }
                self.active[i].1
            },
            None => {
                proof {
                    lemma_counts_of_absent(self.active@, user_id@);
                }
                0
            },
        }
    }

    /// The position of `user` among the tracked accounts.
    fn find(&self, user_id: &str) -> (r: Option<usize>)
        ensures
            match r {
                Some(i) => i < self.active@.len() && self.active@[i as int].0@ == user_id@,
                None => forall|k: int|
                    0 <= k < self.active@.len() ==> (#[trigger] self.active@[k]).0@ != user_id@,
            },
    {
        let mut i: usize = 0;
        while i < self.active.len()
            invariant
                i <= self.active@.len(),
                forall|k: int| 0 <= k < i ==> (#[trigger] self.active@[k]).0@ != user_id@,
            decreases self.active@.len() - i,
        {
            if str_eq(self.active[i].0.as_str(), user_id) {
                return Some(i);
            }
            i = i + 1;
        }
        None
    }

    /// Admit one more request of `user_id` unless the account already has
    /// `max_concurrent` requests in flight.
    pub fn try_acquire(&mut self, user_id: &str) -> (r: Option<AccountAiPermit>)
        ensures
            r is Some <==> count_in(old(self).active(), user_id@) < old(self).max(),
            r matches Some(p) ==> p.user() == user_id@,
            final(self).active() == if r is Some {
                acquired(old(self).active(), user_id@)
            } else {
                old(self).active()
            },
            final(self).max() == old(self).max(),
            final(self).budget() == old(self).budget(),
    {
        proof {
            use_type_invariant(&*self);
            lemma_counts_of_unique(self.active@);
        }
        match self.find(user_id) {
            Some(i) => {
                let current = self.active[i].1;
                proof {
                    lemma_counts_of_at(self.active@, i as int);
                }
                if current >= self.max_concurrent {
                    return None;
                }
                let mut active = Vec::new();
                std::mem::swap(&mut active, &mut self.active);
                let ghost before = active@;
                let entry = (owned(user_id), current + 1);
                active.set(i, entry);
                proof {
                    lemma_counts_of_update(before, i as int, entry);
                }
                self.active = active;
                Some(AccountAiPermit { user_id: owned(user_id) })
            },
            None => {
                proof {
                    lemma_counts_of_absent(self.active@, user_id@);
                }
                let mut active = Vec::new();
                std::mem::swap(&mut active, &mut self.active);
                let ghost before = active@;
                active.push((owned(user_id), 1));
                assert(active@.drop_last() =~= before);
                self.active = active;
                Some(AccountAiPermit { user_id: owned(user_id) })
            },
        }
    }

    /// Return a permit: the account's in-flight count drops by one, and an
    /// account left with none is forgotten.
    pub fn release(&mut self, permit: AccountAiPermit)
        ensures
            final(self).active() == released(old(self).active(), permit.user()),
            final(self).max() == old(self).max(),
            final(self).budget() == old(self).budget(),
    {
        proof {
            use_type_invariant(&*self);
            lemma_counts_of_unique(self.active@);
        }
        let user = permit.user_id;
        match self.find(user.as_str()) {
            None => {
                proof {
                    lemma_counts_of_absent(self.active@, user@);
                }
            },
            Some(i) => {
                let current = self.active[i].1;
                proof {
                    lemma_counts_of_at(self.active@, i as int);
                }
                let mut active = Vec::new();
                std::mem::swap(&mut active, &mut self.active);
                let ghost before = active@;
                if current <= 1 {
                    active.remove(i);
                    proof {
                        lemma_counts_of_remove(before, i as int);
                    }
                } else {
                    let entry = (user, current - 1);
                    active.set(i, entry);
                    proof {
                        lemma_counts_of_update(before, i as int, entry);
                    }
                }
                self.active = active;
            },
        }
    }
}

impl Default for AccountAiLimiter {
    fn default() -> (r: Self)
        ensures
            r.budget() == DEFAULT_DAILY_BUDGET,
            r.max() == DEFAULT_MAX_CONCURRENT as nat,
            r.active() == Map::<Seq<char>, nat>::empty(),
    {
        AccountAiLimiter {
            daily_budget: DEFAULT_DAILY_BUDGET,
            max_concurrent: DEFAULT_MAX_CONCURRENT,
            active: Vec::new(),
        }
    }
}

/// The accounts of `entries` are pairwise distinct.
pub open spec fn unique_accounts(entries: Seq<(String, usize)>) -> bool {
    forall|i: int, j: int|
        0 <= i < j < entries.len() ==> (#[trigger] entries[i]).0@ != (#[trigger] entries[j]).0@
}

proof fn lemma_counts_of_dom(entries: Seq<(String, usize)>, u: Seq<char>)
    ensures
        counts_of(entries).dom().contains(u) <==> exists|k: int|
            0 <= k < entries.len() && (#[trigger] entries[k]).0@ == u,
    decreases entries.len(),
{
    if entries.len() > 0 {
        lemma_counts_of_dom(entries.drop_last(), u);
        if counts_of(entries.drop_last()).dom().contains(u) {
            let k = choose|k: int|
                0 <= k < entries.drop_last().len() && (#[trigger] entries.drop_last()[k]).0@ == u;
            assert(entries[k] == entries.drop_last()[k]);
        }
        if exists|k: int| 0 <= k < entries.len() && (#[trigger] entries[k]).0@ == u {
            let k = choose|k: int| 0 <= k < entries.len() && (#[trigger] entries[k]).0@ == u;
            if k < entries.len() - 1 {
                assert(entries.drop_last()[k] == entries[k]);
            }
        }
    }
}

proof fn lemma_counts_of_unique(entries: Seq<(String, usize)>)
    ensures
        forall|u: Seq<char>|
            #[trigger] counts_of(entries).dom().contains(u) <==> exists|k: int|
                0 <= k < entries.len() && (#[trigger] entries[k]).0@ == u,
{
    assert forall|u: Seq<char>|
        #[trigger] counts_of(entries).dom().contains(u) <==> exists|k: int|
            0 <= k < entries.len() && (#[trigger] entries[k]).0@ == u by {
        lemma_counts_of_dom(entries, u);
    }
}

proof fn lemma_counts_of_at(entries: Seq<(String, usize)>, i: int)
    requires
        unique_accounts(entries),
        0 <= i < entries.len(),
    ensures
        counts_of(entries).dom().contains(entries[i].0@),
        counts_of(entries)[entries[i].0@] == entries[i].1 as nat,
    decreases entries.len(),
{
    if i < entries.len() - 1 {
        assert(entries.drop_last()[i] == entries[i]);
        assert(unique_accounts(entries.drop_last()));
        lemma_counts_of_at(entries.drop_last(), i);
        assert(entries.last() == entries[entries.len() - 1]);
    }
}

proof fn lemma_counts_of_absent(entries: Seq<(String, usize)>, u: Seq<char>)
    requires
        forall|k: int| 0 <= k < entries.len() ==> (#[trigger] entries[k]).0@ != u,
    ensures
        !counts_of(entries).dom().contains(u),
{
    lemma_counts_of_dom(entries, u);
}

proof fn lemma_counts_of_update(entries: Seq<(String, usize)>, i: int, e: (String, usize))
    requires
        unique_accounts(entries),
        0 <= i < entries.len(),
        e.0@ == entries[i].0@,
    ensures
        counts_of(entries.update(i, e)) == counts_of(entries).insert(e.0@, e.1 as nat),
    decreases entries.len(),
{
    let n = entries.len();
    if i == n - 1 {
        assert(entries.update(i, e).drop_last() =~= entries.drop_last());
        lemma_counts_of_dom(entries.drop_last(), e.0@);
        assert(counts_of(entries.update(i, e)) =~= counts_of(entries).insert(e.0@, e.1 as nat));
    } else {
        assert(entries.update(i, e).drop_last() =~= entries.drop_last().update(i, e));
        assert(unique_accounts(entries.drop_last()));
        assert(entries.drop_last()[i] == entries[i]);
        lemma_counts_of_update(entries.drop_last(), i, e);
        assert(entries.update(i, e).last() == entries.last());
        assert(entries.last().0@ != e.0@) by {
            assert(entries.last() == entries[n - 1]);
        }
        assert(counts_of(entries.update(i, e)) =~= counts_of(entries).insert(e.0@, e.1 as nat));
    }
}

proof fn lemma_counts_of_remove(entries: Seq<(String, usize)>, i: int)
    requires
        unique_accounts(entries),
        0 <= i < entries.len(),
    ensures
        counts_of(entries.remove(i)) == counts_of(entries).remove(entries[i].0@),
    decreases entries.len(),
{
    let n = entries.len();
    let u = entries[i].0@;
    if i == n - 1 {
        assert(entries.remove(i) =~= entries.drop_last());
        lemma_counts_of_dom(entries.drop_last(), u);
        assert(counts_of(entries.remove(i)) =~= counts_of(entries).remove(u));
    } else {
        assert(entries.remove(i).drop_last() =~= entries.drop_last().remove(i));
        assert(unique_accounts(entries.drop_last()));
        assert(entries.drop_last()[i] == entries[i]);
        lemma_counts_of_remove(entries.drop_last(), i);
        assert(entries.remove(i).last() == entries.last());
        assert(entries.last().0@ != u) by {
            assert(entries.last() == entries[n - 1]);
        }
        assert(counts_of(entries.remove(i)) =~= counts_of(entries).remove(u));
    }
}

/// Admitting a request and then releasing its permit leaves the in-flight
/// counts as they were.
pub proof fn lemma_acquire_then_release(m: Map<Seq<char>, nat>, user: Seq<char>)
    requires
        m.dom().contains(user) ==> m[user] >= 1,
    ensures
        released(acquired(m, user), user) == m,
{
    if m.dom().contains(user) {
        assert(released(acquired(m, user), user) =~= m);
    } else {
        assert(released(acquired(m, user), user) =~= m);
    }
}

/// Admitting a request of `user` raises that account's in-flight count by
/// one; a finished request lowers it by one (never below zero); no other
/// account's count changes.
pub proof fn lemma_in_flight_counts(m: Map<Seq<char>, nat>, user: Seq<char>, other: Seq<char>)
    ensures
        count_in(acquired(m, user), user) == count_in(m, user) + 1,
        count_in(released(m, user), user) == if count_in(m, user) == 0 {
            0
        } else {
            (count_in(m, user) - 1) as nat
        },
        other != user ==> count_in(acquired(m, user), other) == count_in(m, other),
        other != user ==> count_in(released(m, user), other) == count_in(m, other),
{
}

} // verus!
