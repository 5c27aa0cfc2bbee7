//! The token ledger: the persisted table of issued tokens, the sole source
//! of revocation truth. Records are identified by the order of their
//! creation, ids are never reused, and the only mutation ever applied to a
//! record is the one-way flip of its `active` flag. The compare-and-set
//! `deactivate_if_active` is the linearization point of refresh rotation:
//! of any number of competing consumptions of one record, exactly one
//! observes the transition.
use vstd::prelude::*;

use crate::token::JwtKind;

verus! {

/// One row of the ledger, written when a token is issued. `id` doubles as
/// the token's `jti` claim.
#[derive(Clone, Copy, Debug, PartialEq, Eq, Structural)]
pub struct TokenRecord {
    pub id: u64,
    pub kind: JwtKind,
    pub uid: u64,
    pub issued_at: u64,
    pub active: bool,
}

/// A record is fresh while `now` has not passed its issue time plus its
/// kind's lifetime. Computed at check time, never stored.
pub open spec fn spec_fresh(rec: TokenRecord, now: u64) -> bool {
    now as int <= rec.issued_at as int + rec.kind.spec_lifetime() as int
}

/// A token is usable while its record exists, is still active, and is
/// fresh. A missing record means "not usable", never an error.
pub open spec fn spec_usable(l: Seq<TokenRecord>, id: u64, now: u64) -> bool {
    id < l.len() && l[id as int].active && spec_fresh(l[id as int], now)
}

/// `l` with record `id` deactivated (identical where `id` is out of range).
pub open spec fn spec_deactivated(l: Seq<TokenRecord>, id: u64) -> Seq<TokenRecord> {
    if id < l.len() {
        l.update(id as int, TokenRecord { active: false, ..l[id as int] })
    } else {
        l
    }
}

impl TokenRecord {
    /// Terminal for usability: the record has outlived its kind's lifetime,
    /// or its active flag was cleared.
    pub fn expired(&self, now: u64) -> (r: bool)
        ensures
            r == !(self.active && spec_fresh(*self, now)),
    {
        let lifetime = self.kind.lifetime();
        let fresh = now <= self.issued_at || now - self.issued_at <= lifetime;
        !(self.active && fresh)
    }

    /// The record, where it is still usable at `now`.
    pub fn check(self, now: u64) -> (r: Option<TokenRecord>)
        ensures
            r == if self.active && spec_fresh(self, now) {
                Some(self)
            } else {
                None::<TokenRecord>
            },
    {
        if self.expired(now) {
            None
        } else {
            Some(self)
        }
    }
}

/// The ledger itself: every issuance appends one record, and record `i`
/// carries id `i`, so ids are unique and never reused.
pub struct Ledger {
    pub records: Vec<TokenRecord>,
}

impl Ledger {
    /// Each record's id is its position: ids are unique and never reused.
    pub open spec fn wf(&self) -> bool {
        forall|i: int| 0 <= i < self.records@.len() ==> self.records@[i].id == i as u64
    }

    pub open spec fn spec_get(&self, id: u64) -> Option<TokenRecord> {
        if id < self.records@.len() {
            Some(self.records@[id as int])
        } else {
            None
        }
    }

    pub fn new() -> (r: Ledger)
        ensures
            r.records@ =~= Seq::<TokenRecord>::empty(),
            r.wf(),
    {
        Ledger { records: Vec::new() }
    }

    /// Writes the row for a freshly issued token: active, issued now, with
    /// the next never-used id, which the caller embeds as the token's `jti`.
    pub fn create(&mut self, kind: JwtKind, uid: u64, now: u64) -> (r: u64)
        ensures
            old(self).records@.len() <= usize::MAX as int,
            r == old(self).records@.len() as u64,
            final(self).records@ == old(self).records@.push(
                TokenRecord { id: r, kind, uid, issued_at: now, active: true },
            ),
            old(self).wf() ==> final(self).wf(),
    {
        let id = self.records.len() as u64;
        self.records.push(TokenRecord { id, kind, uid, issued_at: now, active: true });
        proof {
            if old(self).wf() {
                assert(self.wf()) by {
                    assert(forall|i: int|
                        0 <= i < old(self).records@.len() ==> self.records@[i] == old(
                            self,
                        ).records@[i]);
                }
            }
        }
        id
    }

    /// Reads one record; `None` where no record ever had this id.
    pub fn get(&self, id: u64) -> (r: Option<TokenRecord>)
        ensures
            r == self.spec_get(id),
    {
        let n = self.records.len();
        if id < n as u64 {
            Some(self.records[id as usize])
        } else {
            None
        }
    }

    /// Clears the active flag; a no-op (not an error) on a missing or
    /// already-inactive record.
    pub fn deactivate(&mut self, id: u64)
        ensures
            final(self).records@ == spec_deactivated(old(self).records@, id),
            old(self).wf() ==> final(self).wf(),
    {
        let n = self.records.len();
        if id < n as u64 {
            let i = id as usize;
            let mut rec = self.records[i];
            rec.active = false;
            self.records[i] = rec;
        }
        proof {
            if old(self).wf() {
                assert(self.wf());
            }
        }
    }

    /// The atomic compare-and-set of refresh rotation: deactivates the
    /// record exactly when it is currently active, and reports whether this
    /// call made the transition. Of two competing calls on one record, at
    /// most one returns true.
    pub fn deactivate_if_active(&mut self, id: u64) -> (r: bool)
        ensures
            r == (id < old(self).records@.len() && old(self).records@[id as int].active),
            final(self).records@ == if r {
                spec_deactivated(old(self).records@, id)
            } else {
                old(self).records@
            },
            old(self).wf() ==> final(self).wf(),
    {
        let n = self.records.len();
        if id < n as u64 {
            let i = id as usize;
            let mut rec = self.records[i];
            if rec.active {
                rec.active = false;
                self.records[i] = rec;
                proof {
                    if old(self).wf() {
                        assert(self.wf());
                    }
                }
                return true;
            }
        }
        false
    }

    /// The liveness check: record exists, still active, still fresh.
    pub fn is_usable(&self, id: u64, now: u64) -> (r: bool)
        ensures
            r == spec_usable(self.records@, id, now),
    {
        let n = self.records.len();
        if id < n as u64 {
            let rec = self.records[id as usize];
            !rec.expired(now)
        } else {
            false
        }
    }
}

/// Single consumption: once one compare-and-set has taken a record from
/// active to inactive, the condition under which a competing compare-and-set
/// on the same record could also report the transition no longer holds, in
/// that state and in any later state that only appends records or clears
/// flags on others.
pub proof fn lemma_single_consumption(l: Seq<TokenRecord>, id: u64)
    requires
        id < l.len(),
        l[id as int].active,
    ensures
        !spec_deactivated(l, id)[id as int].active,
        forall|now: u64| !spec_usable(spec_deactivated(l, id), id, now),
{
}

} // verus!
