use vstd::prelude::*;
use crate::types::{Address, EventKey, TxHash};

verus! {

/// Where a deposit stands in the relay.
#[derive(Clone, Copy, Debug, PartialEq, Eq, Structural)]
pub enum MintStatus {
    Pending,
    Submitted,
    Confirmed,
    Failed,
}

/// One entry of the ledger's audit trail.
#[derive(Clone, Copy, Debug)]
pub struct MintRecord {
    pub key: EventKey,
    pub account: Address,
    pub status: MintStatus,
    pub destination_tx: Option<TxHash>,
    pub nonce_used: Option<u64>,
}

#[derive(Clone, Copy, Debug, PartialEq, Eq, Structural)]
pub enum LedgerError {
    /// Every nonce of the signer has been handed out.
    NonceExhausted,
    /// The deposit has no record in the `Submitted` state.
    NotSubmitted,
}

/// The record of which deposits were minted and of the signer's next nonce.
pub struct Ledger {
    records: Vec<MintRecord>,
    next_nonce: u64,
}

pub open spec fn is_terminal(s: MintStatus) -> bool {
    s == MintStatus::Confirmed || s == MintStatus::Failed
}

/// Some record of `k` has reached a terminal state.
pub open spec fn done_in(recs: Seq<MintRecord>, k: EventKey) -> bool {
    exists|i: int| 0 <= i < recs.len() && (#[trigger] recs[i]).key == k && is_terminal(recs[i].status)
}

pub open spec fn has_key(recs: Seq<MintRecord>, k: EventKey) -> bool {
    exists|i: int| 0 <= i < recs.len() && (#[trigger] recs[i]).key == k
}

/// The record of `k`, given that there is exactly one.
pub open spec fn record_of(recs: Seq<MintRecord>, k: EventKey) -> MintRecord
    recommends
        has_key(recs, k),
{
    let i = choose|i: int| 0 <= i < recs.len() && (#[trigger] recs[i]).key == k;
    recs[i]
}

/// The nonce `n` is held by some record.
pub open spec fn nonce_taken(recs: Seq<MintRecord>, n: u64) -> bool {
    exists|i: int| 0 <= i < recs.len() && (#[trigger] recs[i]).nonce_used == Some(n)
}

/// The account has a confirmed mint whose destination transaction is `h`.
pub open spec fn confirmed_with(recs: Seq<MintRecord>, a: Address, h: TxHash) -> bool {
    exists|i: int|
        0 <= i < recs.len() && (#[trigger] recs[i]).account == a && recs[i].status
            == MintStatus::Confirmed && recs[i].destination_tx == Some(h)
}

pub open spec fn record_wf(r: MintRecord, next_nonce: u64) -> bool {
    &&& (r.status == MintStatus::Confirmed <==> r.destination_tx is Some)
    &&& (r.status == MintStatus::Pending <==> r.nonce_used is None)
    &&& (r.nonce_used matches Some(n) ==> n < next_nonce)
}

/// The old records are all still there, in place; a confirmed one is unchanged.
pub open spec fn keeps_history(old_recs: Seq<MintRecord>, new_recs: Seq<MintRecord>) -> bool {
    &&& old_recs.len() <= new_recs.len()
    &&& forall|i: int| 0 <= i < old_recs.len() ==> (#[trigger] new_recs[i]).key == old_recs[i].key
    &&& forall|i: int|
        0 <= i < old_recs.len() && old_recs[i].status == MintStatus::Confirmed ==> #[trigger] new_recs[i]
            == old_recs[i]
    &&& forall|i: int|
        0 <= i < old_recs.len() && is_terminal(old_recs[i].status) ==> #[trigger] new_recs[i]
            == old_recs[i]
}

/// The records of `recs` with record `i` replaced by `r`.
pub open spec fn replaced(recs: Seq<MintRecord>, i: int, r: MintRecord) -> Seq<MintRecord> {
    recs.update(i, r)
}


/// The nonce held by the record of `k` while that record is `Submitted`.
pub open spec fn submitted_nonce(recs: Seq<MintRecord>, k: EventKey) -> Option<u64> {
    if has_key(recs, k) && record_of(recs, k).status == MintStatus::Submitted {
        record_of(recs, k).nonce_used
    } else {
        None
    }
}

/// Only the record of `k` changed, into `r`; the others and their order stay.
pub open spec fn only_changed(old_recs: Seq<MintRecord>, new_recs: Seq<MintRecord>, k: EventKey, r: MintRecord) -> bool {
    &&& new_recs.len() == old_recs.len()
    &&& has_key(new_recs, k)
    &&& record_of(new_recs, k) == r
    &&& forall|i: int| 0 <= i < old_recs.len() && old_recs[i].key != k ==> #[trigger] new_recs[i] == old_recs[i]
    &&& forall|i: int| 0 <= i < old_recs.len() ==> (#[trigger] new_recs[i]).key == old_recs[i].key
}

/// The records after the deposit `k` of `account` was handed nonce `n`.
pub open spec fn after_begin(recs: Seq<MintRecord>, k: EventKey, account: Address, n: u64) -> Seq<MintRecord> {
    let r = MintRecord {
        key: k,
        account,
        status: MintStatus::Submitted,
        destination_tx: None,
        nonce_used: Some(n),
    };
    if has_key(recs, k) {
        let i = choose|i: int| 0 <= i < recs.len() && (#[trigger] recs[i]).key == k;
        recs.update(i, r)
    } else {
        recs.push(r)
    }
}

/// With keys unique, the record of `k` is the one at its index.
pub proof fn lemma_record_at(recs: Seq<MintRecord>, i: int, k: EventKey)
    requires
        forall|a: int, b: int| 0 <= a < b < recs.len() ==> (#[trigger] recs[a]).key != (#[trigger] recs[b]).key,
        0 <= i < recs.len(),
        recs[i].key == k,
    ensures
        has_key(recs, k),
        record_of(recs, k) == recs[i],
{
    let j = choose|j: int| 0 <= j < recs.len() && (#[trigger] recs[j]).key == k;
    if j < i {
        assert(recs[j].key != recs[i].key);
    } else if i < j {
        assert(recs[i].key != recs[j].key);
    }
}

/// A deposit whose record was confirmed or failed is done: a redelivered event of it is
/// skipped and never submitted again.
pub proof fn lemma_settled_is_done(old_recs: Seq<MintRecord>, new_recs: Seq<MintRecord>, k: EventKey, r: MintRecord)
    requires
        only_changed(old_recs, new_recs, k, r),
        is_terminal(r.status),
    ensures
        done_in(new_recs, k),
{
    let i = choose|i: int| 0 <= i < new_recs.len() && (#[trigger] new_recs[i]).key == k;
    assert(new_recs[i] == r);
}

/// A done deposit stays done through every later change of the ledger.
pub proof fn lemma_done_stays(old_recs: Seq<MintRecord>, new_recs: Seq<MintRecord>, k: EventKey)
    requires
        keeps_history(old_recs, new_recs),
        done_in(old_recs, k),
    ensures
        done_in(new_recs, k),
{
    let i = choose|i: int| 0 <= i < old_recs.len() && (#[trigger] old_recs[i]).key == k && is_terminal(old_recs[i].status);
    assert(new_recs[i] == old_recs[i]);
}

/// The nonce a new submission gets is above every nonce already used, so none is used twice.
pub proof fn lemma_next_nonce_unused(l: Ledger)
    requires
        l.wf(),
    ensures
        !nonce_taken(l.records(), l.next_nonce()),
        forall|i: int| 0 <= i < l.records().len() ==> ((#[trigger] l.records()[i]).nonce_used matches Some(m) ==> m < l.next_nonce()),
{
    assert forall|i: int| 0 <= i < l.records().len() implies ((#[trigger] l.records()[i]).nonce_used matches Some(m) ==> m < l.next_nonce()) by {
        assert(record_wf(l.records()[i], l.next_nonce()));
    }
}

impl Ledger {
    pub closed spec fn records(&self) -> Seq<MintRecord> {
        self.records@
    }

    pub closed spec fn next_nonce(&self) -> u64 {
        self.next_nonce
    }

    /// At most one record per key; nonces below the next one, none used twice.
    pub open spec fn wf(&self) -> bool {
        &&& forall|i: int, j: int|
            0 <= i < j < self.records().len() ==> (#[trigger] self.records()[i]).key
                != (#[trigger] self.records()[j]).key
        &&& forall|i: int|
            0 <= i < self.records().len() ==> record_wf(#[trigger] self.records()[i], self.next_nonce())
        &&& forall|i: int, j: int|
            0 <= i < self.records().len() && 0 <= j < self.records().len() && i != j
                && (#[trigger] self.records()[i]).nonce_used is Some ==> (#[trigger] self.records()[j]).nonce_used
                != self.records()[i].nonce_used
    }

    /// An empty ledger whose signer will next use `next_nonce`.
    pub fn new(next_nonce: u64) -> (l: Ledger)
        ensures
            l.wf(),
            l.records() == Seq::<MintRecord>::empty(),
            l.next_nonce() == next_nonce,
    {
        Ledger { records: Vec::new(), next_nonce }
    }

    /// The index of the record of `k`, if any.
    pub fn find(&self, k: EventKey) -> (r: Option<usize>)
        ensures
            r matches Some(i) ==> i < self.records().len() && self.records()[i as int].key == k,
            r is None <==> !has_key(self.records(), k),
    {
        let mut i: usize = 0;
        while i < self.records.len()
            invariant
                i <= self.records@.len(),
                forall|j: int| 0 <= j < i ==> (#[trigger] self.records@[j]).key != k,
            decreases self.records@.len() - i,
        {
            if self.records[i].key == k {
                return Some(i);
            }
            i = i + 1;
        }
        None
    }

    /// Whether the deposit `k` has been confirmed or has failed for good.
    pub fn is_done(&self, k: EventKey) -> (r: bool)
        requires
            self.wf(),
        ensures
            r == done_in(self.records(), k),
    {
        match self.find(k) {
            Some(i) => {
                let s = self.records[i].status;
                proof {
                    if done_in(self.records(), k) {
                        let j = choose|j: int|
                            0 <= j < self.records().len() && (#[trigger] self.records()[j]).key == k
                                && is_terminal(self.records()[j].status);
                        assert(j == i as int);
                    }
                }
                s == MintStatus::Confirmed || s == MintStatus::Failed
            },
            None => false,
        }
    }

    /// Notes that the deposit `k` of `account` was seen, as `Pending`, unless it has a record.
    pub fn observe(&mut self, k: EventKey, account: Address)
        requires
            old(self).wf(),
        ensures
            final(self).wf(),
            final(self).next_nonce() == old(self).next_nonce(),
            has_key(old(self).records(), k) ==> final(self).records() == old(self).records(),
            !has_key(old(self).records(), k) ==> final(self).records() == old(self).records().push(
                MintRecord {
                    key: k,
                    account,
                    status: MintStatus::Pending,
                    destination_tx: None,
                    nonce_used: None,
                },
            ),
    {
        if self.find(k).is_none() {
            let r = MintRecord {
                key: k,
                account,
                status: MintStatus::Pending,
                destination_tx: None,
                nonce_used: None,
            };
            self.records.push(r);
            assert(forall|i: int| 0 <= i < old(self).records().len() ==> self.records()[i] == old(self).records()[i]);
        }
    }

    /// Marks the deposit `k` of `account` as `Submitted` and returns the nonce to sign with.
    /// A deposit already `Submitted` keeps its nonce; any other gets the next one, which is
    /// greater than every nonce handed out before.
    pub fn begin(&mut self, k: EventKey, account: Address) -> (r: Result<u64, LedgerError>)
        requires
            old(self).wf(),
            !done_in(old(self).records(), k),
        ensures
            final(self).wf(),
            keeps_history(old(self).records(), final(self).records()),
            submitted_nonce(old(self).records(), k) matches Some(n) ==> r == Ok::<u64, LedgerError>(n)
                && final(self).records() == old(self).records() && final(self).next_nonce()
                == old(self).next_nonce(),
            submitted_nonce(old(self).records(), k) is None && old(self).next_nonce() == u64::MAX ==> r
                == Err::<u64, LedgerError>(LedgerError::NonceExhausted) && final(self).records()
                == old(self).records() && final(self).next_nonce() == old(self).next_nonce(),
            submitted_nonce(old(self).records(), k) is None && old(self).next_nonce() < u64::MAX ==> r
                == Ok::<u64, LedgerError>(old(self).next_nonce()) && final(self).next_nonce()
                == old(self).next_nonce() + 1 && final(self).records() == after_begin(
                old(self).records(),
                k,
                account,
                old(self).next_nonce(),
            ) && (forall|i: int|
                0 <= i < old(self).records().len() ==> ((#[trigger] old(self).records()[i]).nonce_used
                    matches Some(m) ==> m < old(self).next_nonce())),
            r matches Ok(n) ==> has_key(final(self).records(), k) && record_of(final(self).records(), k).status
                == MintStatus::Submitted && record_of(final(self).records(), k).nonce_used == Some(n),
    {
        let found = self.find(k);
        let n = self.next_nonce;
        let r = MintRecord {
            key: k,
            account,
            status: MintStatus::Submitted,
            destination_tx: None,
            nonce_used: Some(n),
        };
        match found {
            Some(i) => {
                proof {
                    lemma_record_at(self.records(), i as int, k);
                }
                let cur = self.records[i];
                if cur.status == MintStatus::Submitted {
                    return match cur.nonce_used {
                        Some(m) => Ok(m),
                        None => Ok(0),
                    };
                }
                if n == u64::MAX {
                    return Err(LedgerError::NonceExhausted);
                }
                self.records.set(i, r);
                self.next_nonce = n + 1;
                proof {
                    lemma_record_at(self.records(), i as int, k);
                    assert(self.records() == after_begin(old(self).records(), k, account, n));
                }
            },
            None => {
                if n == u64::MAX {
                    return Err(LedgerError::NonceExhausted);
                }
                self.records.push(r);
                self.next_nonce = n + 1;
                proof {
                    let last = old(self).records().len() as int;
                    assert(forall|j: int| 0 <= j < last ==> self.records()[j] == old(self).records()[j]);
                    lemma_record_at(self.records(), last, k);
                }
            },
        }
        Ok(n)
    }

    fn settle(&mut self, k: EventKey, status: MintStatus, tx: Option<TxHash>) -> (r: Result<(), LedgerError>)
        requires
            old(self).wf(),
            status == MintStatus::Confirmed <==> tx is Some,
            status != MintStatus::Pending,
        ensures
            final(self).wf(),
            final(self).next_nonce() == old(self).next_nonce(),
            keeps_history(old(self).records(), final(self).records()),
            submitted_nonce(old(self).records(), k) is Some ==> r is Ok && only_changed(
                old(self).records(),
                final(self).records(),
                k,
                MintRecord { status, destination_tx: tx, ..record_of(old(self).records(), k) },
            ),
            submitted_nonce(old(self).records(), k) is None ==> r == Err::<(), LedgerError>(
                LedgerError::NotSubmitted,
            ) && final(self).records() == old(self).records(),
    {
        match self.find(k) {
            Some(i) => {
                proof {
                    lemma_record_at(self.records(), i as int, k);
                }
                let cur = self.records[i];
                if cur.status != MintStatus::Submitted {
                    return Err(LedgerError::NotSubmitted);
                }
                let r = MintRecord { status, destination_tx: tx, ..cur };
                self.records.set(i, r);
                proof {
                    lemma_record_at(self.records(), i as int, k);
                }
                Ok(())
            },
            None => Err(LedgerError::NotSubmitted),
        }
    }

    /// Records that the submitted deposit `k` was minted by the destination transaction `h`.
    pub fn commit(&mut self, k: EventKey, h: TxHash) -> (r: Result<(), LedgerError>)
        requires
            old(self).wf(),
        ensures
            final(self).wf(),
            final(self).next_nonce() == old(self).next_nonce(),
            keeps_history(old(self).records(), final(self).records()),
            submitted_nonce(old(self).records(), k) is Some ==> r is Ok && only_changed(
                old(self).records(),
                final(self).records(),
                k,
                MintRecord {
                    status: MintStatus::Confirmed,
                    destination_tx: Some(h),
                    ..record_of(old(self).records(), k)
                },
            ),
            submitted_nonce(old(self).records(), k) is None ==> r == Err::<(), LedgerError>(
                LedgerError::NotSubmitted,
            ) && final(self).records() == old(self).records(),
    {
        self.settle(k, MintStatus::Confirmed, Some(h))
    }

    /// Records that the submitted deposit `k` failed for good.
    pub fn fail(&mut self, k: EventKey) -> (r: Result<(), LedgerError>)
        requires
            old(self).wf(),
        ensures
            final(self).wf(),
            final(self).next_nonce() == old(self).next_nonce(),
            keeps_history(old(self).records(), final(self).records()),
            submitted_nonce(old(self).records(), k) is Some ==> r is Ok && only_changed(
                old(self).records(),
                final(self).records(),
                k,
                MintRecord {
                    status: MintStatus::Failed,
                    destination_tx: None,
                    ..record_of(old(self).records(), k)
                },
            ),
            submitted_nonce(old(self).records(), k) is None ==> r == Err::<(), LedgerError>(
                LedgerError::NotSubmitted,
            ) && final(self).records() == old(self).records(),
    {
        self.settle(k, MintStatus::Failed, None)
    }

    /// The destination transaction of a confirmed mint to `a`, if there is one.
    pub fn confirmed_hash(&self, a: Address) -> (r: Option<TxHash>)
        requires
            self.wf(),
        ensures
            r matches Some(h) ==> confirmed_with(self.records(), a, h),
            r is None ==> forall|h: TxHash| !confirmed_with(self.records(), a, h),
    {
        let mut i: usize = 0;
        while i < self.records.len()
            invariant
                self.wf(),
                i <= self.records@.len(),
                forall|j: int|
                    0 <= j < i ==> !((#[trigger] self.records@[j]).account == a && self.records@[j].status
                        == MintStatus::Confirmed),
            decreases self.records@.len() - i,
        {
            let r = self.records[i];
            if r.account == a && r.status == MintStatus::Confirmed {
                assert(record_wf(self.records@[i as int], self.next_nonce));
                return r.destination_tx;
            }
            i = i + 1;
        }
        None
    }

    /// The record of `k`, if it has one.
    pub fn record(&self, k: EventKey) -> (r: Option<MintRecord>)
        requires
            self.wf(),
        ensures
            r is None <==> !has_key(self.records(), k),
            r matches Some(m) ==> m == record_of(self.records(), k),
    {
        match self.find(k) {
            Some(i) => {
                proof {
                    lemma_record_at(self.records(), i as int, k);
                }
                Some(self.records[i])
            },
            None => None,
        }
    }

    /// The number of records.
    pub fn len(&self) -> (r: usize)
        ensures
            r == self.records().len(),
    {
        self.records.len()
    }

    /// The nonce the next new submission will use.
    pub fn nonce(&self) -> (r: u64)
        ensures
            r == self.next_nonce(),
    {
        self.next_nonce
    }
}

} // verus!
