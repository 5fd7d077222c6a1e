use vstd::prelude::*;
use crate::ledger::{
    after_begin, done_in, is_terminal, only_changed, record_of, submitted_nonce, Ledger,
    LedgerError, MintRecord, MintStatus, confirmed_with,
};
use crate::requests::{ids_for, others, without_id, lemma_ids_for_contains, Registry, RelayRequest};
use crate::hex::{address_digits, address_of, all_hex, hash_text, hash_text_of, parse_address, AddressError};
use crate::types::{Address, Amount, Cursor, EventKey, StakeEvent, TxHash};

verus! {

/// A mint to submit on the destination chain, signed with `nonce`.
#[derive(Clone, Copy, Debug, PartialEq, Eq, Structural)]
pub struct MintCall {
    pub key: EventKey,
    pub account: Address,
    pub token_addr: Address,
    pub amount: Amount,
    pub nonce: u64,
}

/// What the destination chain made of a submitted mint.
#[derive(Clone, Copy, Debug, PartialEq, Eq, Structural)]
pub enum SubmitOutcome {
    Mined(TxHash),
    Reverted,
    Timeout,
    RpcUnavailable,
}

/// What a waiting caller is told.
#[derive(Clone, Copy, Debug, PartialEq, Eq, Structural)]
pub enum Notice {
    Minted(TxHash),
    MintFailed,
}

/// A notice for the caller whose request has id `request`.
#[derive(Clone, Copy, Debug, PartialEq, Eq, Structural)]
pub struct Delivery {
    pub request: u64,
    pub notice: Notice,
}

/// What to do after an event arrived.
#[derive(Clone, Copy, Debug, PartialEq, Eq, Structural)]
pub enum EventAction {
    /// The deposit is already settled: nothing to submit.
    Skip,
    Submit(MintCall),
    /// The ledger cannot go on safely.
    Halt(LedgerError),
}

/// What to do after a submission reported back.
#[derive(Debug)]
pub enum OutcomeAction {
    Deliver(Vec<Delivery>),
    /// Submit the same call again, with the same nonce.
    Retry(MintCall),
    Halt(LedgerError),
}

/// The relay's decisions: the ledger, the waiting requests and the event cursor.
pub struct Relay {
    ledger: Ledger,
    registry: Registry,
    cursor: Option<Cursor>,
    retry_budget: u64,
}

pub open spec fn call_for(ev: StakeEvent, nonce: u64) -> MintCall {
    MintCall {
        key: ev.key,
        account: ev.stake.account,
        token_addr: ev.stake.token_addr,
        amount: ev.stake.amount,
        nonce,
    }
}

pub open spec fn cursor_of(ev: StakeEvent) -> Cursor {
    Cursor { block_number: ev.block_number, log_index: ev.key.log_index }
}

pub open spec fn deliveries_of(ids: Seq<u64>, n: Notice) -> Seq<Delivery> {
    ids.map_values(|id: u64| Delivery { request: id, notice: n })
}

/// A failure that may pass if the same call is tried again.
pub open spec fn is_transient(o: SubmitOutcome) -> bool {
    o == SubmitOutcome::Timeout || o == SubmitOutcome::RpcUnavailable
}

/// Requests registered for one account before its mint all receive the identical hash.
pub proof fn lemma_fan_out(reqs: Seq<RelayRequest>, a: Address, h: TxHash, i: int)
    requires
        0 <= i < reqs.len(),
        reqs[i].account == a,
    ensures
        deliveries_of(ids_for(reqs, a), Notice::Minted(h)).contains(
            Delivery { request: reqs[i].id, notice: Notice::Minted(h) },
        ),
        forall|d: Delivery|
            deliveries_of(ids_for(reqs, a), Notice::Minted(h)).contains(d) ==> d.notice == Notice::Minted(h),
{
    lemma_ids_for_contains(reqs, a, i);
    let ids = ids_for(reqs, a);
    let j = choose|j: int| 0 <= j < ids.len() && ids[j] == reqs[i].id;
    assert(deliveries_of(ids, Notice::Minted(h))[j] == Delivery { request: reqs[i].id, notice: Notice::Minted(h) });
}

pub open spec fn notice_text(n: Notice) -> Seq<char> {
    match n {
        Notice::Minted(h) => hash_text(h),
        Notice::MintFailed => failure_text(),
    }
}

pub open spec fn failure_text() -> Seq<char> {
    seq!['m', 'i', 'n', 't', ' ', 'f', 'a', 'i', 'l', 'e', 'd']
}

/// The text sent to a caller: the destination hash in hex, or that the mint failed.
pub fn notice_text_of(n: Notice) -> (r: String)
    ensures
        r@ == notice_text(n),
{
    match n {
        Notice::Minted(h) => hash_text_of(h),
        Notice::MintFailed => {
            let s = String::from_str("mint failed");
            proof {
                reveal_strlit("mint failed");
            }
            assert(s@ =~= failure_text());
            s
        },
    }
}

/// One notice for each id, in order.
fn notify(ids: &Vec<u64>, n: Notice) -> (r: Vec<Delivery>)
    ensures
        r@ == deliveries_of(ids@, n),
{
    let mut out: Vec<Delivery> = Vec::new();
    let mut i: usize = 0;
    while i < ids.len()
        invariant
            i <= ids@.len(),
            out@ == deliveries_of(ids@.subrange(0, i as int), n),
        decreases ids@.len() - i,
    {
        out.push(Delivery { request: ids[i], notice: n });
        proof {
            assert(deliveries_of(ids@.subrange(0, i + 1), n) =~= deliveries_of(
                ids@.subrange(0, i as int),
                n,
            ).push(Delivery { request: ids@[i as int], notice: n }));
        }
        i = i + 1;
    }
    assert(ids@.subrange(0, ids@.len() as int) =~= ids@);
    out
}

impl Relay {
    pub closed spec fn ledger(&self) -> Ledger {
        self.ledger
    }

    pub closed spec fn requests(&self) -> Seq<RelayRequest> {
        self.registry@
    }

    pub closed spec fn cursor(&self) -> Option<Cursor> {
        self.cursor
    }

    pub closed spec fn retry_budget(&self) -> u64 {
        self.retry_budget
    }

    pub open spec fn wf(&self) -> bool {
        self.ledger().wf()
    }

    /// A relay with an empty ledger; at most `retry_budget` attempts per mint on transient failures.
    pub fn new(next_nonce: u64, retry_budget: u64) -> (r: Relay)
        ensures
            r.wf(),
            r.ledger().records() == Seq::<MintRecord>::empty(),
            r.ledger().next_nonce() == next_nonce,
            r.requests() == Seq::<RelayRequest>::empty(),
            r.cursor() is None,
            r.retry_budget() == retry_budget,
    {
        Relay { ledger: Ledger::new(next_nonce), registry: Registry::new(), cursor: None, retry_budget }
    }

    /// A relay that resumes from a kept ledger and cursor, with no waiting requests.
    pub fn resume(ledger: Ledger, cursor: Option<Cursor>, retry_budget: u64) -> (r: Relay)
        requires
            ledger.wf(),
        ensures
            r.wf(),
            r.ledger() == ledger,
            r.requests() == Seq::<RelayRequest>::empty(),
            r.cursor() == cursor,
            r.retry_budget() == retry_budget,
    {
        Relay { ledger, registry: Registry::new(), cursor, retry_budget }
    }

    /// Decides on a delivered event. A settled deposit is skipped; any other is begun in the
    /// ledger and handed out for submission. The cursor moves past the event either way.
    pub fn on_event(&mut self, ev: StakeEvent) -> (r: EventAction)
        requires
            old(self).wf(),
        ensures
            final(self).wf(),
            final(self).requests() == old(self).requests(),
            final(self).retry_budget() == old(self).retry_budget(),
            final(self).cursor() == Some(cursor_of(ev)),
            done_in(old(self).ledger().records(), ev.key) ==> r == EventAction::Skip && final(self).ledger()
                == old(self).ledger(),
            !done_in(old(self).ledger().records(), ev.key) ==> match submitted_nonce(
                old(self).ledger().records(),
                ev.key,
            ) {
                Some(n) => r == EventAction::Submit(call_for(ev, n)) && final(self).ledger().records()
                    == old(self).ledger().records() && final(self).ledger().next_nonce() == old(self).ledger().next_nonce(),
                None => if old(self).ledger().next_nonce() == u64::MAX {
                    r == EventAction::Halt(LedgerError::NonceExhausted) && final(self).ledger().records()
                        == old(self).ledger().records()
                } else {
                    r == EventAction::Submit(call_for(ev, old(self).ledger().next_nonce())) && final(self).ledger().next_nonce() == old(self).ledger().next_nonce() + 1 && final(self).ledger().records() == after_begin(
                        old(self).ledger().records(),
                        ev.key,
                        ev.stake.account,
                        old(self).ledger().next_nonce(),
                    )
                },
            },
    {
        self.cursor = Some(Cursor { block_number: ev.block_number, log_index: ev.key.log_index });
        if self.ledger.is_done(ev.key) {
            return EventAction::Skip;
        }
        match self.ledger.begin(ev.key, ev.stake.account) {
            Ok(nonce) => EventAction::Submit(
                MintCall {
                    key: ev.key,
                    account: ev.stake.account,
                    token_addr: ev.stake.token_addr,
                    amount: ev.stake.amount,
                    nonce,
                },
            ),
            Err(e) => EventAction::Halt(e),
        }
    }

    /// Settles the deposit of `call` with status `status`, then tells every request for its
    /// account `n` and drops those requests.
    fn settle_and_notify(&mut self, call: MintCall, status: MintStatus, tx: Option<TxHash>, n: Notice) -> (r:
        OutcomeAction)
        requires
            old(self).wf(),
            status == MintStatus::Confirmed <==> tx is Some,
            is_terminal(status),
        ensures
            final(self).wf(),
            final(self).cursor() == old(self).cursor(),
            final(self).retry_budget() == old(self).retry_budget(),
            final(self).ledger().next_nonce() == old(self).ledger().next_nonce(),
            submitted_nonce(old(self).ledger().records(), call.key) is Some ==> only_changed(
                old(self).ledger().records(),
                final(self).ledger().records(),
                call.key,
                MintRecord { status, destination_tx: tx, ..record_of(old(self).ledger().records(), call.key) },
            ) && final(self).requests() == others(old(self).requests(), call.account) && (r matches OutcomeAction::Deliver(
                ds,
            ) && ds@ == deliveries_of(ids_for(old(self).requests(), call.account), n)),
            submitted_nonce(old(self).ledger().records(), call.key) is None ==> r == OutcomeAction::Halt(
                LedgerError::NotSubmitted,
            ) && final(self).ledger().records() == old(self).ledger().records() && final(self).requests()
                == old(self).requests(),
    {
        let settled = if status == MintStatus::Confirmed {
            match tx {
                Some(h) => self.ledger.commit(call.key, h),
                None => self.ledger.fail(call.key),
            }
        } else {
            self.ledger.fail(call.key)
        };
        match settled {
            Ok(()) => {
                let ids = self.registry.take_matching(call.account);
                OutcomeAction::Deliver(notify(&ids, n))
            },
            Err(e) => OutcomeAction::Halt(e),
        }
    }

    /// Decides on what the destination chain reported for `call`, after `attempts` tries.
    /// A mined call is confirmed and its hash told to every request for the account. A revert
    /// fails the deposit at once. A timeout or an unreachable node is retried with the same
    /// call while `attempts` is below the budget, and fails the deposit after that. A failed
    /// deposit is told to every request for the account as a failure.
    pub fn on_outcome(&mut self, call: MintCall, outcome: SubmitOutcome, attempts: u64) -> (r: OutcomeAction)
        requires
            old(self).wf(),
        ensures
            final(self).wf(),
            final(self).cursor() == old(self).cursor(),
            final(self).retry_budget() == old(self).retry_budget(),
            final(self).ledger().next_nonce() == old(self).ledger().next_nonce(),
            is_transient(outcome) && attempts < old(self).retry_budget() ==> r == OutcomeAction::Retry(call)
                && final(self).ledger() == old(self).ledger() && final(self).requests() == old(self).requests(),
            !(is_transient(outcome) && attempts < old(self).retry_budget()) && submitted_nonce(
                old(self).ledger().records(),
                call.key,
            ) is None ==> r == OutcomeAction::Halt(LedgerError::NotSubmitted) && final(self).ledger().records()
                == old(self).ledger().records() && final(self).requests() == old(self).requests(),
            !(is_transient(outcome) && attempts < old(self).retry_budget()) && submitted_nonce(
                old(self).ledger().records(),
                call.key,
            ) is Some ==> final(self).requests() == others(old(self).requests(), call.account) && match outcome {
                SubmitOutcome::Mined(h) => only_changed(
                    old(self).ledger().records(),
                    final(self).ledger().records(),
                    call.key,
                    MintRecord {
                        status: MintStatus::Confirmed,
                        destination_tx: Some(h),
                        ..record_of(old(self).ledger().records(), call.key)
                    },
                ) && (r matches OutcomeAction::Deliver(ds) && ds@ == deliveries_of(
                    ids_for(old(self).requests(), call.account),
                    Notice::Minted(h),
                )),
                _ => only_changed(
                    old(self).ledger().records(),
                    final(self).ledger().records(),
                    call.key,
                    MintRecord {
                        status: MintStatus::Failed,
                        destination_tx: None,
                        ..record_of(old(self).ledger().records(), call.key)
                    },
                ) && (r matches OutcomeAction::Deliver(ds) && ds@ == deliveries_of(
                    ids_for(old(self).requests(), call.account),
                    Notice::MintFailed,
                )),
            },
    {
        match outcome {
            SubmitOutcome::Mined(h) => self.settle_and_notify(call, MintStatus::Confirmed, Some(h), Notice::Minted(h)),
            SubmitOutcome::Reverted => self.settle_and_notify(call, MintStatus::Failed, None, Notice::MintFailed),
            _ => {
                if attempts < self.retry_budget {
                    OutcomeAction::Retry(call)
                } else {
                    self.settle_and_notify(call, MintStatus::Failed, None, Notice::MintFailed)
                }
            },
        }
    }

    /// Registers a caller's interest in `account`. Where a mint to it is already confirmed,
    /// its hash is returned at once and nothing is registered.
    pub fn on_request(&mut self, id: u64, account: Address) -> (r: Option<TxHash>)
        requires
            old(self).wf(),
        ensures
            final(self).wf(),
            final(self).ledger() == old(self).ledger(),
            final(self).cursor() == old(self).cursor(),
            final(self).retry_budget() == old(self).retry_budget(),
            r matches Some(h) ==> confirmed_with(old(self).ledger().records(), account, h) && final(self).requests() == old(self).requests(),
            r is None ==> (forall|h: TxHash| !confirmed_with(old(self).ledger().records(), account, h))
                && final(self).requests() == old(self).requests().push(RelayRequest { id, account }),
    {
        match self.ledger.confirmed_hash(account) {
            Some(h) => Some(h),
            None => {
                self.registry.register(RelayRequest { id, account });
                None
            },
        }
    }

    /// Registers a caller's interest in the account spelt by `text`, as `on_request` does.
    /// A text that is no address is rejected, and nothing changes.
    pub fn on_request_text(&mut self, id: u64, text: &str) -> (r: Result<Option<TxHash>, AddressError>)
        requires
            old(self).wf(),
        ensures
            final(self).wf(),
            final(self).ledger() == old(self).ledger(),
            final(self).cursor() == old(self).cursor(),
            final(self).retry_budget() == old(self).retry_budget(),
            !(address_digits(text@).len() == 40 && all_hex(address_digits(text@))) ==> r is Err && final(self).requests() == old(self).requests(),
            address_digits(text@).len() == 40 && all_hex(address_digits(text@)) ==> ({
                let a = address_of(address_digits(text@));
                r matches Ok(o) && (o matches Some(h) ==> confirmed_with(old(self).ledger().records(), a, h)
                    && final(self).requests() == old(self).requests()) && (o is None ==> (forall|h: TxHash|
                    !confirmed_with(old(self).ledger().records(), a, h)) && final(self).requests() == old(self).requests().push(RelayRequest { id, account: a }))
            }),
    {
        let a = parse_address(text)?;
        Ok(self.on_request(id, a))
    }

    /// Forgets the requests of the caller `id`, who went away.
    pub fn on_disconnect(&mut self, id: u64)
        requires
            old(self).wf(),
        ensures
            final(self).wf(),
            final(self).ledger() == old(self).ledger(),
            final(self).cursor() == old(self).cursor(),
            final(self).requests() == without_id(old(self).requests(), id),
    {
        self.registry.deregister(id);
    }

    /// The ledger, to keep across a restart.
    pub fn into_ledger(self) -> (r: Ledger)
        ensures
            r == self.ledger(),
    {
        self.ledger
    }

    pub fn ledger_ref(&self) -> (r: &Ledger)
        ensures
            *r == self.ledger(),
    {
        &self.ledger
    }

    pub fn last_cursor(&self) -> (r: Option<Cursor>)
        ensures
            r == self.cursor(),
    {
        self.cursor
    }

    pub fn waiting(&self) -> (r: usize)
        ensures
            r == self.requests().len(),
    {
        self.registry.len()
    }
}

} // verus!
