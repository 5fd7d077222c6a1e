use vstd::prelude::*;
use crate::types::Address;

verus! {

/// A caller's interest in the mint to `account`; `id` names the caller's result channel.
#[derive(Clone, Copy, Debug, PartialEq, Eq, Structural)]
pub struct RelayRequest {
    pub id: u64,
    pub account: Address,
}

/// The relay requests that are waiting, in the order they were registered.
pub struct Registry {
    requests: Vec<RelayRequest>,
}

/// The ids of the requests for `a`, in order.
pub open spec fn ids_for(reqs: Seq<RelayRequest>, a: Address) -> Seq<u64>
    decreases reqs.len(),
{
    if reqs.len() == 0 {
        Seq::<u64>::empty()
    } else {
        let rest = ids_for(reqs.drop_last(), a);
        if reqs.last().account == a {
            rest.push(reqs.last().id)
        } else {
            rest
        }
    }
}

/// The requests for accounts other than `a`, in order.
pub open spec fn others(reqs: Seq<RelayRequest>, a: Address) -> Seq<RelayRequest>
    decreases reqs.len(),
{
    if reqs.len() == 0 {
        Seq::<RelayRequest>::empty()
    } else {
        let rest = others(reqs.drop_last(), a);
        if reqs.last().account == a {
            rest
        } else {
            rest.push(reqs.last())
        }
    }
}

/// The requests whose id is not `id`, in order.
pub open spec fn without_id(reqs: Seq<RelayRequest>, id: u64) -> Seq<RelayRequest>
    decreases reqs.len(),
{
    if reqs.len() == 0 {
        Seq::<RelayRequest>::empty()
    } else {
        let rest = without_id(reqs.drop_last(), id);
        if reqs.last().id == id {
            rest
        } else {
            rest.push(reqs.last())
        }
    }
}

/// Every request for `a` has its id among `ids_for(reqs, a)`.
pub proof fn lemma_ids_for_contains(reqs: Seq<RelayRequest>, a: Address, i: int)
    requires
        0 <= i < reqs.len(),
        reqs[i].account == a,
    ensures
        ids_for(reqs, a).contains(reqs[i].id),
    decreases reqs.len(),
{
    if i == reqs.len() - 1 {
        let rest = ids_for(reqs.drop_last(), a);
        assert(ids_for(reqs, a)[rest.len() as int] == reqs[i].id);
    } else {
        lemma_ids_for_contains(reqs.drop_last(), a, i);
        let rest = ids_for(reqs.drop_last(), a);
        let j = choose|j: int| 0 <= j < rest.len() && rest[j] == reqs[i].id;
        assert(ids_for(reqs, a)[j] == reqs[i].id);
    }
}

impl Registry {
    pub closed spec fn view(&self) -> Seq<RelayRequest> {
        self.requests@
    }

    pub fn new() -> (r: Registry)
        ensures
            r@ == Seq::<RelayRequest>::empty(),
    {
        Registry { requests: Vec::new() }
    }

    /// Adds a request at the end.
    pub fn register(&mut self, req: RelayRequest)
        ensures
            final(self)@ == old(self)@.push(req),
    {
        self.requests.push(req);
    }

    /// Removes the requests of the caller `id`.
    pub fn deregister(&mut self, id: u64)
        ensures
            final(self)@ == without_id(old(self)@, id),
    {
        let mut rest: Vec<RelayRequest> = Vec::new();
        let mut i: usize = 0;
        while i < self.requests.len()
            invariant
                i <= self.requests@.len(),
                rest@ == without_id(self.requests@.subrange(0, i as int), id),
            decreases self.requests@.len() - i,
        {
            let r = self.requests[i];
            proof {
                assert(self.requests@.subrange(0, i + 1).drop_last() =~= self.requests@.subrange(0, i as int));
            }
            if r.id != id {
                rest.push(r);
            }
            i = i + 1;
        }
        assert(self.requests@.subrange(0, self.requests@.len() as int) =~= self.requests@);
        self.requests = rest;
    }

    /// Removes the requests for `a` and returns their ids, in order.
    pub fn take_matching(&mut self, a: Address) -> (r: Vec<u64>)
        ensures
            r@ == ids_for(old(self)@, a),
            final(self)@ == others(old(self)@, a),
    {
        let mut ids: Vec<u64> = Vec::new();
        let mut rest: Vec<RelayRequest> = Vec::new();
        let mut i: usize = 0;
        while i < self.requests.len()
            invariant
                i <= self.requests@.len(),
                ids@ == ids_for(self.requests@.subrange(0, i as int), a),
                rest@ == others(self.requests@.subrange(0, i as int), a),
            decreases self.requests@.len() - i,
        {
            let r = self.requests[i];
            proof {
                assert(self.requests@.subrange(0, i + 1).drop_last() =~= self.requests@.subrange(0, i as int));
            }
            if r.account == a {
                ids.push(r.id);
            } else {
                rest.push(r);
            }
            i = i + 1;
        }
        assert(self.requests@.subrange(0, self.requests@.len() as int) =~= self.requests@);
        self.requests = rest;
        ids
    }

    /// The number of waiting requests.
    pub fn len(&self) -> (r: usize)
        ensures
            r == self@.len(),
    {
        self.requests.len()
    }
}

} // verus!
