use vstd::prelude::*;

verus! {

/// The first wait before reconnecting, in milliseconds.
pub const BASE_DELAY_MS: u64 = 1000;

/// The longest wait before reconnecting, in milliseconds.
pub const MAX_DELAY_MS: u64 = 30000;

/// The wait before reconnect attempt `attempt` (counted from 0): doubling from the base, capped.
pub open spec fn delay_spec(attempt: nat) -> nat
    decreases attempt,
{
    if attempt == 0 {
        BASE_DELAY_MS as nat
    } else {
        let d = 2 * delay_spec((attempt - 1) as nat);
        if d < MAX_DELAY_MS { d } else { MAX_DELAY_MS as nat }
    }
}

proof fn lemma_delay_stays_capped(i: nat, j: nat)
    requires
        i <= j,
        delay_spec(i) == MAX_DELAY_MS,
    ensures
        delay_spec(j) == MAX_DELAY_MS,
    decreases j,
{
    if i < j {
        lemma_delay_stays_capped(i, (j - 1) as nat);
    }
}

/// The wait before reconnect attempt `attempt`, without jitter.
pub fn reconnect_delay_ms(attempt: u32) -> (r: u64)
    ensures
        r as nat == delay_spec(attempt as nat),
        r <= MAX_DELAY_MS,
{
    let mut d: u64 = BASE_DELAY_MS;
    let mut i: u32 = 0;
    while i < attempt
        invariant
            i <= attempt,
            d as nat == delay_spec(i as nat),
            d <= MAX_DELAY_MS,
        decreases attempt - i,
    {
        if d == MAX_DELAY_MS {
            proof {
                lemma_delay_stays_capped(i as nat, attempt as nat);
            }
            return d;
        }
        let twice = 2 * d;
        d = if twice < MAX_DELAY_MS { twice } else { MAX_DELAY_MS };
        i = i + 1;
    }
    d
}

} // verus!
