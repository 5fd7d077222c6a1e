use vstd::prelude::*;

verus! {

/// A 160-bit account address, held as its top 32 bits and two 64-bit words.
#[derive(Clone, Copy, Debug, PartialEq, Eq, Structural)]
pub struct Address {
    pub hi: u32,
    pub mid: u64,
    pub lo: u64,
}

/// A 256-bit transaction hash, most significant word first.
#[derive(Clone, Copy, Debug, PartialEq, Eq, Structural)]
pub struct TxHash {
    pub w0: u64,
    pub w1: u64,
    pub w2: u64,
    pub w3: u64,
}

/// An unsigned 256-bit token amount, most significant word first.
#[derive(Clone, Copy, Debug, PartialEq, Eq, Structural)]
pub struct Amount {
    pub w0: u64,
    pub w1: u64,
    pub w2: u64,
    pub w3: u64,
}

/// The identity of a deposit: the source transaction and the log's index in it.
#[derive(Clone, Copy, Debug, PartialEq, Eq, Structural)]
pub struct EventKey {
    pub source_tx: TxHash,
    pub log_index: u64,
}

/// The decoded payload of a `Stake` log.
#[derive(Clone, Copy, Debug, PartialEq, Eq, Structural)]
pub struct Stake {
    pub account: Address,
    pub token_addr: Address,
    pub amount: Amount,
}

/// A `Stake` log together with where it stood on the source chain.
#[derive(Clone, Copy, Debug, PartialEq, Eq, Structural)]
pub struct StakeEvent {
    pub stake: Stake,
    pub block_number: u64,
    pub key: EventKey,
}

/// How far the event subscription has been consumed.
#[derive(Clone, Copy, Debug, PartialEq, Eq, Structural)]
pub struct Cursor {
    pub block_number: u64,
    pub log_index: u64,
}

} // verus!
