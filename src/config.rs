use vstd::prelude::*;
use crate::hex::{address_digits, address_of, all_hex, parse_address, AddressError};
use crate::types::Address;

verus! {

/// The bridge contract's address on each chain, as written in the configuration.
#[derive(Clone, Debug)]
pub struct Net {
    /// On the source chain.
    pub sepolia: String,
    /// On the destination chain.
    pub mumbai: String,
}

#[derive(Clone, Debug)]
pub struct Conf {
    pub contract_address: Net,
}

pub open spec fn is_address_text(s: Seq<char>) -> bool {
    address_digits(s).len() == 40 && all_hex(address_digits(s))
}

impl Conf {
    /// The source and destination contract addresses, or why the first bad one is not one.
    pub fn contract_addresses(&self) -> (r: Result<(Address, Address), AddressError>)
        ensures
            r is Ok <==> is_address_text(self.contract_address.sepolia@) && is_address_text(
                self.contract_address.mumbai@,
            ),
            r matches Ok((s, d)) ==> s == address_of(address_digits(self.contract_address.sepolia@))
                && d == address_of(address_digits(self.contract_address.mumbai@)),
    {
        let s = parse_address(self.contract_address.sepolia.as_str())?;
        let d = parse_address(self.contract_address.mumbai.as_str())?;
        Ok((s, d))
    }
}

} // verus!
