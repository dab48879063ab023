//! Command `create`.

use vstd::prelude::*;

verus! {

/// Deploy a program from code that the node already holds.
#[derive(Clone, Debug, PartialEq, Eq)]
pub struct Create {
    /// The id of the program's code.
    pub code_id: String,
    /// The program's salt, in hexadecimal.
    pub salt: String,
    /// The payload of the program's init message, in hexadecimal.
    pub init_payload: String,
    /// The program's gas limit; zero asks for an estimate.
    pub gas_limit: u64,
    /// The balance to give the program.
    pub value: u128,
}

/// Where the gas limit of a deployment comes from.
#[derive(Clone, Copy, Debug, PartialEq, Eq)]
pub enum GasSource {
    /// The node is asked for an estimate, and its minimum is taken.
    Estimated,
    /// The user gave the limit.
    Given(u64),
}

impl Create {
    /// Where the gas limit comes from: the limit that the user gave, and an estimate
    /// where that is zero.
    pub fn gas_source(&self) -> (source: GasSource)
        ensures
            source == if self.gas_limit == 0 {
                GasSource::Estimated
            } else {
                GasSource::Given(self.gas_limit)
            },
    {
        if self.gas_limit == 0 {
            GasSource::Estimated
        } else {
            GasSource::Given(self.gas_limit)
        }
    }
}

} // verus!
