//! What a minter is told on its command line.

use vstd::prelude::*;

use crate::chain::NetID;
use crate::worker::WorkerConfig;

verus! {

/// The options of a minter.
#[derive(Debug)]
pub struct CmdOpts {
    /// Path to store state.
    pub state: String,
    /// Payout address for the profits.
    pub payout: [u8; 32],
    /// Which network to use.
    pub network: NetID,
    /// Force a certain number of threads. Defaults to the number of *physical* CPUs.
    pub threads: Option<usize>,
}

impl CmdOpts {
    /// The configuration of the worker on a machine with so many physical CPUs.
    pub fn worker_config(&self, physical_cpus: usize) -> (config: WorkerConfig)
        ensures
            config.payout == self.payout,
            config.name@ == Seq::<char>::empty(),
            config.threads == (match self.threads {
                Some(threads) => threads,
                None => physical_cpus,
            }),
            config.testnet == (self.network == NetID::Testnet),
    {
        let threads: usize = match self.threads {
            Some(threads) => threads,
            None => physical_cpus,
        };
        WorkerConfig {
            payout: self.payout,
            name: String::new(),
            threads,
            testnet: self.network == NetID::Testnet,
        }
    }
}

} // verus!
