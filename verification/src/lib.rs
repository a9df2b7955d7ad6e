//! The decisions of a Melmint minter, proved correct.

pub mod batch;
pub mod batch_laws;
pub mod chain;
pub mod cmdopts;
pub mod encoding;
pub mod errand;
pub mod keys;
pub mod refusal;
pub mod retry;
pub mod reward;
pub mod round_laws;
pub mod speed;
pub mod state;
pub mod state_laws;
pub mod sync;
pub mod sync_laws;
pub mod tx;
pub mod tx_laws;
pub mod wallet;
pub mod wallet_laws;
pub mod worker;
pub mod worker_laws;
