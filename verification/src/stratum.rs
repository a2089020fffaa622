//! Kaspa Common Stratum: the messages the miner sends, the model of the
//! JSON it receives, the job it decodes from `mining.notify`, and what it
//! does with each message from the pool.

pub mod protocol;
