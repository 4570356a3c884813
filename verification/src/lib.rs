//! Election administration core: official credentials, the registry of
//! voters, offices and candidates, and the ledger that holds one ballot per
//! voter.

pub mod error;
pub mod rows;
pub mod digest;
pub mod credentials;
pub mod ledger;
pub mod registry;
pub mod database;
