pub mod deriver;
pub mod ledger;
pub mod vault;
pub mod laws;
