//! The swallower game: swallowers are minted with a gene chain, battle each
//! other for genes, shelter in a safe zone and claim rewards in the battle zone.
pub mod table;
pub mod types;
pub mod hashing;
pub mod pallet;
pub mod battle;
pub mod laws;
pub mod accounting;
pub mod pricing;
