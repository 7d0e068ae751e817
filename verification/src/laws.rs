//! What always holds of the library, over all of its inputs: how what one function gives relates to
//! what it was given, and to what another function gives.

pub mod answers;
pub mod bridge;
pub mod limits;
pub mod messages;
pub mod numerals;
pub mod packets;
pub mod pages;
pub mod reach;
pub mod rules;
pub mod values;
