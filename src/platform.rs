//! Platform routines that reduce to computation on values the OS reported.
pub mod fsent;
pub mod hostinfo;
