//! Class lists for the cases of an enum: each case has its class list, whose
//! variables are the fields of the case.

pub mod input;
pub mod parsers;
pub mod units;
