use vstd::prelude::*;

pub mod admin;
pub mod analyzer;
pub mod annotations;
pub mod balance;
pub mod check_laws;
pub mod checks;
pub mod contract;
pub mod dates;
pub mod finding;
pub mod global_state;
pub mod options;
pub mod pretty;
pub mod reinit;
pub mod report;
pub mod scan_laws;
pub mod source;
pub mod suppress;
pub mod syntax;
pub mod text;
pub mod transfer;
pub mod unchecked_divisor;
pub mod unprotected_upgrade;
pub mod util;
pub mod vec_growth;

verus! {
}
