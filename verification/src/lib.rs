//! Script-related phase-one ledger checks for a transaction, the outcome
//! record of a script evaluation, and the conversion of a validator into the
//! envelope that `cardano-cli` reads.

pub mod address;
pub mod budget;
pub mod bytes;
pub mod convert;
pub mod enumerate;
pub mod error;
pub mod eval_result;
pub mod input_order;
pub mod ledger;
pub mod order;
pub mod phase_one;
pub mod pointer;
pub mod script_table;
pub mod seqs;
pub mod term;
pub mod theorems;
