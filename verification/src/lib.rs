//! Verified core of a personal-budgeting tool: calendar dates and
//! accounting periods, money amounts, bucket histories, goals, account
//! balances, predicted transactions and the "remaining this period"
//! computation.
pub mod date;
pub mod line;
pub mod text;
pub mod period;
pub mod chrono_stack;
pub mod amounts;
pub mod operand;
pub mod buckets;
pub mod goals;
pub mod accounts;
pub mod remaining_operation;
pub mod calculator;
pub mod arguments;
pub mod ignored_transaction;
pub mod predicted_income;
pub mod legacy;
pub mod formatting;
pub mod legacy_screen;
pub mod predicted_transaction;
