//! Share-based ledger and risk engine of a collateralized lending pool.
//!
//! A *bank* pools one asset. Lenders hold asset shares of it and borrowers owe
//! liability shares; interest never changes a share count but raises what a
//! share is worth. An *account* has one balance slot per bank, which holds
//! asset shares or liability shares, never both. Every operation that takes
//! value out of an account is followed by a health check on the result, and
//! an operation that is rejected, at whatever step, changes nothing.
//!
//! The modules, from the leaves up:
//!
//! - [`fixed_point`]: the fixed-point numbers in which everything is counted,
//!   with products and quotients rounded in a chosen direction;
//! - [`interest`]: the interest-rate curve and the growth of a value over time;
//! - [`bank`]: a bank, its share values and totals, and interest accrual;
//! - [`account`]: an account and its balance slots;
//! - [`position`]: deposit, withdrawal, borrow and repayment on one slot and
//!   its bank;
//! - [`price`] and [`risk`]: oracle observations and the health of an account;
//! - [`transfer_fee`]: the amount to send so that a given amount arrives;
//! - [`instructions`], [`bankruptcy`] and [`configure_bank`]: the atomic
//!   operations on accounts, on bankrupt accounts and on banks;
//! - [`events`] and [`error`]: what operations report and why they are
//!   rejected.
//!
//! Rounding always favors the pool: what an account is credited is rounded
//! down and what it is charged is rounded up.
pub mod account;
pub mod bank;
pub mod bankruptcy;
pub mod configure_bank;
pub mod error;
pub mod events;
pub mod fixed_point;
pub mod instructions;
pub mod interest;
pub mod position;
pub mod price;
pub mod pubkey;
pub mod risk;
pub mod transfer_fee;
