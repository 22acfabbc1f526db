//! The core of a package registry's backend.
//!
//! Its heart is the aggregation of download counts. Raw counters, one per
//! version and day, are raised by whoever serves the downloads; a periodic
//! run folds what they have gained into the totals of versions and crates,
//! into the crates' totals per day and into one registry-wide counter,
//! exactly once for every download counted.
//!
//! * [`driver`] decides: a state machine from the store's answers to the
//!   next statement, so that the same decisions run against any store.
//! * [`protocol`] is what driver and store say to each other.
//! * [`ledger`] says what the store holds and what each statement, each
//!   page and each run does to it.
//! * [`store`] is such a store, held in memory.
//! * [`aggregate`] runs the driver against it, and is proved to do what
//!   [`ledger`] says.
//! * [`laws`] states what holds of every run; [`fold`] and [`backlog`]
//!   hold the lemmas on the way there.
//! * [`mode`] tells one run from a daemon.
//!
//! Beside it stand [`s3`], which signs requests against a bucket, and
//! [`user`], the registry's users and their tokens.

pub mod aggregate;
pub mod backlog;
pub mod driver;
pub mod event;
pub mod fold;
pub mod laws;
pub mod ledger;
pub mod mode;
pub mod protocol;
pub mod s3;
pub mod store;
pub mod timespec;
pub mod user;
