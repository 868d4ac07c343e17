//! Tells whether a host of the Debian and Ubuntu family needs an urgent
//! restart: whether packages wait for a reboot, and the changelog of one of
//! them holds a section of high urgency that is newer than the installed
//! version.
//!
//! The library reads no file and runs no tool. A check says what it asks of
//! the host and goes on from the answer it is given; see
//! [`checker::depends::get_urgent_updates`].

pub mod checker;
pub mod strings;
pub mod text;
