//! An anonymous, self-expiring blob store.
//!
//! Entries are created under short, readable names drawn at random ([`alphabet`], [`names`]),
//! hold their content in fixed-size blocks ([`files`]), and expire by a time to live or by a
//! deletion request, which takes effect at once for the owner and after a grace period for
//! anyone else ([`expiry`]). Expiry is enforced when an entry is next accessed ([`db`]).
//! The operations are specified over a map from names to entries, and [`laws`] proves what
//! follows from those specifications.
//!
//! Around the store stand the rules of the service that is built on it: uploads and their
//! limits ([`upload`], [`form`]), the owner token of a client ([`session`]), and how an entry
//! is shown ([`page`], [`highlight`], [`guard`]).

pub mod alphabet;
pub mod config;
pub mod db;
pub mod expiry;
pub mod files;
pub mod form;
pub mod guard;
pub mod highlight;
pub mod laws;
pub mod names;
pub mod page;
pub mod session;
pub mod text;
pub mod time;
pub mod upload;
