//! State kept in Redis: scopes of entries, each a key with a JSON value.
//!
//! Redis does the work, by commands and by scripts that it runs in one step each. This crate says
//! what is sent and reads what comes back. [`calls`] builds the commands and script calls from the
//! keys in [`keys`] and the texts in [`scripts`]; [`entries`], [`page`] and [`groups`] read the
//! replies; [`request`] says which call follows which when a page is read; [`connect`] says where
//! Redis is. [`sent`] and [`reported`] say, for each operation and over all inputs, what is on the
//! wire in terms of what the operation is given, and what it gives in terms of what comes back.
//! [`effects`] says what the commands and scripts do to the data, over the model in [`keyspace`], and
//! [`index`], [`rebuild`], [`storing`] and [`listing`] prove what readers and writers may rely on.

pub mod calls;
pub mod connect;
pub mod effects;
pub mod entries;
pub mod error;
pub mod groups;
pub mod index;
pub mod json;
pub mod keys;
pub mod keyspace;
pub mod listing;
pub mod page;
pub mod rebuild;
pub mod reported;
pub mod request;
pub mod scripts;
pub mod sent;
pub mod storing;
pub mod structs;
pub mod text;
