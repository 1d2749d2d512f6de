//! The relay: a "dumb" mailbox. It stores public key bundles and queues of opaque
//! encrypted blobs; it can never read message contents.
pub mod accounts;
pub mod contacts;
pub mod errors;
pub mod history;
pub mod keys;
pub mod laws;
pub mod limits;
pub mod live;
pub mod restore;
pub mod sessions;
pub mod messages;
pub mod profile;
pub mod requests;
pub mod store;
pub mod updates;
