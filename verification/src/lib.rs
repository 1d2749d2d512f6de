use vstd::prelude::*;

pub mod api;
pub mod archive;
pub mod client;
pub mod codec;
pub mod db;
pub mod desktop;
pub mod engine;
pub mod export_json;
pub mod json;
pub mod keystore;
pub mod logs;
pub mod mail;
pub mod order;
pub mod password;
pub mod random;
pub mod ratelimit;
pub mod sealing;
pub mod server;
pub mod table;
pub mod text;
pub mod transfer;
pub mod wire;

verus! {

} // verus!
