//! Sign-in and device bookkeeping for a password-vault server.
pub mod clock;
pub mod codec;
pub mod devices;
pub mod error;
pub mod flow;
pub mod headers;
pub mod identity;
pub mod journeys;
pub mod json;
pub mod request;
pub mod runs;
pub mod sessions;
pub mod sql;
pub mod table;
pub mod text;
pub mod tokens;
