//! A small client that ships single log lines to a LogDNA / Mezmo ingestion
//! endpoint.
//!
//! The library decides everything about a submission: the session it belongs
//! to, the timestamp it carries, the URL it is posted to and the record it
//! holds. Sending the request over HTTP is left to the caller.
pub mod clock;
pub mod logger;
pub mod payload;
pub mod query;
