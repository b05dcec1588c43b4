//! A FIX 4.2 session and message engine: a schema-driven codec between
//! tag=value wire bytes and ordered field maps, a message validator, durable
//! incoming/outgoing sequence counters, a keyed order ledger, and the session
//! state machine that ties them together (logon, heartbeats, sequence-gap
//! recovery, order lifecycle).
pub mod config;
pub mod dictionary;
pub mod intmap;
pub mod message_converter;
pub mod message_handling;
pub mod message_validator;
pub mod numbers;
pub mod orderstore;
pub mod payload;
pub mod sequence;
pub mod strmap;
pub mod strings;
