//! Managed system services: products, installations, jobs and their protocol.

pub mod acceptance;
pub mod account;
pub mod activation;
pub mod agent;
pub mod builder;
pub mod callers;
pub mod changes;
pub mod client;
pub mod conduct;
pub mod course;
pub mod details;
pub mod installation;
pub mod job;
pub mod journal;
pub mod lifecycle;
pub mod manifest;
pub mod operation;
pub mod preparation;
pub mod product;
pub mod protocol;
pub mod recovery;
pub mod release;
pub mod safeguards;
pub mod server;
pub mod systemd;
pub mod transaction;
pub mod unit_reading;
pub mod unit_text;
pub mod user_install;
pub mod user_program;
pub mod worker;
