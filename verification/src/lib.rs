//! Verified core of a local browser time tracker: routing and body limits
//! of the local ingest endpoint, the replies it sends and their CORS
//! headers, the per-install ingest token, the check on incoming usage
//! events, the seeded domain rules and the application status report.

pub mod commands;
pub mod db;
pub mod http;
pub mod models;
pub mod text;
pub mod token;
