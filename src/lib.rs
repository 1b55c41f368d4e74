//! Status reporting: message kinds, verbosity levels, and backends that
//! receive lazily formatted messages.
pub mod template;
pub mod status;
pub mod capture;
