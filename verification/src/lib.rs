//! A small DNS resolver core: the wire codec, the rules by which a query is
//! answered, the normal form of upstream answers and the layout of the
//! record cache.

pub mod database;
pub mod decimal;
pub mod dns_request;
pub mod google_dns;
pub mod handle_data;
pub mod text;
pub mod views;
