//! Verified core of a minimal HTTP/1.0 proxy: recognisers for the lines of
//! an HTTP head, header handling, message heads, error replies, and the
//! decision machine that drives one proxied connection.

pub mod charclass;
pub mod httplineparser;
pub mod httperrors;
pub mod httpheader;
pub mod httpmessage;
pub mod httpreader;
pub mod laws;
pub mod proxy;
