//! Share-link parsing and configuration enrichment for sing-box style
//! proxy configurations.
//!
//! The crate is split in two parts: [`url_parser`] turns a share link such as
//! `vless://credential@host:443?sni=example.org` into a typed record, and
//! [`models`] holds the configuration document together with the operations
//! that merge a parsed link, or a resolver address, into it.
pub mod url_parser;
pub mod models;
