//! Cleaning the links of chat messages: tracking parameters are dropped, hosts
//! of known social sites are moved to mirrors that embed well, and plain HTTP
//! is upgraded to HTTPS.
//!
//! `message` finds the links of a message from its entities, whose spans are
//! counted in UTF-16 code units (`utf16`), and reports those that `sanitize`
//! changes. `rules` holds the fixed allow-list and host table; `url_ops` the
//! calls into the `url` crate.
pub mod message;
pub mod rules;
pub mod sanitize;
pub mod url_ops;
pub mod utf16;
