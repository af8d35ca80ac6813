//! Verified core of an ACME client that proves control of domains hosted
//! at Alfahosting by publishing DNS-01 challenge records through the
//! provider's web interface.
//!
//! The library holds the decisions of the client: its configuration, the
//! browser scripts it plays against the customer area, the retry policy for
//! DNS challenges, the layout of the certificates it stores, and the search
//! for a login code in the mail inbox. Network, browser and file access stay
//! with the caller, which performs the actions the library asks for.

pub mod config;
pub mod text;
pub mod challenge;
pub mod certbot;
pub mod imap;
pub mod browse;
pub mod domains;
