//! Verified core of a terminal teletext viewer: the markup-to-style parser
//! and the navigation state machine, with the bounded page-number domain.

pub mod cli;
pub mod dom;
pub mod error;
pub mod mosaic;
pub mod nav;
pub mod page;
pub mod strutil;
pub mod texttv;
