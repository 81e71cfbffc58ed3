//! Parsers for IMAP server responses.

pub mod base;
pub mod combinators;
pub mod tokens;
pub mod body;
pub mod envelope;
pub mod body_structure;
pub mod rfc3501;
pub mod mailbox_data;
pub mod msg_att;
pub mod quota;
pub mod acl;
pub mod id;
pub mod metadata;
pub mod response;
pub mod bodystructure;
pub mod status_line;
