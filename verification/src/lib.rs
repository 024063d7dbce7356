//! Parsing of Debian package metadata: dependency lists, source package
//! stanzas and the derived build descriptions.

pub mod text;
pub mod error;
pub mod rfc822;
pub mod number;
pub mod checksum;
pub mod pkg;
pub mod release;
pub mod vcs;
pub mod ident;
pub mod source;
pub mod fields;
pub mod ninja;
pub mod lists;
pub mod deps;
