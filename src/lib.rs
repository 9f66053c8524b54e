//! Parsing, decoding and ingestion logic for a tag-annotated IRC chat feed,
//! with the decision logic of an access-token cache.

pub mod clearmsg_tag;
pub mod decode;
pub mod irc_parser;
pub mod messages;
pub mod number;
pub mod pipeline;
pub mod privmsg_tag;
pub mod tags;
pub mod text;
pub mod time;
pub mod token;
pub mod watch;
