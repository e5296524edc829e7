//! Typed messages, their validated construction and the routing of raw text.
pub mod fix_message;
pub mod fix_message_parser;
pub mod messages;
