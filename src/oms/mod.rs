//! The consumer that drains the message channel.
pub mod order_management_system;
