//! Request messages that refer to an order placed earlier.
pub mod order_cancel_request;
pub mod order_status_request;
