//! Parsing and validation of tag/value encoded trading messages.
//!
//! A raw message such as `35=D|11=12345|54=1|...` is split into a field
//! store, checked by the factory of its message type and routed to a typed
//! variant, which a consumer then dispatches to its handler.
pub mod text;
pub mod fix_message;
pub mod field_value;
pub mod fix;
pub mod new_order;
pub mod execution_report;
pub mod oms;
pub mod fix_file_reader;
