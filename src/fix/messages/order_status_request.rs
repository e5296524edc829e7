//! A request for the status of an order.
use vstd::prelude::*;
use crate::fix::fix_message::{
    has_type, or_else, parse_field, required_denotes, required_fault, type_fault, FieldError, FieldFault,
};
use crate::fix_message::FixMessage as Fields;

verus! {

/// A request for the status of an order (type code `H`).
#[derive(Debug)]
pub struct OrderStatusRequest {
    /// Tag 11: the client's id of the order.
    pub cl_ord_id: String,
    /// Tag 55: ticker symbol.
    pub symbol: String,
    /// Tag 54: side of the order.
    pub side: char,
    /// Tag 60: when the request was made.
    pub transact_time: String,
}

/// The first failure of building a status request from fields `m`: the type
/// code first, then the required attributes in turn, then the optional ones;
/// `None` when it can be built.
pub open spec fn order_status_request_fault(m: Map<Seq<char>, Seq<char>>) -> Option<FieldFault> {
    or_else(type_fault(m, "H"@),
    or_else(required_fault::<String>(m, "11"@),
    or_else(required_fault::<String>(m, "55"@),
    or_else(required_fault::<char>(m, "54"@),
    required_fault::<String>(m, "60"@)))))
}

impl OrderStatusRequest {
    /// Each attribute is what its tag in `m` coerces into.
    pub open spec fn from_fields(&self, m: Map<Seq<char>, Seq<char>>) -> bool {
        &&& required_denotes(self.cl_ord_id, m, "11"@)
        &&& required_denotes(self.symbol, m, "55"@)
        &&& required_denotes(self.side, m, "54"@)
        &&& required_denotes(self.transact_time, m, "60"@)
    }

    /// Builds a status request from its fields, failing with the first fault.
    pub fn new(fix_msg: Fields) -> (r: Result<Self, FieldError>)
        requires
            fix_msg.wf(),
        ensures
            match r {
                Ok(o) => order_status_request_fault(fix_msg@) is None && o.from_fields(fix_msg@),
                Err(e) => Some(e@) == order_status_request_fault(fix_msg@),
            },
    {
        if !has_type(&fix_msg, "H") {
            return Err(FieldError::WrongMessageType);
        }
        let cl_ord_id = match parse_field::<String>(&fix_msg, "11") {
            Ok(v) => v,
            Err(e) => return Err(e),
        };
        let symbol = match parse_field::<String>(&fix_msg, "55") {
            Ok(v) => v,
            Err(e) => return Err(e),
        };
        let side = match parse_field::<char>(&fix_msg, "54") {
            Ok(v) => v,
            Err(e) => return Err(e),
        };
        let transact_time = match parse_field::<String>(&fix_msg, "60") {
            Ok(v) => v,
            Err(e) => return Err(e),
        };
        Ok(OrderStatusRequest {
            cl_ord_id,
            symbol,
            side,
            transact_time,
        })
    }
}

} // verus!
