//! A request to cancel an order.
use vstd::prelude::*;
use crate::field_value::Decimal;
use crate::fix::fix_message::{
    has_type, optional_denotes, optional_fault, or_else, parse_field, parse_field_optional, required_denotes, required_fault, type_fault, FieldError, FieldFault,
};
use crate::fix_message::FixMessage as Fields;

verus! {

/// A request to cancel an order (type code `F`).
#[derive(Debug)]
pub struct OrderCancelRequest {
    /// Tag 41: the client's id of the order to cancel.
    pub orig_cl_ord_id: String,
    /// Tag 11: the client's id of this request.
    pub cl_ord_id: String,
    /// Tag 54: side of the order.
    pub side: char,
    /// Tag 55: ticker symbol.
    pub symbol: String,
    /// Tag 60: when the request was made.
    pub transact_time: String,
    /// Tag 38: quantity of the order.
    pub order_qty: Option<Decimal>,
}

/// The first failure of building a cancel request from fields `m`: the type
/// code first, then the required attributes in turn, then the optional ones;
/// `None` when it can be built.
pub open spec fn order_cancel_request_fault(m: Map<Seq<char>, Seq<char>>) -> Option<FieldFault> {
    or_else(type_fault(m, "F"@),
    or_else(required_fault::<String>(m, "41"@),
    or_else(required_fault::<String>(m, "11"@),
    or_else(required_fault::<char>(m, "54"@),
    or_else(required_fault::<String>(m, "55"@),
    or_else(required_fault::<String>(m, "60"@),
    optional_fault::<Decimal>(m, "38"@)))))))
}

impl OrderCancelRequest {
    /// Each attribute is what its tag in `m` coerces into.
    pub open spec fn from_fields(&self, m: Map<Seq<char>, Seq<char>>) -> bool {
        &&& required_denotes(self.orig_cl_ord_id, m, "41"@)
        &&& required_denotes(self.cl_ord_id, m, "11"@)
        &&& required_denotes(self.side, m, "54"@)
        &&& required_denotes(self.symbol, m, "55"@)
        &&& required_denotes(self.transact_time, m, "60"@)
        &&& optional_denotes(self.order_qty, m, "38"@)
    }

    /// Builds a cancel request from its fields, failing with the first fault.
    pub fn new(fix_msg: Fields) -> (r: Result<Self, FieldError>)
        requires
            fix_msg.wf(),
        ensures
            match r {
                Ok(o) => order_cancel_request_fault(fix_msg@) is None && o.from_fields(fix_msg@),
                Err(e) => Some(e@) == order_cancel_request_fault(fix_msg@),
            },
    {
        if !has_type(&fix_msg, "F") {
            return Err(FieldError::WrongMessageType);
        }
        let orig_cl_ord_id = match parse_field::<String>(&fix_msg, "41") {
            Ok(v) => v,
            Err(e) => return Err(e),
        };
        let cl_ord_id = match parse_field::<String>(&fix_msg, "11") {
            Ok(v) => v,
            Err(e) => return Err(e),
        };
        let side = match parse_field::<char>(&fix_msg, "54") {
            Ok(v) => v,
            Err(e) => return Err(e),
        };
        let symbol = match parse_field::<String>(&fix_msg, "55") {
            Ok(v) => v,
            Err(e) => return Err(e),
        };
        let transact_time = match parse_field::<String>(&fix_msg, "60") {
            Ok(v) => v,
            Err(e) => return Err(e),
        };
        let order_qty = match parse_field_optional::<Decimal>(&fix_msg, "38") {
            Ok(v) => v,
            Err(e) => return Err(e),
        };
        Ok(OrderCancelRequest {
            orig_cl_ord_id,
            cl_ord_id,
            side,
            symbol,
            transact_time,
            order_qty,
        })
    }
}

} // verus!
