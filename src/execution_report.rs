//! The report of what became of an order.
use vstd::prelude::*;
use crate::field_value::Decimal;
use crate::fix::fix_message::{
    has_type, optional_denotes, optional_fault, or_else, parse_field, parse_field_optional, required_denotes, required_fault, type_fault, FieldError, FieldFault,
};
use crate::fix_message::FixMessage as Fields;

verus! {

/// An execution report (type code `8`).
#[derive(Debug)]
pub struct ExecutionReport {
    /// Tag 11: the client's id of the order.
    pub cl_ord_id: String,
    /// Tag 37: the broker's id of the order.
    pub order_id: String,
    /// Tag 17: id of the execution.
    pub exec_id: String,
    /// Tag 150: type of execution (`0` new, `F` fill).
    pub exec_type: char,
    /// Tag 39: status of the order (`0` new, `2` filled).
    pub ord_status: char,
    /// Tag 54: side of the order.
    pub side: char,
    /// Tag 151: quantity still open.
    pub leaves_qty: Decimal,
    /// Tag 14: quantity filled so far.
    pub cum_qty: Decimal,
    /// Tag 6: average price of the fills.
    pub avg_px: Option<Decimal>,
    /// Tag 55: ticker symbol.
    pub symbol: String,
    /// Tag 60: when the execution took place.
    pub transact_time: String,
    /// Tag 38: quantity ordered.
    pub order_qty: Decimal,
    /// Tag 44: price of the order.
    pub price: Decimal,
}

/// The first failure of building an execution report from fields `m`: the type
/// code first, then the required attributes in turn, then the optional ones;
/// `None` when it can be built.
pub open spec fn execution_report_fault(m: Map<Seq<char>, Seq<char>>) -> Option<FieldFault> {
    or_else(type_fault(m, "8"@),
    or_else(required_fault::<String>(m, "11"@),
    or_else(required_fault::<String>(m, "37"@),
    or_else(required_fault::<String>(m, "17"@),
    or_else(required_fault::<char>(m, "150"@),
    or_else(required_fault::<char>(m, "39"@),
    or_else(required_fault::<char>(m, "54"@),
    or_else(required_fault::<Decimal>(m, "151"@),
    or_else(required_fault::<Decimal>(m, "14"@),
    or_else(required_fault::<String>(m, "55"@),
    or_else(required_fault::<String>(m, "60"@),
    or_else(required_fault::<Decimal>(m, "38"@),
    or_else(required_fault::<Decimal>(m, "44"@),
    optional_fault::<Decimal>(m, "6"@))))))))))))))
}

impl ExecutionReport {
    /// Each attribute is what its tag in `m` coerces into.
    pub open spec fn from_fields(&self, m: Map<Seq<char>, Seq<char>>) -> bool {
        &&& required_denotes(self.cl_ord_id, m, "11"@)
        &&& required_denotes(self.order_id, m, "37"@)
        &&& required_denotes(self.exec_id, m, "17"@)
        &&& required_denotes(self.exec_type, m, "150"@)
        &&& required_denotes(self.ord_status, m, "39"@)
        &&& required_denotes(self.side, m, "54"@)
        &&& required_denotes(self.leaves_qty, m, "151"@)
        &&& required_denotes(self.cum_qty, m, "14"@)
        &&& optional_denotes(self.avg_px, m, "6"@)
        &&& required_denotes(self.symbol, m, "55"@)
        &&& required_denotes(self.transact_time, m, "60"@)
        &&& required_denotes(self.order_qty, m, "38"@)
        &&& required_denotes(self.price, m, "44"@)
    }

    /// Builds an execution report from its fields, failing with the first fault.
    pub fn new(fix_msg: Fields) -> (r: Result<Self, FieldError>)
        requires
            fix_msg.wf(),
        ensures
            match r {
                Ok(o) => execution_report_fault(fix_msg@) is None && o.from_fields(fix_msg@),
                Err(e) => Some(e@) == execution_report_fault(fix_msg@),
            },
    {
        if !has_type(&fix_msg, "8") {
            return Err(FieldError::WrongMessageType);
        }
        let cl_ord_id = match parse_field::<String>(&fix_msg, "11") {
            Ok(v) => v,
            Err(e) => return Err(e),
        };
        let order_id = match parse_field::<String>(&fix_msg, "37") {
            Ok(v) => v,
            Err(e) => return Err(e),
        };
        let exec_id = match parse_field::<String>(&fix_msg, "17") {
            Ok(v) => v,
            Err(e) => return Err(e),
        };
        let exec_type = match parse_field::<char>(&fix_msg, "150") {
            Ok(v) => v,
            Err(e) => return Err(e),
        };
        let ord_status = match parse_field::<char>(&fix_msg, "39") {
            Ok(v) => v,
            Err(e) => return Err(e),
        };
        let side = match parse_field::<char>(&fix_msg, "54") {
            Ok(v) => v,
            Err(e) => return Err(e),
        };
        let leaves_qty = match parse_field::<Decimal>(&fix_msg, "151") {
            Ok(v) => v,
            Err(e) => return Err(e),
        };
        let cum_qty = match parse_field::<Decimal>(&fix_msg, "14") {
            Ok(v) => v,
            Err(e) => return Err(e),
        };
        let symbol = match parse_field::<String>(&fix_msg, "55") {
            Ok(v) => v,
            Err(e) => return Err(e),
        };
        let transact_time = match parse_field::<String>(&fix_msg, "60") {
            Ok(v) => v,
            Err(e) => return Err(e),
        };
        let order_qty = match parse_field::<Decimal>(&fix_msg, "38") {
            Ok(v) => v,
            Err(e) => return Err(e),
        };
        let price = match parse_field::<Decimal>(&fix_msg, "44") {
            Ok(v) => v,
            Err(e) => return Err(e),
        };
        let avg_px = match parse_field_optional::<Decimal>(&fix_msg, "6") {
            Ok(v) => v,
            Err(e) => return Err(e),
        };
        Ok(ExecutionReport {
            cl_ord_id,
            order_id,
            exec_id,
            exec_type,
            ord_status,
            side,
            leaves_qty,
            cum_qty,
            avg_px,
            symbol,
            transact_time,
            order_qty,
            price,
        })
    }
}

} // verus!
