//! The order a client places.
use vstd::prelude::*;
use crate::field_value::Decimal;
use crate::fix::fix_message::{
    has_type, optional_denotes, optional_fault, or_else, parse_field, parse_field_optional,
    required_denotes, required_fault, type_fault, FieldError, FieldFault,
};
use crate::fix_message::{parsed_fields, FixMessage as Fields};

verus! {

/// A new order (type code `D`).
#[derive(Debug)]
pub struct NewOrder {
    /// Tag 11: the client's id of the order.
    pub cl_ord_id: String,
    /// Tag 54: side of the order (`1` buy, `2` sell).
    pub side: char,
    /// Tag 60: when the order was placed.
    pub transact_time: String,
    /// Tag 38: quantity ordered.
    pub order_qty: Decimal,
    /// Tag 40: order type (`1` market, `2` limit).
    pub ord_type: char,
    /// Tag 44: limit price.
    pub price: Option<Decimal>,
    /// Tag 55: ticker symbol of the instrument.
    pub symbol: String,
    /// Tag 59: time in force (`0` day).
    pub time_in_force: Option<char>,
    /// Tag 1: account.
    pub account: Option<String>,
    /// Tag 15: currency.
    pub currency: Option<String>,
    /// Tag 18: execution instructions.
    pub exec_inst: Option<String>,
}

/// The first failure of building a new order from fields `m`: the type
/// code first, then the required attributes in turn, then the optional ones;
/// `None` when it can be built.
pub open spec fn new_order_fault(m: Map<Seq<char>, Seq<char>>) -> Option<FieldFault> {
    or_else(type_fault(m, "D"@),
    or_else(required_fault::<String>(m, "11"@),
    or_else(required_fault::<char>(m, "54"@),
    or_else(required_fault::<String>(m, "60"@),
    or_else(required_fault::<Decimal>(m, "38"@),
    or_else(required_fault::<char>(m, "40"@),
    or_else(required_fault::<String>(m, "55"@),
    or_else(optional_fault::<Decimal>(m, "44"@),
    or_else(optional_fault::<char>(m, "59"@),
    or_else(optional_fault::<String>(m, "1"@),
    or_else(optional_fault::<String>(m, "15"@),
    optional_fault::<String>(m, "18"@))))))))))))
}

/// A raw new order (`35=D`) without the order-quantity tag (`38`) fails with
/// `MissingField` for that tag, where the attributes read before the quantity
/// (tags `11`, `54`, `60`) are valid.
pub proof fn law_missing_quantity(raw: Seq<char>)
    requires
        type_fault(parsed_fields(raw), "D"@) is None,
        required_fault::<String>(parsed_fields(raw), "11"@) is None,
        required_fault::<char>(parsed_fields(raw), "54"@) is None,
        required_fault::<String>(parsed_fields(raw), "60"@) is None,
        !parsed_fields(raw).contains_key("38"@),
    ensures
        new_order_fault(parsed_fields(raw)) == Some(FieldFault::Missing("38"@)),
{
}

impl NewOrder {
    /// Each attribute is what its tag in `m` coerces into.
    pub open spec fn from_fields(&self, m: Map<Seq<char>, Seq<char>>) -> bool {
        &&& required_denotes(self.cl_ord_id, m, "11"@)
        &&& required_denotes(self.side, m, "54"@)
        &&& required_denotes(self.transact_time, m, "60"@)
        &&& required_denotes(self.order_qty, m, "38"@)
        &&& required_denotes(self.ord_type, m, "40"@)
        &&& optional_denotes(self.price, m, "44"@)
        &&& required_denotes(self.symbol, m, "55"@)
        &&& optional_denotes(self.time_in_force, m, "59"@)
        &&& optional_denotes(self.account, m, "1"@)
        &&& optional_denotes(self.currency, m, "15"@)
        &&& optional_denotes(self.exec_inst, m, "18"@)
    }

    /// Builds a new order from its fields, failing with the first fault.
    pub fn new(fix_msg: Fields) -> (r: Result<Self, FieldError>)
        requires
            fix_msg.wf(),
        ensures
            match r {
                Ok(o) => new_order_fault(fix_msg@) is None && o.from_fields(fix_msg@),
                Err(e) => Some(e@) == new_order_fault(fix_msg@),
            },
    {
        if !has_type(&fix_msg, "D") {
            return Err(FieldError::WrongMessageType);
        }
        let cl_ord_id = match parse_field::<String>(&fix_msg, "11") {
            Ok(v) => v,
            Err(e) => return Err(e),
        };
        let side = match parse_field::<char>(&fix_msg, "54") {
            Ok(v) => v,
            Err(e) => return Err(e),
        };
        let transact_time = match parse_field::<String>(&fix_msg, "60") {
            Ok(v) => v,
            Err(e) => return Err(e),
        };
        let order_qty = match parse_field::<Decimal>(&fix_msg, "38") {
            Ok(v) => v,
            Err(e) => return Err(e),
        };
        let ord_type = match parse_field::<char>(&fix_msg, "40") {
            Ok(v) => v,
            Err(e) => return Err(e),
        };
        let symbol = match parse_field::<String>(&fix_msg, "55") {
            Ok(v) => v,
            Err(e) => return Err(e),
        };
        let price = match parse_field_optional::<Decimal>(&fix_msg, "44") {
            Ok(v) => v,
            Err(e) => return Err(e),
        };
        let time_in_force = match parse_field_optional::<char>(&fix_msg, "59") {
            Ok(v) => v,
            Err(e) => return Err(e),
        };
        let account = match parse_field_optional::<String>(&fix_msg, "1") {
            Ok(v) => v,
            Err(e) => return Err(e),
        };
        let currency = match parse_field_optional::<String>(&fix_msg, "15") {
            Ok(v) => v,
            Err(e) => return Err(e),
        };
        let exec_inst = match parse_field_optional::<String>(&fix_msg, "18") {
            Ok(v) => v,
            Err(e) => return Err(e),
        };
        Ok(NewOrder {
            cl_ord_id,
            side,
            transact_time,
            order_qty,
            ord_type,
            price,
            symbol,
            time_in_force,
            account,
            currency,
            exec_inst,
        })
    }
}

} // verus!
