//! Routing of a raw message to the factory of its type.
use vstd::prelude::*;
use crate::execution_report::{execution_report_fault, ExecutionReport};
use crate::fix::fix_message::FixMessage;
use crate::fix::messages::order_cancel_request::{order_cancel_request_fault, OrderCancelRequest};
use crate::fix::messages::order_status_request::{order_status_request_fault, OrderStatusRequest};
use crate::fix_message::{parsed_fields, FixMessage as Fields};
use crate::new_order::{new_order_fault, NewOrder};
use crate::text::same_text;

verus! {

/// Whether fields `m` make a message of one of the four known kinds.
pub open spec fn is_known(m: Map<Seq<char>, Seq<char>>) -> bool {
    ||| new_order_fault(m) is None
    ||| execution_report_fault(m) is None
    ||| order_cancel_request_fault(m) is None
    ||| order_status_request_fault(m) is None
}

/// Whether `r` is what raw message `raw` routes to: the variant that the
/// factory of its type code builds, or `Unknown` when the code is none of
/// `D`, `8`, `F`, `H` or the factory fails.
pub open spec fn routes_to(raw: Seq<char>, r: FixMessage) -> bool {
    let m = parsed_fields(raw);
    match r {
        FixMessage::NewOrder(o) => new_order_fault(m) is None && o.from_fields(m),
        FixMessage::ExecutionReport(o) => execution_report_fault(m) is None && o.from_fields(m),
        FixMessage::OrderCancelRequest(o) => order_cancel_request_fault(m) is None
            && o.from_fields(m),
        FixMessage::OrderStatusRequest(o) => order_status_request_fault(m) is None
            && o.from_fields(m),
        FixMessage::Unknown => !is_known(m),
    }
}

proof fn lemma_codes_distinct()
    ensures
        "D"@ != "8"@,
        "D"@ != "F"@,
        "D"@ != "H"@,
        "8"@ != "F"@,
        "8"@ != "H"@,
        "F"@ != "H"@,
{
    reveal_strlit("D");
    reveal_strlit("8");
    reveal_strlit("F");
    reveal_strlit("H");
    assert("D"@[0] == 'D' && "8"@[0] == '8' && "F"@[0] == 'F' && "H"@[0] == 'H');
}

/// A raw message whose type tag is absent, or holds none of the codes `D`,
/// `8`, `F`, `H`, routes to `Unknown`.
pub proof fn law_unknown_code(raw: Seq<char>)
    requires
        !parsed_fields(raw).contains_key("35"@) || {
            let code = parsed_fields(raw)["35"@];
            code != "D"@ && code != "8"@ && code != "F"@ && code != "H"@
        },
    ensures
        forall|r: FixMessage| routes_to(raw, r) ==> r is Unknown,
{
}

/// A raw message with one of the known type codes whose factory fails
/// (a field does not coerce, or a required one is missing) routes to
/// `Unknown`: the failure itself is not passed on.
pub proof fn law_failed_factory(raw: Seq<char>)
    requires
        parsed_fields(raw).contains_key("35"@),
        ({
            let m = parsed_fields(raw);
            let code = m["35"@];
            ||| code == "D"@ && new_order_fault(m) is Some
            ||| code == "8"@ && execution_report_fault(m) is Some
            ||| code == "F"@ && order_cancel_request_fault(m) is Some
            ||| code == "H"@ && order_status_request_fault(m) is Some
        }),
    ensures
        forall|r: FixMessage| routes_to(raw, r) ==> r is Unknown,
{
    lemma_codes_distinct();
}

/// Turns raw messages into typed ones.
pub struct FixMessageParser;

impl FixMessageParser {
    /// Splits `message` into its fields and builds the message of its type;
    /// every failure gives `Unknown`.
    pub fn parse_message(message: &str) -> (r: FixMessage)
        ensures
            routes_to(message@, r),
    {
        let fields = Fields::parse(message);
        let ghost m = fields@;
        proof {
            lemma_codes_distinct();
            reveal_strlit("");
        }
        let code = match fields.get("35") {
            Some(v) => v.as_str(),
            None => "",
        };
        assert(m.contains_key("35"@) ==> code@ == m["35"@]);
        assert(!m.contains_key("35"@) ==> code@.len() == 0);
        if same_text(code, "D") {
            match NewOrder::new(fields) {
                Ok(o) => FixMessage::NewOrder(o),
                Err(_) => FixMessage::Unknown,
            }
        } else if same_text(code, "8") {
            match ExecutionReport::new(fields) {
                Ok(o) => FixMessage::ExecutionReport(o),
                Err(_) => FixMessage::Unknown,
            }
        } else if same_text(code, "F") {
            match OrderCancelRequest::new(fields) {
                Ok(o) => FixMessage::OrderCancelRequest(o),
                Err(_) => FixMessage::Unknown,
            }
        } else if same_text(code, "H") {
            match OrderStatusRequest::new(fields) {
                Ok(o) => FixMessage::OrderStatusRequest(o),
                Err(_) => FixMessage::Unknown,
            }
        } else {
            FixMessage::Unknown
        }
    }
}

} // verus!
