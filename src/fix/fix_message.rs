//! The closed set of message kinds, the failures of their construction, and
//! the reading of one attribute out of a field store.
use vstd::prelude::*;
use crate::execution_report::ExecutionReport;
use crate::field_value::FieldValue;
use crate::fix::messages::order_cancel_request::OrderCancelRequest;
use crate::fix::messages::order_status_request::OrderStatusRequest;
use crate::fix_message::FixMessage as Fields;
use crate::new_order::NewOrder;
use crate::text::same_text;

verus! {

/// One message, of a kind the router knows or `Unknown`.
#[derive(Debug)]
pub enum FixMessage {
    NewOrder(NewOrder),
    ExecutionReport(ExecutionReport),
    OrderCancelRequest(OrderCancelRequest),
    OrderStatusRequest(OrderStatusRequest),
    Unknown,
}

impl FixMessage {
    /// The outcome reported to whoever submitted the raw message: accepted
    /// for a message of a known kind, not for `Unknown`.
    pub fn is_accepted(&self) -> (r: bool)
        ensures
            r == !(self is Unknown),
    {
        match self {
            FixMessage::Unknown => false,
            _ => true,
        }
    }
}

/// Why a message could not be built from its fields.
#[derive(Debug, PartialEq, Eq)]
pub enum FieldError {
    /// A required tag is absent.
    MissingField(String),
    /// The value of a tag does not coerce into the attribute's type.
    InvalidFieldFormat(String),
    /// The message-type tag does not hold the code of the factory.
    WrongMessageType,
}

/// What a `FieldError` says, over the characters of its tag.
pub enum FieldFault {
    /// The tag is absent.
    Missing(Seq<char>),
    /// The value of the tag does not coerce.
    Invalid(Seq<char>),
    /// The type code is not the factory's.
    WrongType,
}

impl View for FieldError {
    type V = FieldFault;

    open spec fn view(&self) -> FieldFault {
        match self {
            FieldError::MissingField(t) => FieldFault::Missing(t@),
            FieldError::InvalidFieldFormat(t) => FieldFault::Invalid(t@),
            FieldError::WrongMessageType => FieldFault::WrongType,
        }
    }
}

impl FieldError {
    /// The error as a line of text: `Missing Tag 11`, `Invalid Tag 11`, or
    /// `Invalid message type`.
    pub fn message(&self) -> (r: String)
        ensures
            r@ == match self@ {
                FieldFault::Missing(t) => "Missing Tag "@ + t,
                FieldFault::Invalid(t) => "Invalid Tag "@ + t,
                FieldFault::WrongType => "Invalid message type"@,
            },
    {
        match self {
            FieldError::MissingField(t) => {
                let mut r = String::from_str("Missing Tag ");
                r.append(t.as_str());
                r
            },
            FieldError::InvalidFieldFormat(t) => {
                let mut r = String::from_str("Invalid Tag ");
                r.append(t.as_str());
                r
            },
            FieldError::WrongMessageType => String::from_str("Invalid message type"),
        }
    }
}

/// The first of two outcomes that is a failure, if either is.
pub open spec fn or_else(a: Option<FieldFault>, b: Option<FieldFault>) -> Option<FieldFault> {
    if a is Some {
        a
    } else {
        b
    }
}

/// The failure of a message whose type tag (`35`) does not hold `code`.
pub open spec fn type_fault(m: Map<Seq<char>, Seq<char>>, code: Seq<char>) -> Option<FieldFault> {
    if m.contains_key("35"@) && m["35"@] == code {
        None
    } else {
        Some(FieldFault::WrongType)
    }
}

/// The failure of reading required attribute `tag` as a `T`, if any.
pub open spec fn required_fault<T: FieldValue>(
    m: Map<Seq<char>, Seq<char>>,
    tag: Seq<char>,
) -> Option<FieldFault> {
    if !m.contains_key(tag) {
        Some(FieldFault::Missing(tag))
    } else if !T::accepts(m[tag]) {
        Some(FieldFault::Invalid(tag))
    } else {
        None
    }
}

/// The failure of reading optional attribute `tag` as a `T`, if any.
pub open spec fn optional_fault<T: FieldValue>(
    m: Map<Seq<char>, Seq<char>>,
    tag: Seq<char>,
) -> Option<FieldFault> {
    if m.contains_key(tag) && !T::accepts(m[tag]) {
        Some(FieldFault::Invalid(tag))
    } else {
        None
    }
}

/// `v` is what the value of required tag `tag` coerces into.
pub open spec fn required_denotes<T: FieldValue>(
    v: T,
    m: Map<Seq<char>, Seq<char>>,
    tag: Seq<char>,
) -> bool {
    m.contains_key(tag) && v.denotes(m[tag])
}

/// `v` is what the value of optional tag `tag` coerces into, and `None`
/// where the tag is absent.
pub open spec fn optional_denotes<T: FieldValue>(
    v: Option<T>,
    m: Map<Seq<char>, Seq<char>>,
    tag: Seq<char>,
) -> bool {
    match v {
        Some(x) => m.contains_key(tag) && x.denotes(m[tag]),
        None => !m.contains_key(tag),
    }
}

/// Whether the type tag of `fields` holds `code`.
pub fn has_type(fields: &Fields, code: &str) -> (r: bool)
    requires
        fields.wf(),
    ensures
        r == (type_fault(fields@, code@) is None),
{
    match fields.get("35") {
        Some(v) => same_text(v.as_str(), code),
        None => false,
    }
}

/// Reads required attribute `tag` as a `T`: `MissingField` where the tag is
/// absent, `InvalidFieldFormat` where its value does not coerce.
pub fn parse_field<T: FieldValue>(fields: &Fields, tag: &str) -> (r: Result<T, FieldError>)
    requires
        fields.wf(),
    ensures
        match r {
            Ok(v) => required_fault::<T>(fields@, tag@) is None && required_denotes(v, fields@, tag@),
            Err(e) => Some(e@) == required_fault::<T>(fields@, tag@),
        },
{
    match fields.get(tag) {
        Some(value) => match T::coerce(value) {
            Some(v) => Ok(v),
            None => Err(FieldError::InvalidFieldFormat(String::from_str(tag))),
        },
        None => Err(FieldError::MissingField(String::from_str(tag))),
    }
}

/// Reads optional attribute `tag` as a `T`: `None` where the tag is absent,
/// `InvalidFieldFormat` where its value does not coerce.
pub fn parse_field_optional<T: FieldValue>(fields: &Fields, tag: &str) -> (r: Result<
    Option<T>,
    FieldError,
>)
    requires
        fields.wf(),
    ensures
        match r {
            Ok(v) => optional_fault::<T>(fields@, tag@) is None && optional_denotes(v, fields@, tag@),
            Err(e) => Some(e@) == optional_fault::<T>(fields@, tag@),
        },
{
    match fields.get(tag) {
        Some(value) => match T::coerce(value) {
            Some(v) => Ok(Some(v)),
            None => Err(FieldError::InvalidFieldFormat(String::from_str(tag))),
        },
        None => Ok(None),
    }
}

} // verus!
