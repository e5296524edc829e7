//! The order management system: takes messages off the channel one at a
//! time and says which handler each goes to.
use vstd::prelude::*;
use crossbeam::channel::Receiver;
use crate::execution_report::ExecutionReport;
use crate::fix::fix_message::FixMessage;
use crate::fix::messages::order_cancel_request::OrderCancelRequest;
use crate::fix::messages::order_status_request::OrderStatusRequest;
use crate::new_order::NewOrder;

verus! {

/// crossbeam's receiving end of a channel, held as an opaque value.
#[verifier::external_type_specification]
#[verifier::external_body]
#[verifier::reject_recursive_types(T)]
pub struct ExReceiver<T>(Receiver<T>);

/// Relies on crossbeam's `Receiver::recv`: blocks until a message is there,
/// and gives `None` once the channel is empty and every sender is gone.
/// Which message comes depends on the producers, so nothing is stated of it.
#[verifier::external_body]
fn receive(receiver: &Receiver<FixMessage>) -> (r: Option<FixMessage>) {
    receiver.recv().ok()
}

/// What the consumer does next.
#[derive(Debug)]
pub enum Action {
    /// Hand the order to the order processor.
    ProcessNewOrder(NewOrder),
    /// Record an execution report.
    LogExecutionReport(ExecutionReport),
    /// Record a cancel request.
    LogOrderCancelRequest(OrderCancelRequest),
    /// Record a status request.
    LogOrderStatusRequest(OrderStatusRequest),
    /// Record that a message of no known kind came.
    LogUnknown,
    /// Every producer is gone and the channel is drained: stop.
    Stop,
}

/// The action for what the channel gave.
pub open spec fn action_for(event: Option<FixMessage>) -> Action {
    match event {
        None => Action::Stop,
        Some(FixMessage::NewOrder(o)) => Action::ProcessNewOrder(o),
        Some(FixMessage::ExecutionReport(o)) => Action::LogExecutionReport(o),
        Some(FixMessage::OrderCancelRequest(o)) => Action::LogOrderCancelRequest(o),
        Some(FixMessage::OrderStatusRequest(o)) => Action::LogOrderStatusRequest(o),
        Some(FixMessage::Unknown) => Action::LogUnknown,
    }
}

/// The single consumer of the message channel.
pub struct OrderManagementSystem {
    receiver: Receiver<FixMessage>,
}

impl OrderManagementSystem {
    /// The channel end that the system drains.
    pub closed spec fn receiver(&self) -> Receiver<FixMessage> {
        self.receiver
    }

    /// A system that drains `receiver`.
    pub fn new(receiver: Receiver<FixMessage>) -> (r: Self)
        ensures
            r.receiver() == receiver,
    {
        OrderManagementSystem { receiver }
    }

    /// The action for what the channel gave: `None` when it is closed and
    /// drained, else the message received, each kind to its own handler.
    pub fn decide(event: Option<FixMessage>) -> (r: Action)
        ensures
            r == action_for(event),
    {
        match event {
            None => Action::Stop,
            Some(FixMessage::NewOrder(o)) => Action::ProcessNewOrder(o),
            Some(FixMessage::ExecutionReport(o)) => Action::LogExecutionReport(o),
            Some(FixMessage::OrderCancelRequest(o)) => Action::LogOrderCancelRequest(o),
            Some(FixMessage::OrderStatusRequest(o)) => Action::LogOrderStatusRequest(o),
            Some(FixMessage::Unknown) => Action::LogUnknown,
        }
    }

    /// Waits for the next message and gives the action for it; `Stop` only
    /// once the channel is closed and drained.
    pub fn next_action(&self) -> Action {
        let event = receive(&self.receiver);
        Self::decide(event)
    }
}

} // verus!
