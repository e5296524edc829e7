use crossbeam::channel::unbounded;
use fix_engine::fix::fix_message::FixMessage;
use fix_engine::fix::fix_message_parser::FixMessageParser;
use fix_engine::oms::order_management_system::{Action, OrderManagementSystem};

#[test]
fn decide_maps_each_kind_to_its_handler() {
    assert!(matches!(OrderManagementSystem::decide(None), Action::Stop));
    assert!(matches!(OrderManagementSystem::decide(Some(FixMessage::Unknown)), Action::LogUnknown));
    let order = FixMessageParser::parse_message("35=D|11=7|54=1|60=t|38=5|40=1|55=XYZ|");
    match OrderManagementSystem::decide(Some(order)) {
        Action::ProcessNewOrder(o) => assert_eq!(o.cl_ord_id, "7"),
        _ => panic!("Expected ProcessNewOrder"),
    }
    let status = FixMessageParser::parse_message("35=H|11=8|54=1|55=XYZ|60=t|");
    assert!(matches!(OrderManagementSystem::decide(Some(status)), Action::LogOrderStatusRequest(_)));
    let cancel = FixMessageParser::parse_message("35=F|11=9|41=8|54=1|55=XYZ|60=t|");
    assert!(matches!(OrderManagementSystem::decide(Some(cancel)), Action::LogOrderCancelRequest(_)));
}

#[test]
fn consumer_receives_every_item_in_producer_order_then_stops() {
    let (sender, receiver) = unbounded::<FixMessage>();
    let first = sender.clone();
    let second = sender.clone();
    drop(sender);
    for i in 0..5 {
        let a = format!("35=D|11=A{}|54=1|60=t|38=5|40=1|55=XYZ|", i);
        first.send(FixMessageParser::parse_message(&a)).unwrap();
        let b = format!("35=H|11=B{}|54=2|55=XYZ|60=t|", i);
        second.send(FixMessageParser::parse_message(&b)).unwrap();
    }
    second.send(FixMessageParser::parse_message("35=Z|")).unwrap();
    drop(first);
    drop(second);

    let oms = OrderManagementSystem::new(receiver);
    let mut orders = Vec::new();
    let mut statuses = Vec::new();
    let mut unknown = 0;
    loop {
        match oms.next_action() {
            Action::ProcessNewOrder(o) => orders.push(o.cl_ord_id),
            Action::LogOrderStatusRequest(s) => statuses.push(s.cl_ord_id),
            Action::LogUnknown => unknown += 1,
            Action::Stop => break,
            other => panic!("unexpected action {:?}", other),
        }
    }
    assert_eq!(orders, vec!["A0", "A1", "A2", "A3", "A4"]);
    assert_eq!(statuses, vec!["B0", "B1", "B2", "B3", "B4"]);
    assert_eq!(unknown, 1);
}
