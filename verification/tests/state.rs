use for_mqtt::data::common::{Id, Msg, PayloadTy, PublicStatus, QoS, SubscribeStatus};
use for_mqtt::data::hierarchy::{AppData, AppError, MAX_MSGS};
use for_mqtt::data::{AppEvent, Effect};
use for_mqtt::mqtt::data::{SubscribeAck, SubscribeReasonCode};
use for_mqtt::util::db::{ArcDb, DbWrite, DEFAULT_ADDR, DEFAULT_PORT, OPTION};
use for_mqtt::ForError;

fn empty_app() -> AppData {
    let mut db = ArcDb { index: 0, ids: Vec::new() };
    let (data, writes) = db.read_app_data(None);
    assert_eq!(writes.len(), 1);
    data
}

/// An application with one saved, selected broker, connected.
fn connected_app() -> (AppData, usize) {
    let mut data = empty_app();
    data.touch_add_broker();
    let id = data.brokers[0].id;
    data.touch_save_broker().unwrap();
    let effects = data.touch_connect_broker_selected().unwrap();
    assert!(effects.iter().any(|e| matches!(e, Effect::Send(AppEvent::ToConnect(_)))));
    data.update_to_connected(id, false).unwrap();
    (data, id)
}

#[test]
fn new_broker_has_defaults() {
    let mut db = ArcDb { index: 7, ids: Vec::new() };
    let b = db.new_broker();
    assert_eq!(db.index, 8);
    assert_eq!(b.id, 7);
    assert_eq!(b.addr, DEFAULT_ADDR);
    assert_eq!(b.port, Some(DEFAULT_PORT));
    assert_eq!(b.params, OPTION);
    assert!(!b.stored && !b.selected && !b.use_credentials && !b.tls);
    assert!(b.msgs.is_empty() && b.subscribe_topics.is_empty());
}

#[test]
fn add_broker_selects_it() {
    let mut data = empty_app();
    data.touch_add_broker();
    assert_eq!(data.brokers.len(), 1);
    assert!(data.brokers[0].selected);
    assert!(data.display_broker_info);
    assert_eq!(data.get_selected_broker_id(), Some(data.brokers[0].id));
    // An unsaved broker is selected again rather than a second one added.
    data.touch_add_broker();
    assert_eq!(data.brokers.len(), 1);
}

#[test]
fn save_then_delete_restores_ids() {
    let mut db = ArcDb { index: 3, ids: vec![0, 1] };
    let b = db.new_broker();
    let writes = db.save_broker(b.clone_to_db());
    assert_eq!(db.ids, vec![0, 1, 3]);
    assert_eq!(writes.len(), 2);
    assert!(matches!(&writes[0], DbWrite::Ids(ids) if *ids == vec![0, 1, 3]));
    assert!(matches!(&writes[1], DbWrite::Broker(r) if r.id == 3));
    // Saving again writes the record only.
    let again = db.save_broker(b.clone_to_db());
    assert_eq!(again.len(), 1);
    let writes = db.delete_broker(3);
    assert_eq!(db.ids, vec![0, 1]);
    assert!(matches!(&writes[1], DbWrite::RemoveBroker(3)));
    assert!(db.delete_broker(9).is_empty());
}

#[test]
fn read_app_data_renumbers_brokers() {
    let mut source = ArcDb { index: 0, ids: Vec::new() };
    let mut first = source.new_broker().clone_to_db();
    first.id = 10;
    let mut third = source.new_broker().clone_to_db();
    third.id = 30;
    let his = for_mqtt::data::common::SubscribeHis {
        id: Id(5),
        broker_id: 30,
        selected: false,
        topic: "t/#".to_string(),
        qos: QoS::AtLeastOnce,
        payload_ty: PayloadTy::Json,
    };
    let stored = vec![Some((first, Vec::new())), None, Some((third, vec![his]))];
    let mut db = ArcDb { index: 0, ids: Vec::new() };
    let (data, writes) = db.read_app_data(Some(stored));
    assert_eq!(db.index, 3);
    assert_eq!(db.ids, vec![0, 2]);
    assert_eq!(data.brokers.len(), 2);
    assert_eq!(data.brokers[0].id, 0);
    assert_eq!(data.brokers[1].id, 2);
    assert!(data.brokers[1].stored);
    assert_eq!(data.brokers[1].subscribe_hises.len(), 1);
    assert_eq!(data.brokers[1].subscribe_hises[0].broker_id, 30);
    assert_eq!(data.brokers[1].subscribe_hises[0].id, Id(5));
    assert_eq!(data.brokers[1].subscribe_hises[0].topic, "t/#");
    assert_eq!(writes.len(), 5);
    assert!(matches!(&writes[0], DbWrite::Ids(ids) if *ids == vec![0, 2]));
    assert!(matches!(&writes[1], DbWrite::SubscribeHises(0, h) if h.is_empty()));
    assert!(matches!(&writes[2], DbWrite::SubscribeHises(2, h) if h.len() == 1 && h[0].broker_id == 30));
    assert!(matches!(&writes[3], DbWrite::Broker(r) if r.id == 0));
    assert!(matches!(&writes[4], DbWrite::Broker(r) if r.id == 2));
}

#[test]
fn connecting_needs_address_and_port() {
    let mut data = empty_app();
    data.touch_add_broker();
    data.brokers[0].addr = String::new();
    let r = data.touch_connect_broker_selected();
    assert!(matches!(r, Err(AppError::Input(ForError::NotEmpty))));
    data.brokers[0].addr = "localhost".to_string();
    data.brokers[0].port = None;
    let r = data.touch_connect_broker_selected();
    assert!(matches!(r, Err(AppError::Input(ForError::InvalidPort))));
}

#[test]
fn connecting_opens_a_tab() {
    let (data, id) = connected_app();
    assert_eq!(data.broker_tabs, vec![id]);
    let b = data.find_broker_by_id(id).unwrap();
    assert!(b.tab_status.connected);
}

#[test]
fn unknown_broker_is_reported() {
    let mut data = empty_app();
    assert!(matches!(data.find_broker_by_id(4), Err(AppError::BrokerNotFound(4))));
    assert!(matches!(data.pub_ack(4, 1), Err(AppError::BrokerNotFound(4))));
    assert!(matches!(data.find_broker_by_index(0), Err(AppError::BrokerIndexNotFound(0))));
    assert!(matches!(data.get_selected_broker(), Err(AppError::NoSelectedBroker)));
    assert!(matches!(data.touch_save_broker(), Err(AppError::NoSelectedBroker)));
}

#[test]
fn received_messages_are_capped() {
    let (mut data, id) = connected_app();
    for n in 0..(MAX_MSGS + 5) {
        let r = data.receive_msg(id, format!("t/{}", n), vec![b'x'], QoS::AtMostOnce, "now".to_string());
        assert!(r.is_ok());
    }
    let b = data.find_broker_by_id(id).unwrap();
    assert_eq!(b.msgs.len(), MAX_MSGS);
    assert_eq!(b.msgs[0].topic(), "t/5");
    assert_eq!(b.msgs[MAX_MSGS - 1].topic(), &format!("t/{}", MAX_MSGS + 4));
}

#[test]
fn publish_then_ack_marks_success() {
    let (mut data, id) = connected_app();
    {
        let b = data.find_mut_broker_by_id(id).unwrap();
        b.public_input.topic = "a/b".to_string();
        b.public_input.msg = "hi".to_string();
        b.public_input.qos = QoS::AtLeastOnce;
    }
    let effects = data.publish(id, 42, "12:00".to_string()).unwrap();
    assert!(matches!(&effects[0], Effect::Send(AppEvent::ToPublish(p)) if p.trace_id == 42 && p.msg == b"hi".to_vec()));
    let b = data.find_broker_by_id(id).unwrap();
    assert!(matches!(&b.msgs[0], Msg::Public(m) if m.status == PublicStatus::Ing && m.qos == "1"));
    data.pub_ack(id, 42).unwrap();
    let b = data.find_broker_by_id(id).unwrap();
    assert!(b.msgs[0].is_sucess());
    assert!(matches!(data.pub_ack(id, 43), Err(AppError::PublishNotFound(43))));
}

#[test]
fn publish_refuses_odd_hex() {
    let (mut data, id) = connected_app();
    {
        let b = data.find_mut_broker_by_id(id).unwrap();
        b.public_input.payload_ty = PayloadTy::Hex;
        b.public_input.msg = "abc".to_string();
    }
    let r = data.publish(id, 1, "t".to_string());
    assert!(matches!(r, Err(AppError::Payload(_))));
}

#[test]
fn subscribe_ack_and_unsubscribe() {
    let (mut data, id) = connected_app();
    data.find_mut_broker_by_id(id).unwrap().subscribe_input.topic = "sensors/#".to_string();
    let effects = data.touch_subscribe_by_input(id, 7, Id(1)).unwrap();
    assert!(effects.iter().any(|e| matches!(e, Effect::Send(AppEvent::ToSubscribe(..)))));
    let b = data.find_broker_by_id(id).unwrap();
    assert_eq!(b.subscribe_topics.len(), 1);
    assert_eq!(b.subscribe_topics[0].status, SubscribeStatus::SubscribeIng);
    assert_eq!(b.subscribe_hises.len(), 1);
    data.sub_ack(id, SubscribeAck { id: 7, acks: vec![SubscribeReasonCode::QoS1] }).unwrap();
    let b = data.find_broker_by_id(id).unwrap();
    assert!(b.subscribe_topics[0].is_sucess());

    let effects = data.touch_unsubscribe(id, 7).unwrap();
    assert!(effects.iter().any(|e| matches!(e, Effect::Send(AppEvent::ToUnsubscribeIng(ev)) if ev.subscribe_pk_id == 7 && ev.topic == "sensors/#")));
    data.to_unsubscribe(id, 7, 9).unwrap();
    assert!(matches!(data.unsubscribe_ack(id, 8), Err(AppError::UnsubscribeTracingNotFound(8))));
    data.unsubscribe_ack(id, 9).unwrap();
    let b = data.find_broker_by_id(id).unwrap();
    assert!(b.subscribe_topics.is_empty());
    assert!(b.unsubscribe_ing.is_empty());
}

#[test]
fn clicking_a_tab_selects_its_broker() {
    let mut data = empty_app();
    data.touch_add_broker();
    data.touch_save_broker().unwrap();
    data.touch_add_broker();
    let second = data.brokers[0].id;
    let first = data.brokers[1].id;
    data.touch_click_tab(first).unwrap();
    assert_eq!(data.get_selected_broker_id(), Some(first));
    data.touch_click_tab(second).unwrap();
    assert_eq!(data.get_selected_broker_id(), Some(second));
    data.unselect_broker();
    assert_eq!(data.get_selected_broker_id(), None);
}

#[test]
fn closing_a_tab_disconnects() {
    let (mut data, id) = connected_app();
    let effects = data.touch_close_broker_tab(id).unwrap();
    assert!(data.broker_tabs.is_empty());
    assert!(effects.iter().any(|e| matches!(e, Effect::Send(AppEvent::ToDisconnect(x)) if *x == id)));
}

#[test]
fn delete_selected_broker() {
    let mut data = empty_app();
    data.touch_add_broker();
    data.touch_save_broker().unwrap();
    let id = data.brokers[0].id;
    let effects = data.touch_delete_broker_selected().unwrap();
    // The list is never left empty: a fresh unsaved broker takes the deleted one's place.
    assert_eq!(data.brokers.len(), 1);
    assert!(!data.brokers[0].stored);
    assert_ne!(data.brokers[0].id, id);
    assert!(data.db.ids.is_empty());
    assert!(effects.iter().any(|e| matches!(e, Effect::Store(DbWrite::RemoveBroker(x)) if *x == id)));
}

#[test]
fn certificate_file_goes_to_its_broker() {
    let mut data = empty_app();
    assert!(!data.open_self_signed_file("ca.pem".to_string()));
    data.touch_add_broker();
    data.set_self_signed_file(0);
    assert_eq!(data.get_self_signed_file(), Some(0));
    assert!(data.open_self_signed_file("ca.pem".to_string()));
    assert_eq!(data.brokers[0].self_signed_ca, "ca.pem");
    data.set_self_signed_file(5);
    assert!(!data.open_self_signed_file("x.pem".to_string()));
}

#[test]
fn clear_messages() {
    let (mut data, id) = connected_app();
    data.receive_msg(id, "t".to_string(), vec![1], QoS::AtMostOnce, "now".to_string()).unwrap();
    data.clear_msg(id).unwrap();
    assert!(data.find_broker_by_id(id).unwrap().msgs.is_empty());
}

#[test]
fn history_selection_and_removal() {
    let (mut data, id) = connected_app();
    assert!(matches!(data.get_selected_subscribe_his(), Err(AppError::NoSelectedSubscribeHis)));
    for (n, topic) in ["a/#", "b/+"].iter().enumerate() {
        data.find_mut_broker_by_id(id).unwrap().subscribe_input.topic = topic.to_string();
        data.touch_subscribe_by_input(id, 10 + n as u32, Id(n as u32)).unwrap();
    }
    let second = data.find_broker_by_id(id).unwrap().subscribe_hises[1].duplicate();
    data.click_subscribe_his(second).unwrap();
    let b = data.find_broker_by_id(id).unwrap();
    assert!(!b.subscribe_hises[0].selected);
    assert!(b.subscribe_hises[1].selected);
    let selected = data.get_selected_subscribe_his().unwrap();
    assert_eq!(selected.topic, "b/+");
    let effects = data.touch_remove_subscribe_his(id).unwrap();
    assert!(effects.iter().any(|e| matches!(e, Effect::Store(DbWrite::Broker(r)) if r.id == id)));
    let b = data.find_broker_by_id(id).unwrap();
    assert_eq!(b.subscribe_hises.len(), 1);
    assert_eq!(b.subscribe_hises[0].topic, "a/#");
    // Nothing is selected any more: removing again does nothing.
    assert!(data.touch_remove_subscribe_his(id).unwrap().is_empty());
}

#[test]
fn subscribing_again_replaces_the_same_filter() {
    let (mut data, id) = connected_app();
    data.find_mut_broker_by_id(id).unwrap().subscribe_input.topic = "x/y".to_string();
    let first = data.touch_subscribe_by_input(id, 1, Id(1)).unwrap();
    // The broker is saved already: its record is stored again, then the request and the scroll.
    assert_eq!(first.len(), 3);
    assert!(matches!(&first[0], Effect::Store(DbWrite::Broker(r)) if r.id == id));
    let again = data.touch_subscribe_by_input(id, 2, Id(2)).unwrap();
    // The history already holds the subscription: only the request and the scroll remain.
    assert_eq!(again.len(), 2);
    assert!(matches!(&again[0], Effect::Send(AppEvent::ToSubscribe(b, t)) if *b == id && t.trace_id == 2));
    let b = data.find_broker_by_id(id).unwrap();
    assert_eq!(b.subscribe_topics.len(), 1);
    assert_eq!(b.subscribe_topics[0].trace_id, 2);
    assert_eq!(b.subscribe_hises.len(), 1);
    let his = b.subscribe_hises[0].duplicate();
    let effects = data.touch_subscribe_from_his(his, 3).unwrap();
    assert_eq!(effects.len(), 2);
    let b = data.find_broker_by_id(id).unwrap();
    assert_eq!(b.subscribe_topics.len(), 1);
    assert_eq!(b.subscribe_topics[0].trace_id, 3);
}

#[test]
fn failed_subscription_answer() {
    let (mut data, id) = connected_app();
    data.find_mut_broker_by_id(id).unwrap().subscribe_input.topic = "t".to_string();
    data.touch_subscribe_by_input(id, 5, Id(1)).unwrap();
    // An answer for another packet id changes nothing.
    data.sub_ack(id, SubscribeAck { id: 6, acks: vec![SubscribeReasonCode::QoS2] }).unwrap();
    assert_eq!(data.find_broker_by_id(id).unwrap().subscribe_topics[0].status, SubscribeStatus::SubscribeIng);
    data.sub_ack(id, SubscribeAck { id: 5, acks: vec![SubscribeReasonCode::NotAuthorized] }).unwrap();
    assert_eq!(data.find_broker_by_id(id).unwrap().subscribe_topics[0].status, SubscribeStatus::SubscribeFail);
    // Unsubscribing a subscription that is not listed.
    data.to_unsubscribe(id, 77, 78).unwrap();
    assert!(matches!(data.unsubscribe_ack(id, 78), Err(AppError::SubscribeNotFound(77))));
}

#[test]
fn granted_qos_is_taken_over() {
    let (mut data, id) = connected_app();
    data.find_mut_broker_by_id(id).unwrap().subscribe_input.topic = "t".to_string();
    data.touch_subscribe_by_input(id, 5, Id(1)).unwrap();
    assert_eq!(data.find_broker_by_id(id).unwrap().subscribe_topics[0].qos, "0");
    data.sub_ack(id, SubscribeAck { id: 5, acks: vec![SubscribeReasonCode::QoS2] }).unwrap();
    let t = &data.find_broker_by_id(id).unwrap().subscribe_topics[0];
    assert_eq!(t.qos, "2");
    assert!(t.is_sucess());
}

#[test]
fn received_payload_uses_subscription_format() {
    let (mut data, id) = connected_app();
    {
        let b = data.find_mut_broker_by_id(id).unwrap();
        b.subscribe_input.topic = "bin/#".to_string();
        b.subscribe_input.payload_ty = PayloadTy::Hex;
    }
    data.touch_subscribe_by_input(id, 1, Id(1)).unwrap();
    data.receive_msg(id, "bin/x".to_string(), vec![0xde, 0xad], QoS::AtLeastOnce, "now".to_string()).unwrap();
    data.receive_msg(id, "other".to_string(), b"plain".to_vec(), QoS::AtMostOnce, "now".to_string()).unwrap();
    let b = data.find_broker_by_id(id).unwrap();
    assert!(matches!(&b.msgs[0], Msg::Subscribe(m) if m.msg == "de ad" && m.payload_ty == "Hex" && m.qos == "1"));
    assert!(matches!(&b.msgs[1], Msg::Subscribe(m) if m.msg == "plain" && m.payload_ty == "Text"));
}

#[test]
fn connection_lifecycle() {
    let (mut data, id) = connected_app();
    // Without a kept session the subscriptions start afresh.
    data.find_mut_broker_by_id(id).unwrap().subscribe_input.topic = "t".to_string();
    data.touch_subscribe_by_input(id, 1, Id(1)).unwrap();
    data.update_to_connected(id, true).unwrap();
    assert_eq!(data.find_broker_by_id(id).unwrap().subscribe_topics.len(), 1);
    data.update_to_connected(id, false).unwrap();
    assert!(data.find_broker_by_id(id).unwrap().subscribe_topics.is_empty());
    data.client_disconnect(id).unwrap();
    assert!(!data.find_broker_by_id(id).unwrap().tab_status.connected);
    data.update_to_connected(id, false).unwrap();
    data.close_connection(id).unwrap();
    let status = data.find_broker_by_id(id).unwrap().tab_status;
    assert!(!status.connected && !status.try_connect);
    let effects = data.touch_disconnect().unwrap();
    assert!(matches!(&effects[0], Effect::Send(AppEvent::ToDisconnect(x)) if *x == id));
    let effects = data.touch_reconnect().unwrap();
    assert!(matches!(&effects[0], Effect::Send(AppEvent::ToDisconnect(x)) if *x == id));
    assert!(effects.iter().any(|e| matches!(e, Effect::Send(AppEvent::ToConnect(r)) if r.id == id)));
    assert!(data.find_broker_by_id(id).unwrap().tab_status.try_connect);
    let effects = data.db_click_broker(id).unwrap();
    assert!(matches!(&effects[0], Effect::Send(AppEvent::ToDisconnect(_))));
    data.brokers[0].port = None;
    assert!(matches!(data.db_click_broker(id), Err(AppError::Input(ForError::InvalidPort))));
    assert!(!data.find_broker_by_id(id).unwrap().tab_status.try_connect);
}

#[test]
fn click_and_edit_broker() {
    let (mut data, id) = connected_app();
    data.unselect_broker();
    let effects = data.click_broker(id).unwrap();
    assert_eq!(data.get_selected_broker_id(), Some(id));
    assert!(data.display_broker_info);
    assert!(matches!(&effects[..], [Effect::Send(AppEvent::UpdateToSelectTabs(0))]));
    data.touch_close_broker_tab(id).unwrap();
    assert!(data.broker_tabs.is_empty());
    data.edit_broker();
    assert_eq!(data.broker_tabs, vec![id]);
    data.edit_broker();
    assert_eq!(data.broker_tabs, vec![id]);
}

#[test]
fn init_broker_when_empty() {
    let mut db = ArcDb { index: 4, ids: Vec::new() };
    let (mut data, _) = db.read_app_data(None);
    assert_eq!(data.db.index, 4);
    data.init_broker();
    assert_eq!(data.brokers.len(), 1);
    assert_eq!(data.brokers[0].id, 4);
    assert!(data.display_broker_info && !data.display_history);
    data.touch_save_broker().unwrap();
    data.init_broker();
    assert_eq!(data.brokers.len(), 1);
    assert!(!data.display_broker_info && data.display_history);
}

#[test]
fn broker_access_by_position_and_selection() {
    let mut data = empty_app();
    data.touch_add_broker();
    data.find_mut_broker_by_index(0).unwrap().name = "first".to_string();
    assert_eq!(data.get_selected_broker().unwrap().name, "first");
    data.get_selected_mut_broker().unwrap().name = "renamed".to_string();
    assert_eq!(data.get_selected_broker_or_zero().name, "renamed");
    data.get_mut_selected_broker_or_zero().addr = "h".to_string();
    assert_eq!(data.brokers[0].addr, "h");
    assert_eq!(data.get_selected_broker_index(), Some(0));
    assert!(matches!(data.find_mut_broker_by_index(3), Err(AppError::BrokerIndexNotFound(3))));
    data.unselect_broker();
    assert!(matches!(data.get_selected_mut_broker(), Err(AppError::NoSelectedBroker)));
    assert_eq!(data.get_selected_broker_or_zero().name, "renamed");
}

#[test]
fn history_is_stored_per_broker() {
    let db = ArcDb { index: 1, ids: vec![0] };
    let his = for_mqtt::data::common::SubscribeHis {
        id: Id(3),
        broker_id: 0,
        selected: true,
        topic: "t".to_string(),
        qos: QoS::ExactlyOnce,
        payload_ty: PayloadTy::Hex,
    };
    let write = db.update_subscribe_his(0, vec![his]);
    assert!(matches!(write, DbWrite::SubscribeHises(0, h) if h.len() == 1 && h[0].topic == "t"));
}

#[test]
fn saved_broker_loads_back() {
    let mut data = empty_app();
    data.touch_add_broker();
    {
        let b = data.get_selected_mut_broker().unwrap();
        b.name = "home".to_string();
        b.addr = "10.0.0.2".to_string();
        b.port = Some(8883);
        b.use_credentials = true;
        b.user_name = "me".to_string();
        b.password = "secret".to_string();
        b.tls = true;
    }
    let effects = data.touch_save_broker().unwrap();
    let record = effects
        .into_iter()
        .find_map(|e| match e {
            Effect::Store(DbWrite::Broker(r)) => Some(r),
            _ => None,
        })
        .unwrap();
    let mut db = ArcDb { index: 0, ids: Vec::new() };
    let (loaded, _) = db.read_app_data(Some(vec![Some((record, Vec::new()))]));
    let b = &loaded.brokers[0];
    let saved = &data.brokers[0];
    assert_eq!(b.id, 0);
    assert!(b.stored);
    assert_eq!((&b.name, &b.addr, b.port), (&saved.name, &saved.addr, saved.port));
    assert_eq!((b.use_credentials, &b.user_name, &b.password, b.tls), (true, &saved.user_name, &saved.password, true));
}

#[test]
fn tabs_always_show_existing_brokers() {
    let mut data = empty_app();
    for _ in 0..2 {
        data.touch_add_broker();
        data.touch_save_broker().unwrap();
        data.touch_connect_broker_selected().unwrap();
    }
    assert_eq!(data.broker_tabs.len(), 2);
    data.touch_delete_broker_selected().unwrap();
    assert_eq!(data.broker_tabs.len(), 1);
    for id in data.broker_tabs.clone() {
        assert!(data.find_broker_by_id(id).is_ok());
    }
}

#[test]
fn adding_brokers_keeps_one_unsaved() {
    let mut db = ArcDb { index: 0, ids: Vec::new() };
    let (mut data, _) = db.read_app_data(None);
    data.touch_add_broker();
    assert_eq!(data.brokers.len(), 1);
    let first = data.brokers[0].id;
    data.touch_add_broker();
    assert_eq!(data.brokers.len(), 1);
    assert_eq!(data.brokers[0].id, first);
    assert!(data.brokers[0].selected && !data.brokers[0].stored);
    data.touch_save_broker().unwrap();
    data.touch_add_broker();
    assert_eq!(data.brokers.len(), 2);
    assert!(data.display_broker_info);
    assert_eq!(data.brokers.iter().filter(|b| !b.stored).count(), 1);
    assert_eq!(data.brokers.iter().filter(|b| b.selected).count(), 1);
    assert!(data.brokers[0].selected && !data.brokers[0].stored);
    assert_ne!(data.brokers[0].id, data.brokers[1].id);
}

#[test]
fn new_broker_ids_count_up() {
    let mut db = ArcDb { index: 5, ids: vec![1, 3] };
    let a = db.new_broker();
    let b = db.new_broker();
    assert_eq!(a.id, 5);
    assert_eq!(b.id, 6);
    assert_eq!(db.index, 7);
    assert_eq!(db.ids, vec![1, 3]);
    assert!(!a.stored && !a.selected);
}
