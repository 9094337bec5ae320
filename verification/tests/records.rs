use for_mqtt::data::common::{
    Broker, Id, Msg, PayloadTy, PublicInput, PublicMsg, PublicStatus, QoS, SubscribeHis, SubscribeInput,
    SubscribeMsg, SubscribeStatus, SubscribeTopic,
};
use for_mqtt::data::db::DbKey;
use for_mqtt::mqtt::data::MqttSubscribeInput;
use for_mqtt::util::db::ArcDb;
use for_mqtt::ForError;

fn fresh_broker() -> Broker {
    ArcDb { index: 2, ids: Vec::new() }.new_broker()
}

#[test]
fn keys_name_their_records() {
    assert_eq!(DbKey::broker_key(4), DbKey::Broker(4));
    assert_eq!(DbKey::subscribe_his_key(4), DbKey::SubscribeHis(4));
}

#[test]
fn record_round_trip() {
    let mut b = fresh_broker();
    b.name = "n".to_string();
    b.stored = false;
    let record = b.clone_to_db();
    assert_eq!(record.id, 2);
    assert_eq!(record.name, "n");
    let back = record.to_broker();
    assert!(back.stored && !back.selected);
    assert_eq!(back.name, "n");
    assert_eq!(back.addr, b.addr);
    assert_eq!(back.port, b.port);
    assert_eq!(back.subscribe_input.broker_id, 2);
}

#[test]
fn broker_connection_state() {
    let mut b = fresh_broker();
    b.init_connection().unwrap();
    assert!(b.tab_status.try_connect && !b.tab_status.connected);
    b.tab_status.connected = true;
    b.subscribe_topics.push(SubscribeTopic {
        trace_id: 1,
        topic: "t".to_string(),
        qos: "0".to_string(),
        status: SubscribeStatus::SubscribeIng,
        payload_ty: PayloadTy::Text,
    });
    b.disconnect(false);
    assert!(!b.tab_status.connected && !b.tab_status.try_connect);
    assert_eq!(b.subscribe_topics.len(), 1);
    b.disconnect(true);
    assert!(b.subscribe_topics.is_empty());
    b.addr = String::new();
    assert_eq!(b.init_connection(), Err(ForError::NotEmpty));
    b.addr = "h".to_string();
    b.port = None;
    assert_eq!(b.init_connection(), Err(ForError::InvalidPort));
    assert!(!b.tab_status.try_connect);
}

#[test]
fn subscriptions_from_forms() {
    let input = SubscribeInput { broker_id: 1, topic: "a/b".to_string(), qos: QoS::ExactlyOnce, payload_ty: PayloadTy::Json };
    let t = SubscribeTopic::from(input, 9);
    assert_eq!(t.trace_id, 9);
    assert_eq!(t.qos, "2");
    assert_eq!(t.status, SubscribeStatus::SubscribeIng);
    assert!(!t.is_sucess());
    assert!(t.match_topic("a/b"));
    assert!(!t.match_topic("a/c"));
    let copy = t.duplicate();
    assert!(copy.is_equal(&t));
    let other = SubscribeTopic { qos: "1".to_string(), ..t.duplicate() };
    assert!(!other.is_equal(&t));
    let his = SubscribeHis::from_input(
        SubscribeInput { broker_id: 1, topic: "a/b".to_string(), qos: QoS::AtLeastOnce, payload_ty: PayloadTy::Hex },
        Id::new(3),
    );
    assert_eq!(his.id, Id(3));
    assert!(!his.selected);
    let again = SubscribeTopic::from_his(his.duplicate(), 10);
    assert_eq!(again.qos, "1");
    assert_eq!(again.payload_ty, PayloadTy::Hex);
    assert!(his.duplicate() == his);
    let m = MqttSubscribeInput::from_his(his.duplicate());
    assert_eq!(m.qos, QoS::AtLeastOnce);
    let init = SubscribeInput::init(5);
    assert_eq!(init.broker_id, 5);
    assert_eq!(init.topic, "");
    assert_eq!(init.qos, QoS::AtMostOnce);
    let form = MqttSubscribeInput::from_input(SubscribeInput { qos: QoS::ExactlyOnce, ..init });
    assert_eq!(form.qos, QoS::AtLeastOnce);
}

#[test]
fn messages_wrap_records() {
    let input = PublicInput { topic: "t".to_string(), msg: "m".to_string(), qos: QoS::AtLeastOnce, retain: true, payload_ty: PayloadTy::Text };
    let p = PublicMsg::from(input, 4, "now".to_string());
    assert_eq!(p.trace_id, 4);
    assert_eq!(p.qos, "1");
    assert_eq!(p.payload_ty, "Text");
    assert_eq!(p.status, PublicStatus::Ing);
    let m = Msg::from_public(p);
    assert!(m.is_public());
    assert!(!m.is_sucess());
    assert_eq!(m.msg(), "m");
    let s = Msg::from_subscribe(SubscribeMsg {
        topic: "x".to_string(),
        msg: "y".to_string(),
        qos: "0".to_string(),
        payload_ty: "Text".to_string(),
        time: "t".to_string(),
    });
    assert_eq!(s.topic(), "x");
    let default_input = PublicInput::default();
    assert_eq!(default_input.topic, "");
    assert_eq!(default_input.qos, QoS::AtMostOnce);
    assert!(!default_input.retain);
}
